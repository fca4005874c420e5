//! Exact decimal amounts and their conversion to and from base units.
use vstd::arithmetic::div_mod::lemma_fundamental_div_mod;
use vstd::arithmetic::div_mod::lemma_fundamental_div_mod_converse;
use vstd::arithmetic::div_mod::lemma_div_non_zero;
use vstd::arithmetic::div_mod::lemma_div_pos_is_pos;
use vstd::arithmetic::div_mod::lemma_div_is_ordered_by_denominator;
use crate::text::decimal_digits;
use crate::text::decimal_string;
use vstd::prelude::*;

verus! {

/// `10^n`.
pub open spec fn pow10(n: nat) -> nat
    decreases n,
{
    if n == 0 {
        1
    } else {
        10 * pow10((n - 1) as nat)
    }
}

pub proof fn lemma_pow10_positive(n: nat)
    ensures
        pow10(n) >= 1,
    decreases n,
{
    if n > 0 {
        lemma_pow10_positive((n - 1) as nat);
    }
}

pub proof fn lemma_pow10_add(a: nat, b: nat)
    ensures
        pow10(a + b) == pow10(a) * pow10(b),
    decreases b,
{
    if b > 0 {
        let b1 = (b - 1) as nat;
        lemma_pow10_add(a, b1);
        let ab = (a + b) as nat;
        assert((ab - 1) as nat == a + b1);
        let pa = pow10(a);
        let pb1 = pow10(b1);
        assert(pow10(ab) == 10 * pow10((ab - 1) as nat));
        assert(pow10(ab) == 10 * (pa * pb1));
        assert(pow10(b) == 10 * pb1);
        assert(pa * (10 * pb1) == 10 * (pa * pb1)) by (nonlinear_arith);
        assert(pa * pow10(b) == pa * (10 * pb1));
    } else {
        assert(pow10(a) * pow10(b) == pow10(a) * 1);
    }
}

pub proof fn lemma_pow10_monotone(a: nat, b: nat)
    requires
        a <= b,
    ensures
        pow10(a) <= pow10(b),
    decreases b - a,
{
    if a < b {
        lemma_pow10_monotone(a, (b - 1) as nat);
        lemma_pow10_positive((b - 1) as nat);
    }
}

/// `n / m` rounded to the nearest integer, halves rounding up.
pub open spec fn round_div(n: int, m: int) -> int
    recommends
        m > 0,
{
    n / m + if 2 * (n % m) >= m {
        1int
    } else {
        0int
    }
}

/// A non-negative decimal number, worth `units / 10^scale`.
#[derive(Clone, Copy, Debug, PartialEq, Eq)]
pub struct Amount {
    pub units: u128,
    pub scale: u32,
}

impl Amount {
    /// The two amounts denote the same number.
    pub open spec fn same_value(self, other: Amount) -> bool {
        self.units * pow10(other.scale as nat) == other.units * pow10(self.scale as nat)
    }

    /// The amount is smaller than `10^-d`.
    pub open spec fn below_unit(self, d: nat) -> bool {
        self.units * pow10(d) < pow10(self.scale as nat)
    }

    /// The amount has no more than `d` decimal places.
    pub open spec fn exact_at(self, d: nat) -> bool {
        (self.units * pow10(d)) % (pow10(self.scale as nat) as int) == 0int
    }
}

/// The amount counted in base units of `d` decimal places: zero below one base unit,
/// otherwise `amount * 10^d` rounded to the nearest integer.
pub open spec fn base_units(a: Amount, d: nat) -> int {
    if a.below_unit(d) {
        0
    } else {
        round_div(a.units * pow10(d), pow10(a.scale as nat) as int)
    }
}

/// `base_units` when it fits in a `u128`.
pub open spec fn base_units_u128(a: Amount, d: nat) -> Option<u128> {
    if 0 <= base_units(a, d) <= u128::MAX {
        Some(base_units(a, d) as u128)
    } else {
        None
    }
}

pub proof fn lemma_base_units_nonneg(a: Amount, d: nat)
    ensures
        base_units(a, d) >= 0,
{
    lemma_pow10_positive(a.scale as nat);
    lemma_pow10_positive(d);
    let n = a.units * pow10(d);
    let m = pow10(a.scale as nat) as int;
    assert(a.units * pow10(d) >= 0) by (nonlinear_arith)
        requires
            a.units >= 0,
            pow10(d) >= 1,
    ;
    lemma_div_pos_is_pos(n, m);
    lemma_fundamental_div_mod(n, m);
}

proof fn lemma_scaled_div(u: nat, p: nat, q: nat)
    requires
        p > 0,
        q > 0,
    ensures
        (u * p) / (p * q) == u / q,
        (u * p) % (p * q) == (u % q) * p,
{
    lemma_fundamental_div_mod(u as int, q as int);
    let a = u / q;
    let b = u % q;
    assert(u == q * a + b);
    assert(u * p == a * (p * q) + b * p) by (nonlinear_arith)
        requires
            u == q * a + b,
    ;
    assert(0 <= b * p < p * q) by (nonlinear_arith)
        requires
            0 <= b < q,
            p > 0,
    ;
    lemma_fundamental_div_mod_converse((u * p) as int, (p * q) as int, a as int, (b * p) as int);
}

/// `10^n` when it fits in a `u128`.
fn checked_pow10(n: u32) -> (r: Option<u128>)
    ensures
        match r {
            Some(v) => v == pow10(n as nat),
            None => pow10(n as nat) > u128::MAX,
        },
{
    let mut acc: u128 = 1;
    let mut i: u32 = 0;
    while i < n
        invariant
            i <= n,
            acc == pow10(i as nat),
        decreases n - i,
    {
        if acc > u128::MAX / 10 {
            proof {
                lemma_pow10_monotone((i + 1) as nat, n as nat);
            }
            return None;
        }
        acc = acc * 10;
        i = i + 1;
    }
    Some(acc)
}

/// `n` zero digits.
pub open spec fn zeros(n: nat) -> Seq<char> {
    Seq::new(n, |i: int| '0')
}

/// The digits of the amount's units, left-padded with zeros to more than `scale` digits.
pub open spec fn padded_digits(a: Amount) -> Seq<char> {
    let d = decimal_digits(a.units as nat);
    if d.len() > a.scale {
        d
    } else {
        zeros((a.scale + 1 - d.len()) as nat) + d
    }
}

/// `s` without its trailing zero digits.
pub open spec fn trim_zeros(s: Seq<char>) -> Seq<char>
    decreases s.len(),
{
    if s.len() > 0 && s.last() == '0' {
        trim_zeros(s.drop_last())
    } else {
        s
    }
}

/// The amount in decimal notation: the whole part, then a point and the fractional
/// digits without trailing zeros, where any remain.
pub open spec fn amount_text(a: Amount) -> Seq<char> {
    let p = padded_digits(a);
    let cut = p.len() - a.scale;
    let frac = trim_zeros(p.subrange(cut, p.len() as int));
    if frac.len() == 0 {
        p.subrange(0, cut)
    } else {
        p.subrange(0, cut) + "."@ + frac
    }
}

impl Amount {
    /// The amount in decimal notation, as `0.0005` or `12`.
    pub fn to_decimal_string(&self) -> (r: String)
        ensures
            r@ == amount_text(*self),
    {
        let digits = decimal_string(self.units);
        let n = digits.unicode_len();
        let mut padded = String::new();
        if n as u64 <= self.scale as u64 {
            let count: u64 = self.scale as u64 + 1 - n as u64;
            let mut k: u64 = 0;
            while k < count
                invariant
                    k <= count,
                    padded@ == zeros(k as nat),
                decreases count - k,
            {
                padded.append("0");
                proof {
                    reveal_strlit("0");
                }
                assert(padded@ =~= zeros((k + 1) as nat));
                k = k + 1;
            }
        }
        padded.append(digits.as_str());
        assert(padded@ =~= padded_digits(*self));
        let len = padded.unicode_len();
        let cut = len - self.scale as usize;
        let whole = padded.as_str().substring_char(0, cut);
        let mut end = len;
        while end > cut && padded.as_str().get_char(end - 1) == '0'
            invariant
                len == padded@.len(),
                cut <= end <= len,
                cut == len - self.scale,
                trim_zeros(padded@.subrange(cut as int, end as int)) == trim_zeros(
                    padded@.subrange(cut as int, len as int),
                ),
            decreases end - cut,
        {
            let ghost sub = padded@.subrange(cut as int, end as int);
            assert(sub.drop_last() =~= padded@.subrange(cut as int, end - 1));
            end = end - 1;
        }
        let ghost frac = padded@.subrange(cut as int, end as int);
        assert(trim_zeros(frac) == frac);
        if end == cut {
            String::from_str(whole)
        } else {
            let mut r = String::from_str(whole);
            r.append(".");
            r.append(padded.as_str().substring_char(cut, end));
            r
        }
    }
}

/// A decimal digit character.
pub open spec fn is_digit(c: char) -> bool {
    '0' <= c && c <= '9'
}

/// Every character is a decimal digit.
pub open spec fn all_digits(s: Seq<char>) -> bool {
    forall|i: int| 0 <= i < s.len() ==> is_digit(#[trigger] s[i])
}

/// The number that a string of decimal digits denotes.
pub open spec fn digits_value(s: Seq<char>) -> int
    decreases s.len(),
{
    if s.len() == 0 {
        0
    } else {
        digits_value(s.drop_last()) * 10 + (s.last() as int - '0' as int)
    }
}

/// `s` is digits, a point at `p`, and digits, with at least one digit on each side.
pub open spec fn point_at(s: Seq<char>, p: int) -> bool {
    &&& 0 < p < s.len() - 1
    &&& s[p] == '.'
    &&& all_digits(s.subrange(0, p))
    &&& all_digits(s.subrange(p + 1, s.len() as int))
}

/// The amount a decimal literal denotes: digits, or digits, a point and digits; its
/// units are all the digits read as one number, its scale the number of digits after
/// the point. `None` for any other text, or where units or scale do not fit.
pub open spec fn parsed_amount(s: Seq<char>) -> Option<Amount> {
    if s.len() > 0 && all_digits(s) {
        if digits_value(s) <= u128::MAX {
            Some(Amount { units: digits_value(s) as u128, scale: 0 })
        } else {
            None
        }
    } else if exists|p: int| point_at(s, p) {
        let p = choose|p: int| point_at(s, p);
        let ds = s.subrange(0, p) + s.subrange(p + 1, s.len() as int);
        if digits_value(ds) <= u128::MAX && s.len() - p - 1 <= u32::MAX {
            Some(Amount { units: digits_value(ds) as u128, scale: (s.len() - p - 1) as u32 })
        } else {
            None
        }
    } else {
        None
    }
}

proof fn lemma_digits_value_nonneg(s: Seq<char>)
    requires
        all_digits(s),
    ensures
        digits_value(s) >= 0,
    decreases s.len(),
{
    if s.len() > 0 {
        lemma_digits_value_nonneg(s.drop_last());
    }
}

proof fn lemma_digits_value_grows(x: Seq<char>, y: Seq<char>)
    requires
        all_digits(x),
        all_digits(y),
    ensures
        digits_value(x) <= digits_value(x + y),
    decreases y.len(),
{
    if y.len() > 0 {
        let z = x + y.drop_last();
        assert((x + y).drop_last() =~= z);
        lemma_digits_value_grows(x, y.drop_last());
        lemma_digits_value_nonneg(z);
        assert(is_digit(y[y.len() - 1]));
        assert((x + y).last() == y.last());
    }
}

/// Reads the digits `s[from..to]` onto `acc`, the value of the digits `ds` before them;
/// `None` once the value no longer fits.
fn read_digits(s: &str, from: usize, to: usize, acc: u128, ds: Ghost<Seq<char>>) -> (r: Option<u128>)
    requires
        from <= to <= s@.len(),
        all_digits(s@.subrange(from as int, to as int)),
        all_digits(ds@),
        acc == digits_value(ds@),
    ensures
        match r {
            Some(v) => v == digits_value(ds@ + s@.subrange(from as int, to as int)),
            None => digits_value(ds@ + s@.subrange(from as int, to as int)) > u128::MAX,
        },
{
    let mut acc = acc;
    let mut i = from;
    while i < to
        invariant
            from <= i <= to <= s@.len(),
            all_digits(s@.subrange(from as int, to as int)),
            all_digits(ds@),
            acc == digits_value(ds@ + s@.subrange(from as int, i as int)),
        decreases to - i,
    {
        let c = s.get_char(i);
        let ghost before = ds@ + s@.subrange(from as int, i as int);
        let ghost after = ds@ + s@.subrange(from as int, i + 1);
        assert(after.drop_last() =~= before);
        assert(s@.subrange(from as int, to as int)[i - from] == c);
        let d = (c as u32 - '0' as u32) as u128;
        assert(all_digits(after)) by {
            assert forall|k: int| 0 <= k < after.len() implies is_digit(#[trigger] after[k]) by {
                if k >= ds@.len() {
                    assert(after[k] == s@.subrange(from as int, to as int)[k - ds@.len() + (
                    0)]);
                }
            }
        }
        if acc > (u128::MAX - d) / 10 {
            proof {
                let rest = s@.subrange(i + 1, to as int);
                assert(all_digits(rest)) by {
                    assert forall|k: int| 0 <= k < rest.len() implies is_digit(#[trigger] rest[k]) by {
                        assert(rest[k] == s@.subrange(from as int, to as int)[i + 1 - from + k]);
                    }
                }
                lemma_digits_value_grows(after, rest);
                assert(after + rest =~= ds@ + s@.subrange(from as int, to as int));
            }
            return None;
        }
        acc = acc * 10 + d;
        i = i + 1;
    }
    Some(acc)
}

impl Amount {
    /// Reads a decimal literal such as `0.0005` or `12`.
    pub fn parse(s: &str) -> (r: Option<Amount>)
        ensures
            r == parsed_amount(s@),
    {
        let n = s.unicode_len();
        let mut point: usize = 0;
        let mut found = false;
        let mut i: usize = 0;
        while i < n
            invariant
                n == s@.len(),
                i <= n,
                !found ==> all_digits(s@.subrange(0, i as int)),
                found ==> point < i && s@[point as int] == '.' && all_digits(
                    s@.subrange(0, point as int),
                ),
            decreases n - i,
        {
            let c = s.get_char(i);
            if c == '.' && !found {
                found = true;
                point = i;
            } else if !found && !('0' <= c && c <= '9') {
                proof {
                    assert(!all_digits(s@)) by {
                        assert(!is_digit(s@[i as int]));
                    }
                    assert forall|p: int| !point_at(s@, p) by {
                        if point_at(s@, p) && p != i {
                            if p < i {
                                assert(s@.subrange(0, i as int)[p] == '.');
                            } else {
                                assert(s@.subrange(0, p)[i as int] == c);
                            }
                        }
                    }
                }
                return None;
            }
            proof {
                if !found {
                    assert(s@.subrange(0, i + 1) =~= s@.subrange(0, i as int).push(c));
                }
            }
            i = i + 1;
        }
        assert(s@.subrange(0, n as int) =~= s@);
        if !found {
            if n == 0 {
                return None;
            }
            return match read_digits(s, 0, n, 0, Ghost(Seq::empty())) {
                Some(units) => {
                    assert(Seq::<char>::empty() + s@.subrange(0, n as int) =~= s@);
                    Some(Amount { units, scale: 0 })
                },
                None => {
                    assert(Seq::<char>::empty() + s@.subrange(0, n as int) =~= s@);
                    None
                },
            };
        }
        assert(!all_digits(s@)) by {
            assert(!is_digit(s@[point as int]));
        }
        let frac_ok = point > 0 && point + 1 < n && Amount::digits_only(s, point + 1, n);
        if !frac_ok {
            proof {
                assert forall|p: int| !point_at(s@, p) by {
                    if point_at(s@, p) {
                        if p < point {
                            assert(s@.subrange(p + 1, n as int)[point - p - 1] == '.');
                        } else if p > point {
                            assert(s@.subrange(0, p)[point as int] == '.');
                        }
                    }
                }
            }
            return None;
        }
        proof {
            assert(point_at(s@, point as int));
            assert forall|p: int| point_at(s@, p) implies p == point by {
                if p < point {
                    assert(s@.subrange(p + 1, n as int)[point - p - 1] == '.');
                } else if p > point {
                    assert(s@.subrange(0, p)[point as int] == '.');
                }
            }
        }
        let scale_len = n - point - 1;
        if scale_len > u32::MAX as usize {
            return None;
        }
        proof {
            lemma_digits_value_nonneg(Seq::empty());
        }
        let whole = read_digits(s, 0, point, 0, Ghost(Seq::empty()));
        assert(Seq::<char>::empty() + s@.subrange(0, point as int) =~= s@.subrange(0, point as int));
        let ghost ds = s@.subrange(0, point as int) + s@.subrange(point + 1, n as int);
        match whole {
            None => {
                proof {
                    lemma_digits_value_grows(s@.subrange(0, point as int), s@.subrange(point + 1, n as int));
                }
                None
            },
            Some(w) => match read_digits(s, point + 1, n, w, Ghost(s@.subrange(0, point as int))) {
                Some(units) => Some(Amount { units, scale: scale_len as u32 }),
                None => None,
            },
        }
    }

    /// Whether `s[from..to]` is all decimal digits.
    fn digits_only(s: &str, from: usize, to: usize) -> (r: bool)
        requires
            from <= to <= s@.len(),
        ensures
            r == all_digits(s@.subrange(from as int, to as int)),
    {
        let mut i = from;
        while i < to
            invariant
                from <= i <= to <= s@.len(),
                all_digits(s@.subrange(from as int, i as int)),
            decreases to - i,
        {
            let c = s.get_char(i);
            if !('0' <= c && c <= '9') {
                assert(!is_digit(s@.subrange(from as int, to as int)[i - from]));
                return false;
            }
            assert(s@.subrange(from as int, i + 1) =~= s@.subrange(from as int, i as int).push(c));
            i = i + 1;
        }
        true
    }
}

/// Converts a decimal amount into base units of `decimals` places (wei for 18 places):
/// zero when the amount is below one base unit, otherwise the nearest integer to
/// `amount * 10^decimals`; `None` when that does not fit in a `u128`.
pub fn eth_to_wei(amount: Amount, decimals: u32) -> (r: Option<u128>)
    ensures
        r == base_units_u128(amount, decimals as nat),
{
    let ghost d = decimals as nat;
    let ghost s = amount.scale as nat;
    let ghost u = amount.units as nat;
    proof {
        lemma_pow10_positive(d);
        lemma_pow10_positive(s);
    }
    if amount.units == 0 {
        assert(amount.units * pow10(d) == 0) by (nonlinear_arith)
            requires
                amount.units == 0,
        ;
        assert(amount.below_unit(d));
        return Some(0);
    }
    if amount.scale <= decimals {
        let k = decimals - amount.scale;
        let ghost pk = pow10(k as nat);
        proof {
            lemma_pow10_add(s, k as nat);
            lemma_pow10_positive(k as nat);
            let m = pow10(s);
            assert(u * pow10(d) == (u * pk) * m + 0) by (nonlinear_arith)
                requires
                    pow10(d) == m * pk,
            ;
            assert(u * pk >= 1) by (nonlinear_arith)
                requires
                    u >= 1,
                    pk >= 1,
            ;
            assert((u * pk) * m >= m) by (nonlinear_arith)
                requires
                    u * pk >= 1,
                    m >= 1,
            ;
            lemma_fundamental_div_mod_converse((u * pow10(d)) as int, m as int, (u * pk) as int, 0);
            assert(base_units(amount, d) == u * pk);
        }
        match checked_pow10(k) {
            None => {
                assert(u * pk >= pk) by (nonlinear_arith)
                    requires
                        u >= 1,
                        pk >= 1,
                ;
                None
            },
            Some(p) => amount.units.checked_mul(p),
        }
    } else {
        let k = amount.scale - decimals;
        let ghost q = pow10(k as nat);
        proof {
            lemma_pow10_add(d, k as nat);
            lemma_pow10_positive(k as nat);
            lemma_scaled_div(u, pow10(d), q);
            assert(q >= 10) by {
                lemma_pow10_positive((k - 1) as nat);
            }
            assert(pow10(s) == pow10(d) * q);
            assert(amount.below_unit(d) <==> u < q) by (nonlinear_arith)
                requires
                    pow10(d) >= 1,
                    amount.below_unit(d) <==> u * pow10(d) < pow10(d) * q,
            ;
        }
        match checked_pow10(k) {
            None => {
                assert(amount.below_unit(d));
                Some(0)
            },
            Some(q_exec) => {
                let whole = amount.units / q_exec;
                let rem = amount.units % q_exec;
                proof {
                    lemma_fundamental_div_mod(u as int, q as int);
                    if u < q {
                        lemma_fundamental_div_mod_converse(u as int, q as int, 0, u as int);
                    } else {
                        lemma_div_non_zero(u as int, q as int);
                    }
                    assert(whole == 0 <==> u < q);
                    lemma_div_is_ordered_by_denominator(u as int, 10, q as int);
                    assert(2 * rem * pow10(d) >= pow10(d) * q <==> 2 * rem >= q)
                        by (nonlinear_arith)
                        requires
                            pow10(d) >= 1,
                    ;
                    assert(2 * (rem * pow10(d)) == 2 * rem * pow10(d)) by (nonlinear_arith);
                }
                if whole == 0 {
                    Some(0)
                } else if rem >= q_exec - rem {
                    Some(whole + 1)
                } else {
                    Some(whole)
                }
            },
        }
    }
}

/// Converts a decimal amount into satoshi-style base units of `decimals` places; as
/// `eth_to_wei`, with `None` when the result does not fit in a `u64`.
pub fn btc_to_sat(amount: Amount, decimals: u32) -> (r: Option<u64>)
    ensures
        r == (if base_units(amount, decimals as nat) <= u64::MAX {
            Some(base_units(amount, decimals as nat) as u64)
        } else {
            None
        }),
{
    proof {
        lemma_base_units_nonneg(amount, decimals as nat);
    }
    match eth_to_wei(amount, decimals) {
        Some(v) => {
            if v <= u64::MAX as u128 {
                Some(v as u64)
            } else {
                None
            }
        },
        None => None,
    }
}

/// The decimal amount worth `base / 10^decimals`.
pub fn wei_to_eth(base: u128, decimals: u32) -> (r: Amount)
    ensures
        r == (Amount { units: base, scale: decimals }),
{
    Amount { units: base, scale: decimals }
}

/// The decimal amount worth `|base| / 10^decimals`: a sign carries no meaning here.
pub fn sat_to_btc(base: i64, decimals: u32) -> (r: Amount)
    ensures
        r.units == (if base < 0 {
            -base
        } else {
            base as int
        }),
        r.scale == decimals,
{
    let units: u128 = if base < 0 {
        (-(base as i128)) as u128
    } else {
        base as u128
    };
    Amount { units, scale: decimals }
}

/// An amount below one base unit converts to zero; an amount with at most `d` decimal
/// places converts to base units and back to an amount of the same value.
pub proof fn lemma_base_units_round_trip(a: Amount, d: u32)
    ensures
        a.below_unit(d as nat) ==> base_units(a, d as nat) == 0,
        a.exact_at(d as nat) && base_units(a, d as nat) <= u128::MAX ==> (Amount {
            units: base_units(a, d as nat) as u128,
            scale: d,
        }).same_value(a),
{
    let n = a.units * pow10(d as nat);
    let m = pow10(a.scale as nat);
    lemma_pow10_positive(a.scale as nat);
    if a.exact_at(d as nat) && base_units(a, d as nat) <= u128::MAX {
        lemma_fundamental_div_mod(n as int, m as int);
        assert(n % (m as int) == 0);
        if a.below_unit(d as nat) {
            lemma_fundamental_div_mod_converse(n as int, m as int, 0, n as int);
            assert(n == 0);
            assert(base_units(a, d as nat) * m == n);
        } else {
            assert(base_units(a, d as nat) == n / (m as int));
        }
        assert(base_units(a, d as nat) * m == n);
    }
}

} // verus!
