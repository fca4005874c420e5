//! The dispatcher: resolves the coin, takes a cooldown slot, picks the backend, and
//! turns the backend's outcome into the reply. Network work happens between `begin`
//! and `finish`, outside the ledger's lock.
use crate::amount::amount_text;
use crate::errors::kind_of;
use crate::errors::user_message;
use crate::errors::user_message_of;
use crate::errors::Error;
use crate::ledger::after_commit;
use crate::ledger::after_release;
use crate::ledger::after_reserve;
use crate::ledger::entry_of;
use crate::ledger::reserve_outcome;
use crate::ledger::CooldownLedger;
use crate::ledger::ReserveOutcome;
use crate::send::explorer_prefix;
use crate::send::explorer_url;
use crate::send::submission_plan;
use crate::send::Submission;
use crate::structs::coin_named;
use crate::structs::Coin;
use crate::structs::Config;
use crate::structs::Macaroon;
use crate::text::decimal_digits;
use crate::text::decimal_string;
use crate::text::remove_spaces;
use crate::text::to_uppercase;
use crate::text::upper_of;
use crate::text::without_spaces;
use vstd::prelude::*;

verus! {

/// The faucet's state: its configuration, credentials and cooldown ledger.
pub struct Faucet {
    pub config: Config,
    pub macaroon: Macaroon,
    pub ledger: CooldownLedger,
    /// The cooldown window in seconds: `config.limit` hours.
    pub cooldown: u64,
}

/// A request that holds its cooldown slot and awaits its backend.
#[derive(Clone, Debug)]
pub struct Dispatch {
    pub user: u64,
    pub coin: Coin,
    /// When the slot was taken; a success is recorded at this time.
    pub reserved_at: u64,
    pub submission: Submission,
}

/// What the dispatcher does next with a request.
#[derive(Clone, Debug)]
pub enum Step {
    /// Answer the user and stop.
    Reply(String),
    /// The request failed before any network work: answer the user with the first
    /// part, log the error, and stop. The slot has been released.
    Refused(String, Error),
    /// Carry out the submission, then call `finish`.
    Submit(Dispatch),
}

/// The reply that names the time left before the next request: whole hours and
/// minutes of `remaining` seconds.
pub open spec fn wait_text(remaining: nat, coin: Seq<char>) -> Seq<char> {
    "Please wait another "@ + decimal_digits(remaining / 3600) + "h"@ + decimal_digits(
        (remaining % 3600) / 60,
    ) + "m before requesting new "@ + coin + "!"@
}

/// The reply to a successful disbursement.
pub open spec fn sent_text(coin: Coin, txid: Seq<char>) -> Seq<char> {
    "Sent "@ + amount_text(coin.amount) + " "@ + coin.name@ + "! "@ + explorer_prefix(
        coin.network,
        coin.name@,
    ) + txid
}

/// The coin name a user's coin code stands for: spaces removed, upper case.
pub open spec fn normalized_code(code: Seq<char>) -> Seq<char> {
    upper_of(without_spaces(code))
}

/// How `begin` treats a request for the coin named `name` at time `now`: an unknown
/// coin is refused with the ledger untouched; a slot still in its window gets the wait
/// reply with the time left, and a busy one the wait reply with the whole window that
/// its pending request would start, both with the ledger untouched; otherwise the slot is taken
/// and the coin's backend request is built, or, where that fails before any network
/// work, the slot is released and the failure's sentence is the reply.
pub open spec fn begin_spec(
    pre: Faucet,
    post: Faucet,
    user: u64,
    name: Seq<char>,
    address: Seq<char>,
    now: u64,
    r: Step,
) -> bool {
    &&& post.config == pre.config
    &&& post.macaroon == pre.macaroon
    &&& post.cooldown == pre.cooldown
    &&& match coin_named(pre.config, name) {
        None => {
            &&& r is Reply && r->Reply_0@ == "Coin not supported!"@
            &&& post.ledger@ == pre.ledger@
        },
        Some(coin) => {
            let key = (user, name);
            match reserve_outcome(entry_of(pre.ledger@, key), now, pre.cooldown) {
                ReserveOutcome::Busy => {
                    &&& r is Reply && r->Reply_0@ == wait_text(pre.cooldown as nat, name)
                    &&& post.ledger@ == pre.ledger@
                },
                ReserveOutcome::Wait(remaining) => {
                    &&& r is Reply && r->Reply_0@ == wait_text(remaining as nat, name)
                    &&& post.ledger@ == pre.ledger@
                },
                ReserveOutcome::Reserved => match r {
                    Step::Submit(d) => {
                        &&& d.user == user
                        &&& d.coin == coin
                        &&& d.reserved_at == now
                        &&& submission_plan(pre.config, pre.macaroon, coin, address, Ok(d.submission))
                        &&& post.ledger@ == after_reserve(pre.ledger@, key, now, pre.cooldown)
                    },
                    Step::Refused(msg, e) => {
                        &&& submission_plan(pre.config, pre.macaroon, coin, address, Err(e))
                        &&& msg@ == user_message_of(kind_of(e))
                        &&& post.ledger@ == after_release(
                            after_reserve(pre.ledger@, key, now, pre.cooldown),
                            key,
                        )
                    },
                    Step::Reply(_) => false,
                },
            }
        },
    }
}

/// While a pair's slot is held, any further request for it is answered with a reply,
/// never submitted or refused, and leaves the ledger as it was.
pub proof fn lemma_held_slot_refuses_requests(
    pre: Faucet,
    post: Faucet,
    user: u64,
    name: Seq<char>,
    address: Seq<char>,
    now: u64,
    r: Step,
)
    requires
        begin_spec(pre, post, user, name, address, now, r),
        pre.ledger@.contains_key((user, name)),
        pre.ledger@[(user, name)].reserved,
    ensures
        r is Reply,
        post.ledger@ == pre.ledger@,
        post.ledger@[(user, name)].reserved,
{
}

/// Of two requests for one pair, the second started before the first finishes: where
/// the first is submitted, the second is answered with a reply and changes nothing, so
/// at most one of them reaches a backend; with the held-slot law above this extends to
/// any number of such requests.
pub proof fn lemma_one_submission(
    f0: Faucet,
    f1: Faucet,
    f2: Faucet,
    user: u64,
    name: Seq<char>,
    a1: Seq<char>,
    a2: Seq<char>,
    t1: u64,
    t2: u64,
    r1: Step,
    r2: Step,
)
    requires
        begin_spec(f0, f1, user, name, a1, t1, r1),
        begin_spec(f1, f2, user, name, a2, t2, r2),
    ensures
        r1 is Submit ==> r2 is Reply && f2.ledger@ == f1.ledger@,
{
    if r1 is Submit {
        lemma_held_slot_refuses_requests(f1, f2, user, name, a2, t2, r2);
    }
}

/// The ledger still holds the slot of `d`: the pair is reserved and its last success
/// is not after the reservation time.
pub open spec fn holds_slot(m: Map<(u64, Seq<char>), crate::ledger::CooldownEntry>, d: Dispatch) -> bool {
    let key = (d.user, d.coin.name@);
    &&& m.contains_key(key)
    &&& m[key].reserved
    &&& match m[key].last_success_at {
        Some(t) => t <= d.reserved_at,
        None => true,
    }
}

/// How many dashes `s` holds.
pub open spec fn dash_count(s: Seq<char>) -> nat
    decreases s.len(),
{
    if s.len() == 0 {
        0
    } else {
        dash_count(s.drop_last()) + if s.last() == '-' {
            1nat
        } else {
            0nat
        }
    }
}

/// Splits a chat message `COIN-ADDRESS` at its only dash into the coin code and the
/// address with spaces removed; `None` unless the message holds exactly one dash.
pub fn parse_request(content: &str) -> (r: Option<(String, String)>)
    ensures
        r is Some <==> dash_count(content@) == 1,
        match r {
            Some((code, address)) => exists|p: int|
                {
                    &&& 0 <= p < content@.len()
                    &&& content@[p] == '-'
                    &&& code@ == content@.subrange(0, p)
                    &&& address@ == without_spaces(content@.subrange(p + 1, content@.len() as int))
                },
            None => true,
        },
{
    let n = content.unicode_len();
    let mut count: usize = 0;
    let mut first: usize = 0;
    let mut i: usize = 0;
    while i < n
        invariant
            n == content@.len(),
            i <= n,
            count == dash_count(content@.subrange(0, i as int)),
            count <= i,
            count > 0 ==> first < i && content@[first as int] == '-',
        decreases n - i,
    {
        let c = content.get_char(i);
        assert(content@.subrange(0, i + 1).drop_last() =~= content@.subrange(0, i as int));
        if c == '-' {
            if count == 0 {
                first = i;
            }
            count = count + 1;
        }
        i = i + 1;
    }
    assert(content@.subrange(0, n as int) =~= content@);
    if count != 1 {
        return None;
    }
    let code = String::from_str(content.substring_char(0, first));
    let address = remove_spaces(content.substring_char(first + 1, n));
    Some((code, address))
}

/// The reply naming the time left, as `wait_text` gives it.
pub fn wait_message(remaining: u128, coin: &str) -> (r: String)
    ensures
        r@ == wait_text(remaining as nat, coin@),
{
    let hours = remaining / 3600;
    let mins = (remaining % 3600) / 60;
    let mut r = String::from_str("Please wait another ");
    r.append(decimal_string(hours).as_str());
    r.append("h");
    r.append(decimal_string(mins).as_str());
    r.append("m before requesting new ");
    r.append(coin);
    r.append("!");
    r
}

/// The reply to a successful disbursement, as `sent_text` gives it.
pub fn sent_message(coin: &Coin, txid: &str) -> (r: String)
    ensures
        r@ == sent_text(*coin, txid@),
{
    let mut r = String::from_str("Sent ");
    r.append(coin.amount.to_decimal_string().as_str());
    r.append(" ");
    r.append(coin.name.as_str());
    r.append("! ");
    r.append(explorer_url(coin.network, coin.name.as_str(), txid).as_str());
    r
}

/// The coin name a user's coin code stands for.
pub fn normalize_coin_code(code: &str) -> (r: String)
    ensures
        r@ == normalized_code(code@),
{
    let compact = remove_spaces(code);
    to_uppercase(compact.as_str())
}

impl Faucet {
    /// The faucet's invariant: its configuration keys each coin and provider once, and
    /// its ledger is well formed.
    pub open spec fn wf(&self) -> bool {
        &&& self.config.wf()
        &&& self.ledger.wf()
    }

    /// A faucet with an empty ledger; `None` where the configuration names a coin or a
    /// provider twice, or where the cooldown of `config.limit` hours does not fit in a
    /// `u64` of seconds.
    pub fn new(config: Config, macaroon: Macaroon) -> (r: Option<Faucet>)
        ensures
            match r {
                Some(f) => {
                    &&& f.wf()
                    &&& f.config == config
                    &&& f.macaroon == macaroon
                    &&& f.ledger@ == Map::<(u64, Seq<char>), crate::ledger::CooldownEntry>::empty()
                    &&& f.cooldown == config.limit * 3600
                },
                None => !config.wf() || config.limit * 3600 > u64::MAX,
            },
    {
        if !config.keys_are_unique() {
            return None;
        }
        match config.limit.checked_mul(3600) {
            Some(cooldown) => Some(Faucet { config, macaroon, ledger: CooldownLedger::new(), cooldown }),
            None => None,
        }
    }

    /// Starts handling a request for the coin named `name`, already normalized.
    pub fn begin_named(&mut self, user: u64, name: &String, address: &str, now: u64) -> (r: Step)
        requires
            old(self).wf(),
        ensures
            final(self).wf(),
            begin_spec(*old(self), *final(self), user, name@, address@, now, r),
    {
        let coin = match self.config.coin(name.as_str()) {
            Some(c) => c,
            None => {
                return Step::Reply(String::from_str("Coin not supported!"));
            },
        };
        match self.ledger.reserve(user, name, now, self.cooldown) {
            ReserveOutcome::Busy => Step::Reply(wait_message(self.cooldown as u128, name.as_str())),
            ReserveOutcome::Wait(remaining) => Step::Reply(wait_message(remaining, name.as_str())),
            ReserveOutcome::Reserved => match self.submission(&coin, address) {
                Ok(submission) => Step::Submit(
                    Dispatch { user, coin, reserved_at: now, submission },
                ),
                Err(e) => {
                    self.ledger.release(user, name);
                    Step::Refused(user_message(e.kind()), e)
                },
            },
        }
    }

    /// Starts handling a request of `user` for the coin code `coin_code`, to be sent
    /// to `address`, at time `now`.
    pub fn begin(&mut self, user: u64, coin_code: &str, address: &str, now: u64) -> (r: Step)
        requires
            old(self).wf(),
        ensures
            final(self).wf(),
            begin_spec(*old(self), *final(self), user, normalized_code(coin_code@), address@, now, r),
    {
        let name = normalize_coin_code(coin_code);
        self.begin_named(user, &name, address, now)
    }

    /// Whether `dispatch` still holds its slot: the pair is reserved and its last
    /// success is not after the reservation time.
    pub fn holds_reservation(&self, dispatch: &Dispatch) -> (r: bool)
        requires
            self.wf(),
        ensures
            r == holds_slot(self.ledger@, *dispatch),
    {
        match self.ledger.entry(dispatch.user, &dispatch.coin.name) {
            None => false,
            Some(e) => e.reserved && match e.last_success_at {
                None => true,
                Some(t) => t <= dispatch.reserved_at,
            },
        }
    }

    /// Ends a request that holds its slot with its backend's outcome: a success is
    /// recorded in the ledger at the reservation time, which never moves the last
    /// success back, and answered with the explorer link; a failure releases the slot
    /// and is answered with its kind's sentence.
    pub fn finish(&mut self, dispatch: &Dispatch, outcome: &Result<String, Error>) -> (r: String)
        requires
            old(self).wf(),
            holds_slot(old(self).ledger@, *dispatch),
        ensures
            final(self).wf(),
            final(self).config == old(self).config,
            final(self).macaroon == old(self).macaroon,
            final(self).cooldown == old(self).cooldown,
            match outcome {
                Ok(txid) => {
                    &&& r@ == sent_text(dispatch.coin, txid@)
                    &&& final(self).ledger@ == after_commit(
                        old(self).ledger@,
                        (dispatch.user, dispatch.coin.name@),
                        dispatch.reserved_at,
                    )
                    &&& match old(self).ledger@[(dispatch.user, dispatch.coin.name@)].last_success_at {
                        Some(t) => t <= final(self).ledger@[(
                            dispatch.user,
                            dispatch.coin.name@,
                        )].last_success_at->Some_0,
                        None => true,
                    }
                },
                Err(e) => {
                    &&& r@ == user_message_of(kind_of(*e))
                    &&& final(self).ledger@ == after_release(
                        old(self).ledger@,
                        (dispatch.user, dispatch.coin.name@),
                    )
                },
            },
    {
        match outcome {
            Ok(txid) => {
                self.ledger.commit(dispatch.user, &dispatch.coin.name, dispatch.reserved_at);
                sent_message(&dispatch.coin, txid.as_str())
            },
            Err(e) => {
                self.ledger.release(dispatch.user, &dispatch.coin.name);
                user_message(e.kind())
            },
        }
    }
}

} // verus!
