//! The in-memory cooldown ledger: one entry per (user, coin) pair, driven by
//! `reserve`, `commit` and `release`.
use vstd::prelude::*;

verus! {

/// A ledger key: the user id and the coin's name.
pub type CooldownKey = (u64, Seq<char>);

/// What the ledger holds for one (user, coin) pair.
#[derive(Clone, Copy, Debug, PartialEq, Eq)]
pub struct CooldownEntry {
    /// When the last successful disbursement happened, if there was one.
    pub last_success_at: Option<u64>,
    /// A request for this pair is in flight.
    pub reserved: bool,
}

/// The answer of `reserve`.
#[derive(Clone, Copy, Debug, PartialEq, Eq)]
pub enum ReserveOutcome {
    /// The slot is now held by the caller.
    Reserved,
    /// Another request for the same pair is in flight.
    Busy,
    /// The cooldown window is still open for this many seconds.
    Wait(u128),
}

/// The entry under `k`, if any.
pub open spec fn entry_of(m: Map<CooldownKey, CooldownEntry>, k: CooldownKey) -> Option<
    CooldownEntry,
> {
    if m.contains_key(k) {
        Some(m[k])
    } else {
        None
    }
}

/// What `reserve` answers for an entry at time `now`: a pair with no entry, or one
/// that is not reserved and whose window `last_success_at + cooldown` has passed, is
/// reserved; a reserved pair is busy; otherwise the caller waits out the window.
pub open spec fn reserve_outcome(entry: Option<CooldownEntry>, now: u64, cooldown: u64) -> ReserveOutcome {
    match entry {
        None => ReserveOutcome::Reserved,
        Some(e) => if e.reserved {
            ReserveOutcome::Busy
        } else {
            match e.last_success_at {
                None => ReserveOutcome::Reserved,
                Some(t) => if now > t + cooldown {
                    ReserveOutcome::Reserved
                } else {
                    ReserveOutcome::Wait((t + cooldown - now) as u128)
                },
            }
        },
    }
}

/// The ledger after `reserve(k, now, cooldown)`: only a successful reservation changes it.
pub open spec fn after_reserve(
    m: Map<CooldownKey, CooldownEntry>,
    k: CooldownKey,
    now: u64,
    cooldown: u64,
) -> Map<CooldownKey, CooldownEntry> {
    if reserve_outcome(entry_of(m, k), now, cooldown) is Reserved {
        m.insert(
            k,
            CooldownEntry {
                last_success_at: match entry_of(m, k) {
                    Some(e) => e.last_success_at,
                    None => None,
                },
                reserved: true,
            },
        )
    } else {
        m
    }
}

/// The ledger after `commit(k, now)`.
pub open spec fn after_commit(m: Map<CooldownKey, CooldownEntry>, k: CooldownKey, now: u64) -> Map<
    CooldownKey,
    CooldownEntry,
> {
    m.insert(k, CooldownEntry { last_success_at: Some(now), reserved: false })
}

/// The ledger after `release(k)`: the reservation is dropped, the time kept.
pub open spec fn after_release(m: Map<CooldownKey, CooldownEntry>, k: CooldownKey) -> Map<
    CooldownKey,
    CooldownEntry,
> {
    if m.contains_key(k) {
        m.insert(k, CooldownEntry { last_success_at: m[k].last_success_at, reserved: false })
    } else {
        m
    }
}

/// The answers of `reserve` calls for one key at the given times, one after another,
/// with no `commit` or `release` between them.
pub open spec fn reserve_run(
    m: Map<CooldownKey, CooldownEntry>,
    k: CooldownKey,
    times: Seq<u64>,
    cooldown: u64,
) -> Seq<ReserveOutcome>
    decreases times.len(),
{
    if times.len() == 0 {
        Seq::empty()
    } else {
        seq![reserve_outcome(entry_of(m, k), times[0], cooldown)] + reserve_run(
            after_reserve(m, k, times[0], cooldown),
            k,
            times.drop_first(),
            cooldown,
        )
    }
}

/// How many answers are `Reserved`.
pub open spec fn count_reserved(outcomes: Seq<ReserveOutcome>) -> nat
    decreases outcomes.len(),
{
    if outcomes.len() == 0 {
        0
    } else {
        (if outcomes[0] is Reserved {
            1nat
        } else {
            0nat
        }) + count_reserved(outcomes.drop_first())
    }
}

/// Once a key is reserved, every further `reserve` of it answers `Busy` and changes
/// nothing, whatever its time.
proof fn lemma_reserved_stays_busy(
    m: Map<CooldownKey, CooldownEntry>,
    k: CooldownKey,
    times: Seq<u64>,
    cooldown: u64,
)
    requires
        m.contains_key(k),
        m[k].reserved,
    ensures
        forall|i: int| 0 <= i < times.len() ==> #[trigger] reserve_run(m, k, times, cooldown)[i] == ReserveOutcome::Busy,
        reserve_run(m, k, times, cooldown).len() == times.len(),
        count_reserved(reserve_run(m, k, times, cooldown)) == 0,
    decreases times.len(),
{
    if times.len() > 0 {
        lemma_reserved_stays_busy(m, k, times.drop_first(), cooldown);
        let rest = reserve_run(m, k, times.drop_first(), cooldown);
        let run = reserve_run(m, k, times, cooldown);
        assert(run == seq![ReserveOutcome::Busy] + rest);
        assert(run.drop_first() =~= rest);
        assert forall|i: int| 0 <= i < times.len() implies #[trigger] run[i] == ReserveOutcome::Busy by {
            if i > 0 {
                assert(run[i] == rest[i - 1]);
            }
        }
    }
}

/// Two `reserve` calls for one key, back to back: where the first answers `Reserved`
/// or `Busy`, the second answers `Busy`.
pub proof fn lemma_second_reserve_is_busy(
    m: Map<CooldownKey, CooldownEntry>,
    k: CooldownKey,
    first: u64,
    second: u64,
    cooldown: u64,
)
    ensures
        !(reserve_outcome(entry_of(m, k), first, cooldown) is Wait) ==> reserve_outcome(
            entry_of(after_reserve(m, k, first, cooldown), k),
            second,
            cooldown,
        ) == ReserveOutcome::Busy,
{
}

/// After `commit(k, t)`, a `reserve` of `k` one second before `t + cooldown` answers
/// `Wait(1)`, and one at any time after `t + cooldown` answers `Reserved`.
pub proof fn lemma_commit_then_reserve(
    m: Map<CooldownKey, CooldownEntry>,
    k: CooldownKey,
    t: u64,
    cooldown: u64,
    later: u64,
)
    ensures
        t + cooldown >= 1 && t + cooldown - 1 <= u64::MAX ==> reserve_outcome(
            entry_of(after_commit(m, k, t), k),
            (t + cooldown - 1) as u64,
            cooldown,
        ) == ReserveOutcome::Wait(1),
        later > t + cooldown ==> reserve_outcome(
            entry_of(after_commit(m, k, t), k),
            later,
            cooldown,
        ) == ReserveOutcome::Reserved,
{
}

/// A success recorded at the time its slot was reserved never moves the pair's last
/// success time back: a reservation at `t` means `t` is past the last success.
pub proof fn lemma_commit_at_reservation_is_monotone(
    m: Map<CooldownKey, CooldownEntry>,
    k: CooldownKey,
    t: u64,
    cooldown: u64,
)
    ensures
        reserve_outcome(entry_of(m, k), t, cooldown) is Reserved && m.contains_key(k)
            && m[k].last_success_at is Some ==> m[k].last_success_at->Some_0 <= t,
        after_commit(after_reserve(m, k, t, cooldown), k, t)[k].last_success_at == Some(t),
{
}

/// Of any number of `reserve` calls for one key, serialised in any order with no
/// `commit` or `release` between them, at most one answers `Reserved`; where the
/// first finds the key eligible, it is that one and every other answers `Busy`.
pub proof fn lemma_one_reservation(
    m: Map<CooldownKey, CooldownEntry>,
    k: CooldownKey,
    times: Seq<u64>,
    cooldown: u64,
)
    ensures
        count_reserved(reserve_run(m, k, times, cooldown)) <= 1,
        times.len() > 0 && reserve_outcome(entry_of(m, k), times[0], cooldown) is Reserved ==> {
            &&& count_reserved(reserve_run(m, k, times, cooldown)) == 1
            &&& reserve_run(m, k, times, cooldown)[0] == ReserveOutcome::Reserved
            &&& forall|i: int|
                1 <= i < times.len() ==> #[trigger] reserve_run(m, k, times, cooldown)[i]
                    == ReserveOutcome::Busy
        },
    decreases times.len(),
{
    if times.len() > 0 {
        let run = reserve_run(m, k, times, cooldown);
        let next = after_reserve(m, k, times[0], cooldown);
        let rest = reserve_run(next, k, times.drop_first(), cooldown);
        assert(run.drop_first() =~= rest);
        if reserve_outcome(entry_of(m, k), times[0], cooldown) is Reserved {
            lemma_reserved_stays_busy(next, k, times.drop_first(), cooldown);
            assert forall|i: int| 1 <= i < times.len() implies #[trigger] run[i]
                == ReserveOutcome::Busy by {
                assert(run[i] == rest[i - 1]);
            }
        } else {
            lemma_one_reservation(next, k, times.drop_first(), cooldown);
        }
    }
}

struct CooldownRecord {
    user: u64,
    coin: String,
    entry: CooldownEntry,
}

impl CooldownRecord {
    spec fn key(&self) -> CooldownKey {
        (self.user, self.coin@)
    }
}

/// The cooldown ledger. Entries are created on first use and never removed. The
/// records hold each (user, coin) key once, which `wf` states, and the ghost map is
/// the ledger's view; std's hash maps give no specification over `String` keys.
pub struct CooldownLedger {
    records: Vec<CooldownRecord>,
    contents: Ghost<Map<CooldownKey, CooldownEntry>>,
}

impl View for CooldownLedger {
    type V = Map<CooldownKey, CooldownEntry>;

    closed spec fn view(&self) -> Map<CooldownKey, CooldownEntry> {
        self.contents@
    }
}

impl CooldownLedger {
    /// The records hold each key once, and agree with the view.
    pub closed spec fn wf(&self) -> bool {
        &&& forall|i: int, j: int|
            0 <= i < j < self.records.len() ==> #[trigger] self.records[i].key()
                != #[trigger] self.records[j].key()
        &&& forall|i: int|
            0 <= i < self.records.len() ==> self.contents@.contains_key(
                #[trigger] self.records[i].key(),
            ) && self.contents@[self.records[i].key()] == self.records[i].entry
        &&& forall|k: CooldownKey|
            #[trigger] self.contents@.contains_key(k) ==> exists|i: int|
                0 <= i < self.records.len() && #[trigger] self.records[i].key() == k
    }

    /// An empty ledger.
    pub fn new() -> (r: CooldownLedger)
        ensures
            r.wf(),
            r@ == Map::<CooldownKey, CooldownEntry>::empty(),
    {
        CooldownLedger { records: Vec::new(), contents: Ghost(Map::empty()) }
    }

    fn find(&self, user: u64, coin: &String) -> (r: Option<usize>)
        requires
            self.wf(),
        ensures
            match r {
                Some(i) => i < self.records.len() && self.records[i as int].key() == (user, coin@),
                None => !self@.contains_key((user, coin@)),
            },
    {
        let mut i: usize = 0;
        while i < self.records.len()
            invariant
                self.wf(),
                i <= self.records.len(),
                forall|j: int| 0 <= j < i ==> #[trigger] self.records[j].key() != (user, coin@),
            decreases self.records.len() - i,
        {
            if self.records[i].user == user && self.records[i].coin == *coin {
                return Some(i);
            }
            i = i + 1;
        }
        None
    }

    /// The entry held for `(user, coin)`, if any.
    pub fn entry(&self, user: u64, coin: &String) -> (r: Option<CooldownEntry>)
        requires
            self.wf(),
        ensures
            r == entry_of(self@, (user, coin@)),
    {
        match self.find(user, coin) {
            Some(i) => Some(self.records[i].entry),
            None => None,
        }
    }

    /// Sets the entry of an existing record.
    fn set_entry(&mut self, i: usize, entry: CooldownEntry)
        requires
            old(self).wf(),
            i < old(self).records.len(),
        ensures
            final(self).wf(),
            final(self)@ == old(self)@.insert(old(self).records[i as int].key(), entry),
    {
        let ghost k = self.records[i as int].key();
        let user = self.records[i].user;
        let coin = self.records[i].coin.clone();
        let ghost old_records = self.records@;
        self.records.set(i, CooldownRecord { user, coin, entry });
        self.contents = Ghost(self.contents@.insert(k, entry));
        proof {
            assert forall|a: int, b: int|
                0 <= a < b < self.records.len() implies #[trigger] self.records[a].key()
                != #[trigger] self.records[b].key() by {
                assert(old_records[a].key() != old_records[b].key());
            }
            assert forall|kk: CooldownKey| #[trigger] self.contents@.contains_key(kk) implies exists|
                j: int,
            |
                0 <= j < self.records.len() && #[trigger] self.records[j].key() == kk by {
                if kk == k {
                    assert(self.records[i as int].key() == kk);
                } else {
                    let j = choose|j: int|
                        0 <= j < old_records.len() && #[trigger] old_records[j].key() == kk;
                    assert(self.records[j].key() == kk);
                }
            }
        }
    }

    /// Adds a record for a key that has none.
    fn add_entry(&mut self, user: u64, coin: &String, entry: CooldownEntry)
        requires
            old(self).wf(),
            !old(self)@.contains_key((user, coin@)),
        ensures
            final(self).wf(),
            final(self)@ == old(self)@.insert((user, coin@), entry),
    {
        let ghost old_records = self.records@;
        self.records.push(CooldownRecord { user, coin: coin.clone(), entry });
        self.contents = Ghost(self.contents@.insert((user, coin@), entry));
        proof {
            let n = old_records.len() as int;
            assert(self.records[n].key() == (user, coin@));
            assert forall|a: int, b: int|
                0 <= a < b < self.records.len() implies #[trigger] self.records[a].key()
                != #[trigger] self.records[b].key() by {
                if b < n {
                    assert(old_records[a].key() != old_records[b].key());
                } else {
                    assert(old_records[a].key() == self.records[a].key());
                }
            }
            assert forall|kk: CooldownKey| #[trigger] self.contents@.contains_key(kk) implies exists|
                j: int,
            |
                0 <= j < self.records.len() && #[trigger] self.records[j].key() == kk by {
                if kk == (user, coin@) {
                    assert(self.records[n].key() == kk);
                } else {
                    let j = choose|j: int|
                        0 <= j < old_records.len() && #[trigger] old_records[j].key() == kk;
                    assert(self.records[j].key() == kk);
                }
            }
        }
    }

    /// Reads the entry of `(user, coin)` and, where it is eligible, marks it reserved,
    /// in one step; answers `Reserved`, `Busy` or `Wait(remaining seconds)`.
    pub fn reserve(&mut self, user: u64, coin: &String, now: u64, cooldown: u64) -> (r:
        ReserveOutcome)
        requires
            old(self).wf(),
        ensures
            final(self).wf(),
            r == reserve_outcome(entry_of(old(self)@, (user, coin@)), now, cooldown),
            final(self)@ == after_reserve(old(self)@, (user, coin@), now, cooldown),
    {
        match self.find(user, coin) {
            None => {
                self.add_entry(user, coin, CooldownEntry { last_success_at: None, reserved: true });
                ReserveOutcome::Reserved
            },
            Some(i) => {
                let e = self.records[i].entry;
                if e.reserved {
                    return ReserveOutcome::Busy;
                }
                match e.last_success_at {
                    None => {
                        self.set_entry(i, CooldownEntry { last_success_at: None, reserved: true });
                        ReserveOutcome::Reserved
                    },
                    Some(t) => {
                        let until: u128 = t as u128 + cooldown as u128;
                        if now as u128 > until {
                            self.set_entry(
                                i,
                                CooldownEntry { last_success_at: Some(t), reserved: true },
                            );
                            ReserveOutcome::Reserved
                        } else {
                            ReserveOutcome::Wait(until - now as u128)
                        }
                    },
                }
            },
        }
    }

    /// Records a successful disbursement at `now` and drops the reservation.
    pub fn commit(&mut self, user: u64, coin: &String, now: u64)
        requires
            old(self).wf(),
        ensures
            final(self).wf(),
            final(self)@ == after_commit(old(self)@, (user, coin@), now),
    {
        let entry = CooldownEntry { last_success_at: Some(now), reserved: false };
        match self.find(user, coin) {
            Some(i) => self.set_entry(i, entry),
            None => self.add_entry(user, coin, entry),
        }
    }

    /// Drops the reservation of `(user, coin)` and keeps its last success time, so
    /// that the user may retry at once.
    pub fn release(&mut self, user: u64, coin: &String)
        requires
            old(self).wf(),
        ensures
            final(self).wf(),
            final(self)@ == after_release(old(self)@, (user, coin@)),
    {
        match self.find(user, coin) {
            Some(i) => {
                let t = self.records[i].entry.last_success_at;
                self.set_entry(i, CooldownEntry { last_success_at: t, reserved: false });
            },
            None => {},
        }
    }
}

} // verus!
