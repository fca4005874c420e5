use faucet::ledger::CooldownEntry;
use faucet::ledger::CooldownLedger;
use faucet::ledger::ReserveOutcome;

#[test]
fn first_reserve_of_a_new_pair_is_reserved() {
    let mut ledger = CooldownLedger::new();
    let coin = String::from("BTC");
    assert_eq!(ledger.reserve(7, &coin, 1_000, 86_400), ReserveOutcome::Reserved);
    assert_eq!(
        ledger.entry(7, &coin),
        Some(CooldownEntry { last_success_at: None, reserved: true })
    );
}

#[test]
fn second_reserve_before_commit_is_busy() {
    let mut ledger = CooldownLedger::new();
    let coin = String::from("BTC");
    assert_eq!(ledger.reserve(7, &coin, 1_000, 86_400), ReserveOutcome::Reserved);
    assert_eq!(ledger.reserve(7, &coin, 1_000, 86_400), ReserveOutcome::Busy);
    assert_eq!(ledger.reserve(7, &coin, 500_000, 86_400), ReserveOutcome::Busy);
}

#[test]
fn other_user_or_coin_is_independent() {
    let mut ledger = CooldownLedger::new();
    let btc = String::from("BTC");
    let eth = String::from("ETH");
    assert_eq!(ledger.reserve(7, &btc, 1_000, 60), ReserveOutcome::Reserved);
    assert_eq!(ledger.reserve(8, &btc, 1_000, 60), ReserveOutcome::Reserved);
    assert_eq!(ledger.reserve(7, &eth, 1_000, 60), ReserveOutcome::Reserved);
}

#[test]
fn commit_then_reserve_one_second_early_waits_one_second() {
    let mut ledger = CooldownLedger::new();
    let coin = String::from("BTC");
    let t: u64 = 1_700_000_000;
    let cooldown: u64 = 86_400;
    assert_eq!(ledger.reserve(7, &coin, t, cooldown), ReserveOutcome::Reserved);
    ledger.commit(7, &coin, t);
    assert_eq!(ledger.reserve(7, &coin, t + cooldown - 1, cooldown), ReserveOutcome::Wait(1));
}

#[test]
fn commit_then_reserve_at_window_end_still_waits() {
    let mut ledger = CooldownLedger::new();
    let coin = String::from("BTC");
    let t: u64 = 1_700_000_000;
    let cooldown: u64 = 86_400;
    ledger.commit(7, &coin, t);
    assert_eq!(ledger.reserve(7, &coin, t + cooldown, cooldown), ReserveOutcome::Wait(0));
    assert_eq!(ledger.reserve(7, &coin, t + cooldown + 1, cooldown), ReserveOutcome::Reserved);
}

#[test]
fn wait_does_not_change_the_ledger() {
    let mut ledger = CooldownLedger::new();
    let coin = String::from("BTC");
    ledger.commit(7, &coin, 100);
    let before = ledger.entry(7, &coin);
    assert_eq!(ledger.reserve(7, &coin, 150, 100), ReserveOutcome::Wait(50));
    assert_eq!(ledger.entry(7, &coin), before);
}

#[test]
fn release_keeps_last_success_and_allows_retry() {
    let mut ledger = CooldownLedger::new();
    let coin = String::from("BTC");
    ledger.commit(7, &coin, 100);
    assert_eq!(ledger.reserve(7, &coin, 300, 100), ReserveOutcome::Reserved);
    ledger.release(7, &coin);
    assert_eq!(
        ledger.entry(7, &coin),
        Some(CooldownEntry { last_success_at: Some(100), reserved: false })
    );
    assert_eq!(ledger.reserve(7, &coin, 301, 100), ReserveOutcome::Reserved);
}

#[test]
fn release_of_unknown_pair_changes_nothing() {
    let mut ledger = CooldownLedger::new();
    let coin = String::from("BTC");
    ledger.release(7, &coin);
    assert_eq!(ledger.entry(7, &coin), None);
}

#[test]
fn many_simultaneous_reserves_yield_exactly_one_reservation() {
    let mut ledger = CooldownLedger::new();
    let coin = String::from("LTC");
    let outcomes: Vec<ReserveOutcome> =
        (0..50).map(|_| ledger.reserve(42, &coin, 5_000, 3_600)).collect();
    let reserved = outcomes.iter().filter(|o| **o == ReserveOutcome::Reserved).count();
    assert_eq!(reserved, 1);
    assert_eq!(outcomes[0], ReserveOutcome::Reserved);
    assert!(outcomes[1..].iter().all(|o| *o == ReserveOutcome::Busy));
}

#[test]
fn remaining_wait_is_exact_for_large_times() {
    let mut ledger = CooldownLedger::new();
    let coin = String::from("BTC");
    ledger.commit(7, &coin, u64::MAX);
    assert_eq!(
        ledger.reserve(7, &coin, 0, u64::MAX),
        ReserveOutcome::Wait(2 * (u64::MAX as u128))
    );
}
