use onusone_p2p::decay::effective_value;
use onusone_p2p::errors::LedgerError;
use onusone_p2p::ledger::Deployment;
use onusone_p2p::ledger::StakeLedger;
use onusone_p2p::policy::ProgramState;

const DAY: i64 = 86_400;

fn ledger_with(
    decay_rate: u64,
    min_stake: u64,
    max_stake: u64,
    daily_user_limit: u64,
    total_user_limit: u64,
) -> StakeLedger {
    let state =
        ProgramState::initialize(1, decay_rate, min_stake, max_stake, daily_user_limit, total_user_limit)
            .unwrap();
    StakeLedger::new(state)
}

fn base_ledger() -> StakeLedger {
    ledger_with(100, 10, 1000, 100_000, 1_000_000)
}

#[test]
fn deployment_initializes_once() {
    let mut d = Deployment::new();
    assert!(d.ledger.is_none());
    assert_eq!(d.initialize_policy(1, 100, 10, 1000, 100_000, 1_000_000), Ok(()));
    let l = d.ledger.as_ref().unwrap();
    assert_eq!(l.state.total_staked, 0);
    assert_eq!(l.state.total_rewards_paid, 0);
    assert_eq!(
        d.initialize_policy(1, 100, 10, 1000, 100_000, 1_000_000),
        Err(LedgerError::AlreadyInitialized)
    );
}

#[test]
fn deployment_rejects_invalid_policy() {
    let mut d = Deployment::new();
    assert_eq!(
        d.initialize_policy(1, 100, 1000, 10, 100_000, 1_000_000),
        Err(LedgerError::InvalidPolicy)
    );
    assert!(d.ledger.is_none());
}

#[test]
fn stake_opens_record_and_counts_aggregate() {
    let mut l = base_ledger();
    let r = l.stake_tokens(7, "c1".to_string(), "post".to_string(), 100, 0);
    assert_eq!(r, Ok(0));
    assert_eq!(l.state.total_staked, 100);
    assert_eq!(l.records.len(), 1);
    let rec = &l.records[0];
    assert_eq!(rec.user, 7);
    assert_eq!(rec.content_id, "c1");
    assert_eq!(rec.content_type, "post");
    assert_eq!(rec.amount, 100);
    assert_eq!(rec.staked_at, 0);
    assert!(rec.is_active);
}

#[test]
fn stake_below_minimum_rejected() {
    let mut l = base_ledger();
    let r = l.stake_tokens(7, "c1".to_string(), "post".to_string(), 9, 0);
    assert_eq!(r, Err(LedgerError::BelowMinimum));
    assert_eq!(l.state.total_staked, 0);
    assert_eq!(l.records.len(), 0);
}

#[test]
fn stake_above_maximum_rejected() {
    let mut l = base_ledger();
    let r = l.stake_tokens(7, "c1".to_string(), "post".to_string(), 1001, 0);
    assert_eq!(r, Err(LedgerError::AboveMaximum));
    assert_eq!(l.state.total_staked, 0);
}

#[test]
fn daily_limit_rejected_regardless_of_total_limit() {
    // A lifetime limit with plenty of room: the daily check still fires first.
    let mut l = ledger_with(0, 10, 1000, 150, 1_000_000);
    assert_eq!(l.stake_tokens(7, "c1".to_string(), "post".to_string(), 100, 0), Ok(0));
    let r = l.stake_tokens(7, "c2".to_string(), "post".to_string(), 100, 3600);
    assert_eq!(r, Err(LedgerError::DailyLimitExceeded));
    assert_eq!(l.state.total_staked, 100);
}

#[test]
fn total_limit_rejected_across_days() {
    let mut l = ledger_with(0, 10, 1000, 1000, 150);
    assert_eq!(l.stake_tokens(7, "c1".to_string(), "post".to_string(), 100, 0), Ok(0));
    // Two days later the daily window is fresh, but the lifetime cap trips.
    let r = l.stake_tokens(7, "c2".to_string(), "post".to_string(), 100, 2 * DAY);
    assert_eq!(r, Err(LedgerError::TotalLimitExceeded));
}

#[test]
fn daily_window_resets_after_a_day() {
    let mut l = ledger_with(0, 10, 1000, 150, 1_000_000);
    assert_eq!(l.stake_tokens(7, "c1".to_string(), "post".to_string(), 100, 0), Ok(0));
    assert_eq!(
        l.stake_tokens(7, "c2".to_string(), "post".to_string(), 100, DAY - 1),
        Err(LedgerError::DailyLimitExceeded)
    );
    // At exactly one day the recorded window has expired.
    assert_eq!(l.stake_tokens(7, "c2".to_string(), "post".to_string(), 100, DAY), Ok(1));
    assert_eq!(l.state.total_staked, 200);
}

#[test]
fn emergency_halt_blocks_stakes_until_cleared() {
    let mut l = base_ledger();
    assert_eq!(l.stake_tokens(7, "c1".to_string(), "post".to_string(), 100, 0), Ok(0));
    assert_eq!(l.state.set_emergency(1, true), Ok(()));
    assert_eq!(
        l.stake_tokens(7, "c2".to_string(), "post".to_string(), 100, 10),
        Err(LedgerError::EmergencyHalt)
    );
    assert_eq!(
        l.stake_tokens(8, "c3".to_string(), "post".to_string(), 500, 20),
        Err(LedgerError::EmergencyHalt)
    );
    assert_eq!(l.state.total_staked, 100);
    assert_eq!(l.state.set_emergency(1, false), Ok(()));
    assert_eq!(l.stake_tokens(7, "c2".to_string(), "post".to_string(), 100, 30), Ok(1));
}

#[test]
fn scenario_ten_days_of_decay() {
    // min_stake=10, max_stake=1000, decay_rate=100 (1% per day).
    let mut l = base_ledger();
    assert_eq!(l.stake_tokens(7, "c1".to_string(), "post".to_string(), 100, 0), Ok(0));
    let cid = "c1".to_string();
    // 100 * (1 - 0.01 * 10) = 90 after ten days.
    assert_eq!(l.query_effective_value(7, &cid, 10 * DAY), Ok(90));
    // The read did not touch the stored principal.
    assert_eq!(l.records[0].amount, 100);
    // Unstake returns the settled principal and the aggregate returns to 0.
    assert_eq!(l.unstake(7, &cid, 10 * DAY), Ok(90));
    assert_eq!(l.state.total_staked, 0);
    assert!(!l.records[0].is_active);
}

#[test]
fn sequential_stakes_settle_before_adding() {
    let mut l = base_ledger();
    assert_eq!(l.stake_tokens(7, "c1".to_string(), "post".to_string(), 100, 0), Ok(0));
    // Ten days later the first 100 has decayed to 90; adding 50 settles first.
    assert_eq!(l.stake_tokens(7, "c1".to_string(), "post".to_string(), 50, 10 * DAY), Ok(0));
    assert_eq!(l.records.len(), 1);
    assert_eq!(l.records[0].amount, 140);
    assert_eq!(l.records[0].staked_at, 10 * DAY);
    // 140, never 150: decay is not double-counted into the aggregate.
    assert_eq!(l.state.total_staked, 140);
}

#[test]
fn query_is_idempotent() {
    let mut l = base_ledger();
    assert_eq!(l.stake_tokens(7, "c1".to_string(), "post".to_string(), 100, 0), Ok(0));
    let cid = "c1".to_string();
    let first = l.query_effective_value(7, &cid, 5 * DAY);
    let second = l.query_effective_value(7, &cid, 5 * DAY);
    assert_eq!(first, second);
    assert_eq!(first, Ok(95));
}

#[test]
fn decay_is_monotone_and_reaches_zero() {
    let mut l = base_ledger();
    assert_eq!(l.stake_tokens(7, "c1".to_string(), "post".to_string(), 100, 0), Ok(0));
    let cid = "c1".to_string();
    let mut previous = u64::MAX;
    for day in [0, 1, 2, 10, 50, 99, 100, 150] {
        let v = l.query_effective_value(7, &cid, day * DAY).unwrap();
        assert!(v <= previous);
        previous = v;
    }
    // Fully decayed at 100 days with 1%/day, and it stays at zero.
    assert_eq!(l.query_effective_value(7, &cid, 100 * DAY), Ok(0));
    assert_eq!(l.query_effective_value(7, &cid, 1000 * DAY), Ok(0));
}

#[test]
fn partial_days_do_not_decay() {
    let mut l = base_ledger();
    assert_eq!(l.stake_tokens(7, "c1".to_string(), "post".to_string(), 100, 0), Ok(0));
    let cid = "c1".to_string();
    assert_eq!(l.query_effective_value(7, &cid, DAY - 1), Ok(100));
    assert_eq!(l.query_effective_value(7, &cid, DAY), Ok(99));
}

#[test]
fn zero_rate_never_decays() {
    let mut l = ledger_with(0, 10, 1000, 100_000, 1_000_000);
    assert_eq!(l.stake_tokens(7, "c1".to_string(), "post".to_string(), 100, 0), Ok(0));
    let cid = "c1".to_string();
    assert_eq!(l.query_effective_value(7, &cid, 10_000 * DAY), Ok(100));
}

#[test]
fn rate_beyond_full_clamps_at_zero() {
    // 200% per day: one elapsed day wipes the whole value.
    let mut l = ledger_with(20_000, 10, 1000, 100_000, 1_000_000);
    assert_eq!(l.stake_tokens(7, "c1".to_string(), "post".to_string(), 100, 0), Ok(0));
    let cid = "c1".to_string();
    assert_eq!(l.query_effective_value(7, &cid, 0), Ok(100));
    assert_eq!(l.query_effective_value(7, &cid, DAY), Ok(0));
}

#[test]
fn clock_skew_reported() {
    assert_eq!(effective_value(100, 50, 49, 100), Err(LedgerError::ClockSkew));
    assert_eq!(effective_value(100, 50, 50, 100), Ok(100));
    let mut l = base_ledger();
    assert_eq!(l.stake_tokens(7, "c1".to_string(), "post".to_string(), 100, 100), Ok(0));
    let cid = "c1".to_string();
    assert_eq!(l.query_effective_value(7, &cid, 99), Err(LedgerError::ClockSkew));
    assert_eq!(
        l.stake_tokens(7, "c1".to_string(), "post".to_string(), 100, 99),
        Err(LedgerError::ClockSkew)
    );
    assert_eq!(l.unstake(7, &cid, 99), Err(LedgerError::ClockSkew));
    assert_eq!(l.state.total_staked, 100);
}

#[test]
fn missing_records_are_not_found() {
    let mut l = base_ledger();
    let cid = "c1".to_string();
    assert_eq!(l.query_effective_value(7, &cid, 0), Err(LedgerError::NotFound));
    assert_eq!(l.unstake(7, &cid, 0), Err(LedgerError::NotFound));
    assert_eq!(l.stake_tokens(7, "c1".to_string(), "post".to_string(), 100, 0), Ok(0));
    // Another user, and another content of the same user, are distinct keys.
    assert_eq!(l.query_effective_value(8, &cid, 0), Err(LedgerError::NotFound));
    let other = "c2".to_string();
    assert_eq!(l.query_effective_value(7, &other, 0), Err(LedgerError::NotFound));
}

#[test]
fn unstake_closes_for_good_and_key_reopens() {
    let mut l = base_ledger();
    let cid = "c1".to_string();
    assert_eq!(l.stake_tokens(7, "c1".to_string(), "post".to_string(), 100, 0), Ok(0));
    assert_eq!(l.unstake(7, &cid, 0), Ok(100));
    assert_eq!(l.unstake(7, &cid, 0), Err(LedgerError::NotFound));
    assert_eq!(l.state.total_staked, 0);
    // A new record opens for the same key; the old one stays inactive.
    assert_eq!(l.stake_tokens(7, "c1".to_string(), "post".to_string(), 200, DAY), Ok(1));
    assert_eq!(l.records.len(), 2);
    assert!(!l.records[0].is_active);
    assert!(l.records[1].is_active);
    assert_eq!(l.state.total_staked, 200);
}

#[test]
fn users_are_accounted_independently() {
    let mut l = ledger_with(0, 10, 1000, 150, 1_000_000);
    assert_eq!(l.stake_tokens(7, "c1".to_string(), "post".to_string(), 100, 0), Ok(0));
    // User 8 has their own daily allowance.
    assert_eq!(l.stake_tokens(8, "c1".to_string(), "post".to_string(), 100, 0), Ok(1));
    assert_eq!(
        l.stake_tokens(7, "c2".to_string(), "post".to_string(), 100, 0),
        Err(LedgerError::DailyLimitExceeded)
    );
    assert_eq!(l.state.total_staked, 200);
}
