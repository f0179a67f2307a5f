use onusone_p2p::errors::LedgerError;
use onusone_p2p::limits::validate_stake;
use onusone_p2p::policy::PolicyUpdate;
use onusone_p2p::policy::ProgramState;

fn base_policy() -> ProgramState {
    ProgramState::initialize(1, 100, 10, 1000, 100_000, 1_000_000).unwrap()
}

#[test]
fn initialize_zeroes_aggregates() {
    let p = base_policy();
    assert_eq!(p.total_staked, 0);
    assert_eq!(p.total_rewards_paid, 0);
    assert_eq!(p.authority, 1);
    assert_eq!(p.decay_rate, 100);
    assert_eq!(p.min_stake, 10);
    assert_eq!(p.max_stake, 1000);
    assert_eq!(p.daily_user_limit, 100_000);
    assert_eq!(p.total_user_limit, 1_000_000);
    assert!(!p.emergency_controls_active);
}

#[test]
fn initialize_rejects_unordered_bounds() {
    let r = ProgramState::initialize(1, 100, 1000, 10, 100_000, 1_000_000);
    assert_eq!(r, Err(LedgerError::InvalidPolicy));
}

#[test]
fn update_policy_requires_authority() {
    let mut p = base_policy();
    let before = p;
    let changes = PolicyUpdate {
        decay_rate: 200,
        min_stake: 5,
        max_stake: 500,
        daily_user_limit: 50_000,
        total_user_limit: 500_000,
    };
    assert_eq!(p.update_policy(2, changes), Err(LedgerError::Unauthorized));
    assert_eq!(p, before);
}

#[test]
fn update_policy_applies_changes() {
    let mut p = base_policy();
    let changes = PolicyUpdate {
        decay_rate: 200,
        min_stake: 5,
        max_stake: 500,
        daily_user_limit: 50_000,
        total_user_limit: 500_000,
    };
    assert_eq!(p.update_policy(1, changes), Ok(()));
    assert_eq!(p.decay_rate, 200);
    assert_eq!(p.min_stake, 5);
    assert_eq!(p.max_stake, 500);
    assert_eq!(p.daily_user_limit, 50_000);
    assert_eq!(p.total_user_limit, 500_000);
    assert_eq!(p.authority, 1);
    assert_eq!(p.total_staked, 0);
    assert!(!p.emergency_controls_active);
}

#[test]
fn update_policy_rejects_unordered_bounds() {
    let mut p = base_policy();
    let before = p;
    let changes = PolicyUpdate {
        decay_rate: 200,
        min_stake: 500,
        max_stake: 5,
        daily_user_limit: 50_000,
        total_user_limit: 500_000,
    };
    assert_eq!(p.update_policy(1, changes), Err(LedgerError::InvalidPolicy));
    assert_eq!(p, before);
}

#[test]
fn set_emergency_requires_authority() {
    let mut p = base_policy();
    assert_eq!(p.set_emergency(9, true), Err(LedgerError::Unauthorized));
    assert!(!p.emergency_controls_active);
    assert_eq!(p.set_emergency(1, true), Ok(()));
    assert!(p.emergency_controls_active);
    assert_eq!(p.set_emergency(1, false), Ok(()));
    assert!(!p.emergency_controls_active);
}

#[test]
fn validate_stake_tie_break_order() {
    let mut p = base_policy();
    p.set_emergency(1, true).unwrap();
    // Emergency wins over every other failing check.
    assert_eq!(validate_stake(&p, 0, 0, 1), Err(LedgerError::EmergencyHalt));
    p.set_emergency(1, false).unwrap();
    // Below-minimum wins over above-maximum being impossible, and over limits.
    assert_eq!(
        validate_stake(&p, u64::MAX, u64::MAX, 1),
        Err(LedgerError::BelowMinimum)
    );
    // Above-maximum wins over the limit checks.
    assert_eq!(
        validate_stake(&p, u64::MAX, u64::MAX, 2000),
        Err(LedgerError::AboveMaximum)
    );
    // The daily check comes before the lifetime check.
    assert_eq!(
        validate_stake(&p, 100_000, u64::MAX, 100),
        Err(LedgerError::DailyLimitExceeded)
    );
    assert_eq!(
        validate_stake(&p, 0, 1_000_000, 100),
        Err(LedgerError::TotalLimitExceeded)
    );
    assert_eq!(validate_stake(&p, 0, 0, 100), Ok(()));
}
