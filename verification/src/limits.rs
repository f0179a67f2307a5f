//! The limit enforcer: pure validation of a proposed stake against the
//! policy's bounds and the caller's per-user usage snapshot.

use vstd::prelude::*;

use crate::errors::LedgerError;
use crate::policy::ProgramState;

verus! {

/// The outcome of validating a proposed stake, checked in tie-break order:
/// emergency halt, then the per-stake bounds, then the daily cap, then the
/// lifetime cap. The first failing check names the error.
pub open spec fn validate_stake_spec(
    policy: ProgramState,
    user_daily_total: u64,
    user_lifetime_total: u64,
    proposed_amount: u64,
) -> Result<(), LedgerError> {
    if policy.emergency_controls_active {
        Err(LedgerError::EmergencyHalt)
    } else if proposed_amount < policy.min_stake {
        Err(LedgerError::BelowMinimum)
    } else if proposed_amount > policy.max_stake {
        Err(LedgerError::AboveMaximum)
    } else if user_daily_total + proposed_amount > policy.daily_user_limit {
        Err(LedgerError::DailyLimitExceeded)
    } else if user_lifetime_total + proposed_amount > policy.total_user_limit {
        Err(LedgerError::TotalLimitExceeded)
    } else {
        Ok(())
    }
}

/// Validates a proposed stake against the policy and the user's usage
/// snapshot; pure and side-effect free.
///
/// Returns `Ok` exactly when no check of `validate_stake_spec` fails, and
/// otherwise the error of the first failing check in tie-break order.
pub fn validate_stake(
    policy: &ProgramState,
    user_daily_total: u64,
    user_lifetime_total: u64,
    proposed_amount: u64,
) -> (r: Result<(), LedgerError>)
    ensures
        r == validate_stake_spec(*policy, user_daily_total, user_lifetime_total, proposed_amount),
{
    if policy.emergency_controls_active {
        return Err(LedgerError::EmergencyHalt);
    }
    if proposed_amount < policy.min_stake {
        return Err(LedgerError::BelowMinimum);
    }
    if proposed_amount > policy.max_stake {
        return Err(LedgerError::AboveMaximum);
    }
    if (user_daily_total as u128) + (proposed_amount as u128) > (policy.daily_user_limit as u128) {
        return Err(LedgerError::DailyLimitExceeded);
    }
    if (user_lifetime_total as u128) + (proposed_amount as u128) > (
    policy.total_user_limit as u128) {
        return Err(LedgerError::TotalLimitExceeded);
    }
    Ok(())
}

} // verus!
