//! The error taxonomy of the ledger.
//!
//! Every operation is all-or-nothing: a rejected call reports exactly one of
//! these and leaves the policy and the record set unchanged.

use vstd::prelude::*;

verus! {

/// Why an operation was rejected.
#[derive(Clone, Copy, Debug, PartialEq, Eq, Structural)]
pub enum LedgerError {
    /// The deployment already holds a policy; it can be initialized only once.
    AlreadyInitialized,
    /// The caller is not the policy's authority.
    Unauthorized,
    /// The proposed policy has `min_stake > max_stake`.
    InvalidPolicy,
    /// The emergency kill-switch is active; no new stake is admitted.
    EmergencyHalt,
    /// The proposed amount is below the policy's `min_stake`.
    BelowMinimum,
    /// The proposed amount is above the policy's `max_stake`.
    AboveMaximum,
    /// The user's staking within the current day would exceed `daily_user_limit`.
    DailyLimitExceeded,
    /// The user's lifetime staking would exceed `total_user_limit`.
    TotalLimitExceeded,
    /// No active stake record exists for the given user and content.
    NotFound,
    /// The supplied time lies before the record's `staked_at`.
    ClockSkew,
}

} // verus!
