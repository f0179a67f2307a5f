//! A decaying-stake ledger.
//!
//! The library tracks per-user, per-content stake positions whose effective
//! value decays over time, under a global policy (stake bounds, per-user
//! limits, an emergency kill-switch) and with exact aggregate accounting:
//! the policy's `total_staked` counter always equals the sum of the settled
//! principals of the active records.

pub mod decay;
pub mod errors;
pub mod laws;
pub mod ledger;
pub mod limits;
pub mod policy;
