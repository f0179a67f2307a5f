//! Global policy: configuration, aggregate counters, and the authority-gated
//! operations that change them.

use vstd::prelude::*;

use crate::errors::LedgerError;

verus! {

/// The singleton policy record of a deployment.
///
/// `total_staked` is an aggregate over the ledger's active stake records and
/// is maintained by the ledger operations, never written directly by callers.
/// `total_rewards_paid` is a reserved accumulator for a future reward path;
/// nothing in this library increases it.
#[derive(Clone, Copy, Debug, PartialEq, Eq, Structural)]
pub struct ProgramState {
    /// The identity permitted to change the policy.
    pub authority: u64,
    /// Basis points of value lost per elapsed day.
    pub decay_rate: u64,
    /// Smallest admissible stake amount.
    pub min_stake: u64,
    /// Largest admissible stake amount.
    pub max_stake: u64,
    /// Cap on the amount a user may stake within one day.
    pub daily_user_limit: u64,
    /// Cap on the amount a user may stake over all time.
    pub total_user_limit: u64,
    /// Sum of the settled principals of all active stake records.
    pub total_staked: u64,
    /// Monotone accumulator of rewards paid out; reserved, never increased here.
    pub total_rewards_paid: u64,
    /// Kill-switch: while set, every new stake is rejected.
    pub emergency_controls_active: bool,
}

/// The configurable fields of the policy, as handed to `update_policy`.
#[derive(Clone, Copy, Debug, PartialEq, Eq, Structural)]
pub struct PolicyUpdate {
    pub decay_rate: u64,
    pub min_stake: u64,
    pub max_stake: u64,
    pub daily_user_limit: u64,
    pub total_user_limit: u64,
}

impl ProgramState {
    /// A policy is well formed when its stake bounds are ordered.
    pub open spec fn wf(self) -> bool {
        self.min_stake <= self.max_stake
    }

    /// Creates the policy record of a fresh deployment.
    ///
    /// Rejects bounds with `min_stake > max_stake`; otherwise stores the
    /// configuration as given, with both aggregate counters at zero and the
    /// emergency switch off.
    pub fn initialize(
        authority: u64,
        decay_rate: u64,
        min_stake: u64,
        max_stake: u64,
        daily_user_limit: u64,
        total_user_limit: u64,
    ) -> (r: Result<ProgramState, LedgerError>)
        ensures
            min_stake > max_stake <==> r == Err::<ProgramState, LedgerError>(
                LedgerError::InvalidPolicy,
            ),
            min_stake <= max_stake ==> r == Ok::<ProgramState, LedgerError>(
                ProgramState {
                    authority,
                    decay_rate,
                    min_stake,
                    max_stake,
                    daily_user_limit,
                    total_user_limit,
                    total_staked: 0,
                    total_rewards_paid: 0,
                    emergency_controls_active: false,
                },
            ),
            r matches Ok(p) ==> p.wf(),
    {
        if min_stake > max_stake {
            return Err(LedgerError::InvalidPolicy);
        }
        Ok(ProgramState {
            authority,
            decay_rate,
            min_stake,
            max_stake,
            daily_user_limit,
            total_user_limit,
            total_staked: 0,
            total_rewards_paid: 0,
            emergency_controls_active: false,
        })
    }

    /// Replaces the configurable fields of the policy.
    ///
    /// Only the authority may call; a proposal with `min_stake > max_stake`
    /// is rejected. The aggregates, the authority and the emergency switch
    /// are untouched. Stored records are not rewritten: decay is evaluated
    /// lazily on read, so a read after the update applies the new rate to
    /// the record's whole elapsed time, until a write settles it.
    pub fn update_policy(&mut self, caller: u64, changes: PolicyUpdate) -> (r: Result<
        (),
        LedgerError,
    >)
        ensures
            caller != old(self).authority ==> r == Err::<(), LedgerError>(
                LedgerError::Unauthorized,
            ) && *final(self) == *old(self),
            caller == old(self).authority && changes.min_stake > changes.max_stake ==> r == Err::<
                (),
                LedgerError,
            >(LedgerError::InvalidPolicy) && *final(self) == *old(self),
            caller == old(self).authority && changes.min_stake <= changes.max_stake ==> r == Ok::<
                (),
                LedgerError,
            >(()) && *final(self) == (ProgramState {
                decay_rate: changes.decay_rate,
                min_stake: changes.min_stake,
                max_stake: changes.max_stake,
                daily_user_limit: changes.daily_user_limit,
                total_user_limit: changes.total_user_limit,
                ..*old(self)
            }),
            r matches Ok(u) ==> final(self).wf(),
    {
        if caller != self.authority {
            return Err(LedgerError::Unauthorized);
        }
        if changes.min_stake > changes.max_stake {
            return Err(LedgerError::InvalidPolicy);
        }
        self.decay_rate = changes.decay_rate;
        self.min_stake = changes.min_stake;
        self.max_stake = changes.max_stake;
        self.daily_user_limit = changes.daily_user_limit;
        self.total_user_limit = changes.total_user_limit;
        Ok(())
    }

    /// Sets or clears the emergency kill-switch.
    ///
    /// Only the authority may call. The new value is visible to every later
    /// validation: while set, stakes fail with `EmergencyHalt`.
    pub fn set_emergency(&mut self, caller: u64, active: bool) -> (r: Result<(), LedgerError>)
        ensures
            caller != old(self).authority ==> r == Err::<(), LedgerError>(
                LedgerError::Unauthorized,
            ) && *final(self) == *old(self),
            caller == old(self).authority ==> r == Ok::<(), LedgerError>(()) && *final(self) == (
            ProgramState { emergency_controls_active: active, ..*old(self) }),
    {
        if caller != self.authority {
            return Err(LedgerError::Unauthorized);
        }
        self.emergency_controls_active = active;
        Ok(())
    }
}

} // verus!
