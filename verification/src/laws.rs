//! System-wide laws of the ledger, stated and proved over the transition
//! specs that the executable operations are pinned to.
//!
//! The decay laws (monotonicity, the zero floor, the principal bound) live
//! beside the decay engine in `crate::decay`.

use vstd::prelude::*;

use crate::decay::effective_value_spec;
use crate::decay::lemma_effective_value_bounds;
use crate::errors::LedgerError;
use crate::ledger::LedgerView;
use crate::ledger::MAX_CONTENT_ID_LEN;
use crate::ledger::MAX_CONTENT_TYPE_LEN;
use crate::ledger::StakeView;
use crate::ledger::active_index;
use crate::ledger::daily_total_at;
use crate::ledger::has_active;
use crate::ledger::lemma_active_index_is;
use crate::ledger::lemma_stake_spec_preserves_wf;
use crate::ledger::query_spec;
use crate::ledger::rec_matches;
use crate::ledger::stake_spec;

verus! {

/// Sequential stakes on one key settle decay before adding: after a first
/// stake of `a1` at `t1` on a fresh key and a second stake of `a2` at
/// `t2 >= t1` on the same key, the aggregate has grown by the decayed value
/// of `a1` at `t2` plus `a2` — not by `a1 + a2` — and nothing is counted
/// twice.
pub proof fn lemma_sequential_stakes_settle(
    m0: LedgerView,
    m1: LedgerView,
    m2: LedgerView,
    user: u64,
    content_id: Seq<char>,
    content_type1: Seq<char>,
    content_type2: Seq<char>,
    a1: u64,
    a2: u64,
    t1: i64,
    t2: i64,
)
    requires
        m0.wf(),
        !has_active(m0.records, user, content_id),
        0 <= t1 <= t2,
        content_id.len() <= MAX_CONTENT_ID_LEN,
        content_type1.len() <= MAX_CONTENT_TYPE_LEN,
        m0.state.total_staked + a1 <= u64::MAX,
        m1.state.total_staked + a2 <= u64::MAX,
        stake_spec(m0, user, content_id, content_type1, a1, t1) == Ok::<
            LedgerView,
            LedgerError,
        >(m1),
        stake_spec(m1, user, content_id, content_type2, a2, t2) == Ok::<
            LedgerView,
            LedgerError,
        >(m2),
    ensures
        m2.state.total_staked as int == m0.state.total_staked + effective_value_spec(
            a1 as int,
            t1 as int,
            t2 as int,
            m0.state.decay_rate as int,
        ) + a2,
        effective_value_spec(a1 as int, t1 as int, t2 as int, m0.state.decay_rate as int) < a1
            ==> m2.state.total_staked < m0.state.total_staked + a1 + a2,
{
    let new1 = StakeView {
        user,
        content_id,
        content_type: content_type1,
        amount: a1,
        staked_at: t1,
        is_active: true,
    };
    assert(m1.records == m0.records.push(new1));
    assert(m1.state.total_staked == m0.state.total_staked + a1);
    lemma_stake_spec_preserves_wf(m0, m1, user, content_id, content_type1, a1, t1);
    let i0 = m0.records.len() as int;
    assert(m1.records[i0] == new1);
    assert(rec_matches(m1.records[i0], user, content_id));
    lemma_active_index_is(m1.records, user, content_id, i0);
    assert(active_index(m1.records, user, content_id) == i0);
    let settled = effective_value_spec(a1 as int, t1 as int, t2 as int, m1.state.decay_rate as int);
    lemma_effective_value_bounds(a1 as int, t1 as int, t2 as int, m1.state.decay_rate as int);
    assert(m2.state.total_staked == (m1.state.total_staked - a1 + settled + a2) as u64);
}

/// Reads are idempotent: the result of `query_spec` is a function of the
/// ledger view and of `now` alone, so two reads of the same state at the
/// same time — no mutation in between — return the same value. Together
/// with the exact contract of `query_effective_value`, which takes `&self`
/// and changes nothing, this carries over to the executable read.
pub proof fn lemma_query_idempotent(
    m1: LedgerView,
    m2: LedgerView,
    user: u64,
    content_id: Seq<char>,
    now: i64,
)
    requires
        m1 == m2,
    ensures
        query_spec(m1, user, content_id, now) == query_spec(m2, user, content_id, now),
{
}

/// With the emergency switch off, a stake below the policy minimum is
/// always rejected with `BelowMinimum`, whatever the key, the usage and the
/// time.
pub proof fn lemma_stake_below_minimum_rejected(
    m: LedgerView,
    user: u64,
    content_id: Seq<char>,
    content_type: Seq<char>,
    amount: u64,
    now: i64,
)
    requires
        !m.state.emergency_controls_active,
        amount < m.state.min_stake,
    ensures
        stake_spec(m, user, content_id, content_type, amount, now) == Err::<
            LedgerView,
            LedgerError,
        >(LedgerError::BelowMinimum),
{
}

/// A stake that would carry the user's daily total over the daily limit is
/// rejected with `DailyLimitExceeded`, whatever the state of the lifetime
/// limit.
pub proof fn lemma_stake_daily_limit_rejected(
    m: LedgerView,
    user: u64,
    content_id: Seq<char>,
    content_type: Seq<char>,
    amount: u64,
    now: i64,
)
    requires
        !m.state.emergency_controls_active,
        m.state.min_stake <= amount <= m.state.max_stake,
        daily_total_at(m.usage, user, now) + amount > m.state.daily_user_limit,
    ensures
        stake_spec(m, user, content_id, content_type, amount, now) == Err::<
            LedgerView,
            LedgerError,
        >(LedgerError::DailyLimitExceeded),
{
}

/// While the emergency switch is set, every stake fails with
/// `EmergencyHalt`, whatever its arguments; and since a failing stake
/// leaves the ledger untouched and only `set_emergency` writes the switch,
/// stakes keep failing until the authority clears it.
pub proof fn lemma_emergency_halts_stakes(
    m: LedgerView,
    user: u64,
    content_id: Seq<char>,
    content_type: Seq<char>,
    amount: u64,
    now: i64,
)
    requires
        m.state.emergency_controls_active,
    ensures
        stake_spec(m, user, content_id, content_type, amount, now) == Err::<
            LedgerView,
            LedgerError,
        >(LedgerError::EmergencyHalt),
{
}

/// A successful stake moves only the `total_staked` aggregate: the policy
/// configuration, the authority, the emergency switch and the reserved
/// rewards counter all stay as they were.
pub proof fn lemma_stake_preserves_policy(
    m: LedgerView,
    m2: LedgerView,
    user: u64,
    content_id: Seq<char>,
    content_type: Seq<char>,
    amount: u64,
    now: i64,
)
    requires
        stake_spec(m, user, content_id, content_type, amount, now) == Ok::<
            LedgerView,
            LedgerError,
        >(m2),
    ensures
        m2.state.authority == m.state.authority,
        m2.state.decay_rate == m.state.decay_rate,
        m2.state.min_stake == m.state.min_stake,
        m2.state.max_stake == m.state.max_stake,
        m2.state.daily_user_limit == m.state.daily_user_limit,
        m2.state.total_user_limit == m.state.total_user_limit,
        m2.state.total_rewards_paid == m.state.total_rewards_paid,
        m2.state.emergency_controls_active == m.state.emergency_controls_active,
{
}

} // verus!
