//! The stake ledger: the set of stake records, the per-user usage counters
//! that feed the limit checks, and the mutations that keep the policy's
//! aggregate exactly consistent.
//!
//! Settlement rule: whenever a record is written again (a further stake on
//! the same key, or an unstake), the decay accrued so far is first folded
//! into the stored principal, and `staked_at` is reset to the write time.
//! `total_staked` is therefore always the sum of the settled principals of
//! the active records.

use vstd::prelude::*;

use crate::decay::SECONDS_PER_DAY;
use crate::decay::effective_value;
use crate::decay::effective_value_spec;
use crate::decay::lemma_effective_value_bounds;
use crate::errors::LedgerError;
use crate::limits::validate_stake;
use crate::limits::validate_stake_spec;
use crate::policy::ProgramState;

verus! {

/// Longest admissible `content_id`, in characters.
pub const MAX_CONTENT_ID_LEN: usize = 200;

/// Longest admissible `content_type`, in characters.
pub const MAX_CONTENT_TYPE_LEN: usize = 50;

/// One stake position of one user on one piece of content.
#[derive(Clone, Debug)]
pub struct StakeAccount {
    /// The owner of the position; immutable after creation.
    pub user: u64,
    /// Identifier of the staked-on content; part of the record's key.
    pub content_id: String,
    /// Opaque classification of the content; overwritten on each stake.
    pub content_type: String,
    /// Settled principal: decay accrued before the last write is folded in.
    pub amount: u64,
    /// Time of creation or of the last settlement.
    pub staked_at: i64,
    /// Whether the position is open; a full unstake clears it for good.
    pub is_active: bool,
}

/// The mathematical image of a stake record.
pub ghost struct StakeView {
    pub user: u64,
    pub content_id: Seq<char>,
    pub content_type: Seq<char>,
    pub amount: u64,
    pub staked_at: i64,
    pub is_active: bool,
}

impl View for StakeAccount {
    type V = StakeView;

    open spec fn view(&self) -> StakeView {
        StakeView {
            user: self.user,
            content_id: self.content_id@,
            content_type: self.content_type@,
            amount: self.amount,
            staked_at: self.staked_at,
            is_active: self.is_active,
        }
    }
}

/// Per-user staking usage, feeding the daily and lifetime limit checks.
///
/// The daily window is anchored at `day_start`: a stake more than a day
/// after it opens a fresh window at the stake's own time.
#[derive(Clone, Copy, Debug, PartialEq, Eq, Structural)]
pub struct UserUsage {
    pub user: u64,
    /// Start of the day window the `daily_total` counts.
    pub day_start: i64,
    /// Amount staked within the current day window.
    pub daily_total: u64,
    /// Amount staked over all time.
    pub lifetime_total: u64,
}

/// The ledger: the policy record, the stake records, and the usage counters.
pub struct StakeLedger {
    pub state: ProgramState,
    pub records: Vec<StakeAccount>,
    pub usage: Vec<UserUsage>,
}

/// The mathematical image of the whole ledger.
pub ghost struct LedgerView {
    pub state: ProgramState,
    pub records: Seq<StakeView>,
    pub usage: Seq<UserUsage>,
}

impl View for StakeLedger {
    type V = LedgerView;

    open spec fn view(&self) -> LedgerView {
        LedgerView {
            state: self.state,
            records: self.records@.map_values(|r: StakeAccount| r@),
            usage: self.usage@,
        }
    }
}

/// Whether `r` is the open position of `user` on `content_id`.
pub open spec fn rec_matches(r: StakeView, user: u64, content_id: Seq<char>) -> bool {
    r.is_active && r.user == user && r.content_id == content_id
}

/// Whether an open position of `user` on `content_id` exists.
pub open spec fn has_active(rs: Seq<StakeView>, user: u64, content_id: Seq<char>) -> bool {
    exists|i: int| 0 <= i < rs.len() && #[trigger] rec_matches(rs[i], user, content_id)
}

/// The index of the open position of `user` on `content_id`; meaningful
/// only under `has_active`, and unique under `LedgerView::wf`.
pub open spec fn active_index(rs: Seq<StakeView>, user: u64, content_id: Seq<char>) -> int {
    choose|i: int| 0 <= i < rs.len() && #[trigger] rec_matches(rs[i], user, content_id)
}

/// What a record adds to the aggregate: its principal while it is active.
pub open spec fn contribution(r: StakeView) -> int {
    if r.is_active {
        r.amount as int
    } else {
        0
    }
}

/// Sum of the active records' settled principals.
pub open spec fn active_total(rs: Seq<StakeView>) -> int
    decreases rs.len(),
{
    if rs.len() == 0 {
        0
    } else {
        active_total(rs.drop_last()) + contribution(rs.last())
    }
}

/// Whether two records would collide as open positions on the same key.
pub open spec fn same_active_key(a: StakeView, b: StakeView) -> bool {
    a.is_active && b.is_active && a.user == b.user && a.content_id == b.content_id
}

/// Per-record well-formedness: a non-negative timestamp and bounded labels.
pub open spec fn record_ok(r: StakeView) -> bool {
    &&& 0 <= r.staked_at
    &&& r.content_id.len() <= MAX_CONTENT_ID_LEN
    &&& r.content_type.len() <= MAX_CONTENT_TYPE_LEN
}

/// Whether a usage entry for `user` exists.
pub open spec fn has_usage(us: Seq<UserUsage>, user: u64) -> bool {
    exists|i: int| 0 <= i < us.len() && #[trigger] us[i].user == user
}

/// The index of the usage entry of `user`; unique under `LedgerView::wf`.
pub open spec fn usage_index(us: Seq<UserUsage>, user: u64) -> int {
    choose|i: int| 0 <= i < us.len() && #[trigger] us[i].user == user
}

/// The amount `user` has staked within the day window open at `now`;
/// zero when the recorded window has expired or no entry exists.
pub open spec fn daily_total_at(us: Seq<UserUsage>, user: u64, now: i64) -> u64 {
    if has_usage(us, user) {
        let u = us[usage_index(us, user)];
        if now - u.day_start < SECONDS_PER_DAY as int {
            u.daily_total
        } else {
            0
        }
    } else {
        0
    }
}

/// The amount `user` has staked over all time.
pub open spec fn lifetime_total_of(us: Seq<UserUsage>, user: u64) -> u64 {
    if has_usage(us, user) {
        us[usage_index(us, user)].lifetime_total
    } else {
        0
    }
}

/// At most one open position per (user, content) key.
pub open spec fn unique_active_keys(rs: Seq<StakeView>) -> bool {
    forall|i: int, j: int|
        #![trigger rs[i], rs[j]]
        0 <= i < j < rs.len() ==> !same_active_key(rs[i], rs[j])
}

/// At most one usage entry per user.
pub open spec fn unique_users(us: Seq<UserUsage>) -> bool {
    forall|i: int, j: int| #![trigger us[i], us[j]] 0 <= i < j < us.len() ==> us[i].user != us[j].user
}

/// Every usage entry carries a non-negative window start.
pub open spec fn usage_ok(us: Seq<UserUsage>) -> bool {
    forall|i: int| 0 <= i < us.len() ==> 0 <= (#[trigger] us[i]).day_start
}

impl LedgerView {
    /// The ledger invariant: an ordered policy, the aggregate exactly equal
    /// to the sum of the active settled principals, unique keys, and
    /// well-formed records and usage entries.
    pub open spec fn wf(self) -> bool {
        &&& self.state.wf()
        &&& self.state.total_staked as int == active_total(self.records)
        &&& unique_active_keys(self.records)
        &&& forall|i: int| 0 <= i < self.records.len() ==> record_ok(#[trigger] self.records[i])
        &&& unique_users(self.usage)
        &&& usage_ok(self.usage)
    }
}

impl StakeLedger {
    /// The invariant, stated of the concrete ledger through its view.
    pub open spec fn wf(self) -> bool {
        self@.wf()
    }
}

/// Appending a record adds exactly its contribution to the aggregate sum.
pub proof fn lemma_active_total_push(rs: Seq<StakeView>, r: StakeView)
    ensures
        active_total(rs.push(r)) == active_total(rs) + contribution(r),
{
    assert(rs.push(r).drop_last() =~= rs);
    assert(rs.push(r).last() == r);
}

/// Replacing the record at `i` shifts the aggregate sum by the difference
/// of the contributions.
pub proof fn lemma_active_total_update(rs: Seq<StakeView>, i: int, r: StakeView)
    requires
        0 <= i < rs.len(),
    ensures
        active_total(rs.update(i, r)) == active_total(rs) - contribution(rs[i]) + contribution(r),
    decreases rs.len(),
{
    if i == rs.len() - 1 {
        assert(rs.update(i, r).drop_last() =~= rs.drop_last());
        assert(rs.update(i, r).last() == r);
    } else {
        lemma_active_total_update(rs.drop_last(), i, r);
        assert(rs.update(i, r).drop_last() =~= rs.drop_last().update(i, r));
        assert(rs.update(i, r).last() == rs.last());
        assert(rs.drop_last()[i] == rs[i]);
    }
}

/// The aggregate sum dominates each single contribution, and is never
/// negative.
pub proof fn lemma_active_total_bounds(rs: Seq<StakeView>, i: int)
    requires
        0 <= i < rs.len(),
    ensures
        0 <= active_total(rs),
        contribution(rs[i]) <= active_total(rs),
    decreases rs.len(),
{
    lemma_active_total_nonneg(rs.drop_last());
    if i == rs.len() - 1 {
        assert(rs.last() == rs[i]);
    } else {
        lemma_active_total_bounds(rs.drop_last(), i);
        assert(rs.drop_last()[i] == rs[i]);
    }
}

/// The aggregate sum is never negative.
pub proof fn lemma_active_total_nonneg(rs: Seq<StakeView>)
    ensures
        0 <= active_total(rs),
    decreases rs.len(),
{
    if rs.len() > 0 {
        lemma_active_total_nonneg(rs.drop_last());
    }
}

/// Under unique keys, any index holding an open position of the key is the
/// `active_index` of that key.
pub proof fn lemma_active_index_is(rs: Seq<StakeView>, user: u64, content_id: Seq<char>, i: int)
    requires
        unique_active_keys(rs),
        0 <= i < rs.len(),
        rec_matches(rs[i], user, content_id),
    ensures
        has_active(rs, user, content_id),
        active_index(rs, user, content_id) == i,
{
    assert(has_active(rs, user, content_id));
    let j = active_index(rs, user, content_id);
    assert(0 <= j < rs.len() && rec_matches(rs[j], user, content_id));
    if i < j {
        assert(!same_active_key(rs[i], rs[j]));
    } else if j < i {
        assert(!same_active_key(rs[j], rs[i]));
    }
}

/// Under unique users, any index holding the usage entry of a user is the
/// `usage_index` of that user.
pub proof fn lemma_usage_index_is(us: Seq<UserUsage>, user: u64, i: int)
    requires
        unique_users(us),
        0 <= i < us.len(),
        us[i].user == user,
    ensures
        has_usage(us, user),
        usage_index(us, user) == i,
{
    assert(has_usage(us, user));
    let j = usage_index(us, user);
    assert(0 <= j < us.len() && us[j].user == user);
    if i < j {
        assert(us[i].user != us[j].user);
    } else if j < i {
        assert(us[j].user != us[i].user);
    }
}

/// The usage sequence after a successful stake of `amount` by `user` at
/// `now`: the user's window and totals are advanced, or a first entry is
/// appended.
pub open spec fn usage_after_stake(us: Seq<UserUsage>, user: u64, amount: u64, now: i64) -> Seq<
    UserUsage,
> {
    if has_usage(us, user) {
        let i = usage_index(us, user);
        let u = us[i];
        if now - u.day_start < SECONDS_PER_DAY as int {
            us.update(
                i,
                UserUsage {
                    daily_total: (u.daily_total + amount) as u64,
                    lifetime_total: (u.lifetime_total + amount) as u64,
                    ..u
                },
            )
        } else {
            us.update(
                i,
                UserUsage {
                    day_start: now,
                    daily_total: amount,
                    lifetime_total: (u.lifetime_total + amount) as u64,
                    ..u
                },
            )
        }
    } else {
        us.push(UserUsage { user, day_start: now, daily_total: amount, lifetime_total: amount })
    }
}

/// Advancing a user's usage preserves the usage part of the invariant.
pub proof fn lemma_usage_after_stake_wf(us: Seq<UserUsage>, user: u64, amount: u64, now: i64)
    requires
        unique_users(us),
        usage_ok(us),
        0 <= now,
    ensures
        unique_users(usage_after_stake(us, user, amount, now)),
        usage_ok(usage_after_stake(us, user, amount, now)),
{
    let us2 = usage_after_stake(us, user, amount, now);
    if has_usage(us, user) {
        let i = usage_index(us, user);
        assert(0 <= i < us.len() && us[i].user == user);
        assert(us2[i].user == us[i].user);
        assert forall|p: int, q: int|
            #![trigger us2[p], us2[q]]
            0 <= p < q < us2.len() implies us2[p].user != us2[q].user by {
            assert(us[p].user != us[q].user);
        }
        assert forall|p: int| 0 <= p < us2.len() implies 0 <= (#[trigger] us2[p]).day_start by {
            assert(0 <= us[p].day_start);
        }
    } else {
        assert forall|p: int, q: int|
            #![trigger us2[p], us2[q]]
            0 <= p < q < us2.len() implies us2[p].user != us2[q].user by {
            if q == us.len() {
                assert(us[p].user != user);
            } else {
                assert(us[p].user != us[q].user);
            }
        }
        assert forall|p: int| 0 <= p < us2.len() implies 0 <= (#[trigger] us2[p]).day_start by {
            if p < us.len() {
                assert(0 <= us[p].day_start);
            }
        }
    }
}

/// The outcome of a stake by `user` on `content_id`: the view of the ledger
/// after a successful stake, or the error of the first failing check.
///
/// A stake is validated against the policy and the user's usage snapshot
/// first, in the limit enforcer's tie-break order. On an existing open
/// position the accrued decay is settled into the principal before the new
/// amount is added and `staked_at` is reset (the settle-then-add rule);
/// `ClockSkew` is reported when `now` lies before the record's `staked_at`.
/// Otherwise a fresh record is appended. Either way the aggregate moves by
/// exactly the difference of the affected record's contribution, and the
/// user's usage counters advance by `amount`.
pub open spec fn stake_spec(
    m: LedgerView,
    user: u64,
    content_id: Seq<char>,
    content_type: Seq<char>,
    amount: u64,
    now: i64,
) -> Result<LedgerView, LedgerError> {
    let daily = daily_total_at(m.usage, user, now);
    let life = lifetime_total_of(m.usage, user);
    match validate_stake_spec(m.state, daily, life, amount) {
        Err(e) => Err(e),
        Ok(unit) => {
            if has_active(m.records, user, content_id) {
                let i = active_index(m.records, user, content_id);
                let old_rec = m.records[i];
                if now < old_rec.staked_at {
                    Err(LedgerError::ClockSkew)
                } else {
                    let settled = effective_value_spec(
                        old_rec.amount as int,
                        old_rec.staked_at as int,
                        now as int,
                        m.state.decay_rate as int,
                    );
                    Ok(
                        LedgerView {
                            state: ProgramState {
                                total_staked: (m.state.total_staked - old_rec.amount + settled
                                    + amount) as u64,
                                ..m.state
                            },
                            records: m.records.update(
                                i,
                                StakeView {
                                    content_type,
                                    amount: (settled + amount) as u64,
                                    staked_at: now,
                                    ..old_rec
                                },
                            ),
                            usage: usage_after_stake(m.usage, user, amount, now),
                        },
                    )
                }
            } else {
                Ok(
                    LedgerView {
                        state: ProgramState {
                            total_staked: (m.state.total_staked + amount) as u64,
                            ..m.state
                        },
                        records: m.records.push(
                            StakeView {
                                user,
                                content_id,
                                content_type,
                                amount,
                                staked_at: now,
                                is_active: true,
                            },
                        ),
                        usage: usage_after_stake(m.usage, user, amount, now),
                    },
                )
            }
        },
    }
}

/// The outcome of an unstake: the closed ledger view and the released
/// settled value, or the error.
///
/// The open position is settled at `now` (its stored principal becomes the
/// effective value, which is what the caller receives), marked inactive, and
/// the aggregate drops by the principal the record contributed. Usage
/// counters are untouched: the limits cap staking, not withdrawal.
pub open spec fn unstake_spec(m: LedgerView, user: u64, content_id: Seq<char>, now: i64) -> Result<
    (LedgerView, u64),
    LedgerError,
> {
    if !has_active(m.records, user, content_id) {
        Err(LedgerError::NotFound)
    } else {
        let i = active_index(m.records, user, content_id);
        let old_rec = m.records[i];
        if now < old_rec.staked_at {
            Err(LedgerError::ClockSkew)
        } else {
            let released = effective_value_spec(
                old_rec.amount as int,
                old_rec.staked_at as int,
                now as int,
                m.state.decay_rate as int,
            );
            Ok(
                (
                    LedgerView {
                        state: ProgramState {
                            total_staked: (m.state.total_staked - old_rec.amount) as u64,
                            ..m.state
                        },
                        records: m.records.update(
                            i,
                            StakeView {
                                amount: released as u64,
                                staked_at: now,
                                is_active: false,
                                ..old_rec
                            },
                        ),
                        usage: m.usage,
                    },
                    released as u64,
                ),
            )
        }
    }
}

/// The outcome of a read: the current effective value of the open position
/// of `user` on `content_id`, decayed to `now`; an error when no open
/// position exists or `now` lies in the record's past. A read depends on
/// the ledger view and `now` alone and changes nothing.
pub open spec fn query_spec(m: LedgerView, user: u64, content_id: Seq<char>, now: i64) -> Result<
    u64,
    LedgerError,
> {
    if !has_active(m.records, user, content_id) {
        Err(LedgerError::NotFound)
    } else {
        let r = m.records[active_index(m.records, user, content_id)];
        if now < r.staked_at {
            Err(LedgerError::ClockSkew)
        } else {
            Ok(
                effective_value_spec(
                    r.amount as int,
                    r.staked_at as int,
                    now as int,
                    m.state.decay_rate as int,
                ) as u64,
            )
        }
    }
}

/// A successful stake preserves the ledger invariant.
pub proof fn lemma_stake_spec_preserves_wf(
    m: LedgerView,
    m2: LedgerView,
    user: u64,
    content_id: Seq<char>,
    content_type: Seq<char>,
    amount: u64,
    now: i64,
)
    requires
        m.wf(),
        0 <= now,
        content_id.len() <= MAX_CONTENT_ID_LEN,
        content_type.len() <= MAX_CONTENT_TYPE_LEN,
        m.state.total_staked + amount <= u64::MAX,
        stake_spec(m, user, content_id, content_type, amount, now) == Ok::<
            LedgerView,
            LedgerError,
        >(m2),
    ensures
        m2.wf(),
{
    lemma_usage_after_stake_wf(m.usage, user, amount, now);
    if has_active(m.records, user, content_id) {
        let i = active_index(m.records, user, content_id);
        assert(0 <= i < m.records.len() && rec_matches(m.records[i], user, content_id));
        let old_rec = m.records[i];
        assert(record_ok(old_rec));
        assert(old_rec.staked_at <= now);
        let settled = effective_value_spec(
            old_rec.amount as int,
            old_rec.staked_at as int,
            now as int,
            m.state.decay_rate as int,
        );
        lemma_effective_value_bounds(
            old_rec.amount as int,
            old_rec.staked_at as int,
            now as int,
            m.state.decay_rate as int,
        );
        lemma_active_total_bounds(m.records, i);
        let new_rec = StakeView {
            content_type,
            amount: (settled + amount) as u64,
            staked_at: now,
            ..old_rec
        };
        assert(m2.records == m.records.update(i, new_rec));
        lemma_active_total_update(m.records, i, new_rec);
        assert(m2.state.total_staked as int == active_total(m2.records));
        assert forall|p: int, q: int|
            #![trigger m2.records[p], m2.records[q]]
            0 <= p < q < m2.records.len() implies !same_active_key(
            m2.records[p],
            m2.records[q],
        ) by {
            assert(!same_active_key(m.records[p], m.records[q]));
        }
        assert forall|k: int| 0 <= k < m2.records.len() implies record_ok(
            #[trigger] m2.records[k],
        ) by {
            assert(record_ok(m.records[k]));
        }
    } else {
        let new_rec = StakeView {
            user,
            content_id,
            content_type,
            amount,
            staked_at: now,
            is_active: true,
        };
        assert(m2.records == m.records.push(new_rec));
        lemma_active_total_push(m.records, new_rec);
        assert(m2.state.total_staked as int == active_total(m2.records));
        assert forall|p: int, q: int|
            #![trigger m2.records[p], m2.records[q]]
            0 <= p < q < m2.records.len() implies !same_active_key(
            m2.records[p],
            m2.records[q],
        ) by {
            if q == m.records.len() {
                if same_active_key(m.records[p], new_rec) {
                    assert(rec_matches(m.records[p], user, content_id));
                    assert(has_active(m.records, user, content_id));
                }
            } else {
                assert(!same_active_key(m.records[p], m.records[q]));
            }
        }
        assert forall|k: int| 0 <= k < m2.records.len() implies record_ok(
            #[trigger] m2.records[k],
        ) by {
            if k < m.records.len() {
                assert(record_ok(m.records[k]));
            }
        }
    }
}

/// A successful unstake preserves the ledger invariant.
pub proof fn lemma_unstake_spec_preserves_wf(
    m: LedgerView,
    m2: LedgerView,
    released: u64,
    user: u64,
    content_id: Seq<char>,
    now: i64,
)
    requires
        m.wf(),
        unstake_spec(m, user, content_id, now) == Ok::<(LedgerView, u64), LedgerError>(
            (m2, released),
        ),
    ensures
        m2.wf(),
        released <= m.records[active_index(m.records, user, content_id)].amount,
{
    let i = active_index(m.records, user, content_id);
    assert(0 <= i < m.records.len() && rec_matches(m.records[i], user, content_id));
    let old_rec = m.records[i];
    assert(record_ok(old_rec));
    assert(old_rec.staked_at <= now);
    lemma_effective_value_bounds(
        old_rec.amount as int,
        old_rec.staked_at as int,
        now as int,
        m.state.decay_rate as int,
    );
    lemma_active_total_bounds(m.records, i);
    let new_rec = StakeView {
        amount: released,
        staked_at: now,
        is_active: false,
        ..old_rec
    };
    assert(m2.records == m.records.update(i, new_rec));
    lemma_active_total_update(m.records, i, new_rec);
    assert(m2.state.total_staked as int == active_total(m2.records));
    assert forall|p: int, q: int|
        #![trigger m2.records[p], m2.records[q]]
        0 <= p < q < m2.records.len() implies !same_active_key(m2.records[p], m2.records[q]) by {
        assert(!same_active_key(m.records[p], m.records[q]));
    }
    assert forall|k: int| 0 <= k < m2.records.len() implies record_ok(#[trigger] m2.records[k]) by {
        assert(record_ok(m.records[k]));
    }
}

impl StakeLedger {
    /// An empty ledger under the given policy.
    pub fn new(state: ProgramState) -> (r: StakeLedger)
        requires
            state.wf(),
            state.total_staked == 0,
        ensures
            r.wf(),
            r@.state == state,
            r@.records.len() == 0,
            r@.usage.len() == 0,
    {
        let l = StakeLedger { state, records: Vec::new(), usage: Vec::new() };
        proof {
            assert(l@.records =~= Seq::<StakeView>::empty());
        }
        l
    }

    /// Finds the usage entry of `user`, if any; the returned index is the
    /// unique `usage_index` of that user.
    fn find_usage(&self, user: u64) -> (r: Option<usize>)
        requires
            self.wf(),
        ensures
            match r {
                Some(i) => has_usage(self@.usage, user) && i < self@.usage.len() && i as int
                    == usage_index(self@.usage, user) && self@.usage[i as int].user == user,
                None => !has_usage(self@.usage, user),
            },
    {
        let n = self.usage.len();
        let mut idx: usize = 0;
        while idx < n
            invariant
                n == self.usage.len(),
                idx <= n,
                self.wf(),
                forall|k: int| 0 <= k < idx ==> (#[trigger] self@.usage[k]).user != user,
            decreases n - idx,
        {
            if self.usage[idx].user == user {
                proof {
                    lemma_usage_index_is(self@.usage, user, idx as int);
                }
                return Some(idx);
            }
            idx = idx + 1;
        }
        None
    }

    /// Finds the open position of `user` on `content_id`, if any; the
    /// returned index is the unique `active_index` of that key.
    fn find_active(&self, user: u64, content_id: &String) -> (r: Option<usize>)
        requires
            self.wf(),
        ensures
            match r {
                Some(i) => has_active(self@.records, user, content_id@) && i
                    < self@.records.len() && i as int == active_index(
                    self@.records,
                    user,
                    content_id@,
                ) && rec_matches(self@.records[i as int], user, content_id@),
                None => !has_active(self@.records, user, content_id@),
            },
    {
        let n = self.records.len();
        let mut idx: usize = 0;
        while idx < n
            invariant
                n == self.records.len(),
                idx <= n,
                self.wf(),
                forall|k: int| 0 <= k < idx ==> !rec_matches(
                    #[trigger] self@.records[k],
                    user,
                    content_id@,
                ),
            decreases n - idx,
        {
            if self.records[idx].is_active && self.records[idx].user == user
                && self.records[idx].content_id == *content_id {
                proof {
                    lemma_active_index_is(self@.records, user, content_id@, idx as int);
                }
                return Some(idx);
            }
            idx = idx + 1;
        }
        None
    }

    /// Opens or tops up the stake of `user` on `content_id`.
    ///
    /// The stake is validated against the policy and the user's usage in
    /// tie-break order; on an existing position the accrued decay is first
    /// settled into the principal (never simply overwritten), then `amount`
    /// is added and the record's clock restarts at `now`. The result is the
    /// index of the affected record. The outcome, state change included, is
    /// exactly `stake_spec`; a rejected call leaves the ledger untouched.
    pub fn stake_tokens(
        &mut self,
        user: u64,
        content_id: String,
        content_type: String,
        amount: u64,
        now: i64,
    ) -> (r: Result<usize, LedgerError>)
        requires
            old(self).wf(),
            0 <= now,
            content_id@.len() <= MAX_CONTENT_ID_LEN,
            content_type@.len() <= MAX_CONTENT_TYPE_LEN,
            old(self).state.total_staked + amount <= u64::MAX,
        ensures
            final(self).wf(),
            match r {
                Ok(idx) => stake_spec(old(self)@, user, content_id@, content_type@, amount, now)
                    == Ok::<LedgerView, LedgerError>(final(self)@) && idx
                    < final(self)@.records.len() && rec_matches(
                    final(self)@.records[idx as int],
                    user,
                    content_id@,
                ),
                Err(e) => final(self)@ == old(self)@ && stake_spec(
                    old(self)@,
                    user,
                    content_id@,
                    content_type@,
                    amount,
                    now,
                ) == Err::<LedgerView, LedgerError>(e),
            },
    {
        let ghost m0 = self@;
        let usage_idx = self.find_usage(user);
        let mut daily: u64 = 0;
        let mut life: u64 = 0;
        match usage_idx {
            Some(ui) => {
                let ds = self.usage[ui].day_start;
                if now - ds < SECONDS_PER_DAY as i64 {
                    daily = self.usage[ui].daily_total;
                }
                life = self.usage[ui].lifetime_total;
            },
            None => {},
        }
        assert(daily == daily_total_at(m0.usage, user, now));
        assert(life == lifetime_total_of(m0.usage, user));
        match validate_stake(&self.state, daily, life, amount) {
            Err(e) => {
                return Err(e);
            },
            Ok(unit) => {},
        }
        let found = self.find_active(user, &content_id);
        let result_idx: usize;
        match found {
            Some(i) => {
                let old_amount = self.records[i].amount;
                let old_staked_at = self.records[i].staked_at;
                let rate = self.state.decay_rate;
                proof {
                    assert(record_ok(m0.records[i as int]));
                }
                let settled = match effective_value(old_amount, old_staked_at, now, rate) {
                    Err(e) => {
                        return Err(e);
                    },
                    Ok(v) => v,
                };
                proof {
                    lemma_effective_value_bounds(
                        old_amount as int,
                        old_staked_at as int,
                        now as int,
                        rate as int,
                    );
                    lemma_active_total_bounds(m0.records, i as int);
                }
                let new_amount = settled + amount;
                let new_total = self.state.total_staked - old_amount + new_amount;
                self.records[i].content_type = content_type;
                self.records[i].amount = new_amount;
                self.records[i].staked_at = now;
                self.state.total_staked = new_total;
                proof {
                    let spec_rec = StakeView {
                        content_type: content_type@,
                        amount: new_amount,
                        staked_at: now,
                        ..m0.records[i as int]
                    };
                    assert(self@.records =~= m0.records.update(i as int, spec_rec));
                }
                result_idx = i;
            },
            None => {
                let idx = self.records.len();
                let ghost new_view = StakeView {
                    user,
                    content_id: content_id@,
                    content_type: content_type@,
                    amount,
                    staked_at: now,
                    is_active: true,
                };
                self.records.push(
                    StakeAccount { user, content_id, content_type, amount, staked_at: now, is_active: true },
                );
                let t = self.state.total_staked;
                self.state.total_staked = t + amount;
                proof {
                    assert(self@.records =~= m0.records.push(new_view));
                }
                result_idx = idx;
            },
        }
        match usage_idx {
            Some(ui) => {
                let ds = self.usage[ui].day_start;
                if now - ds < SECONDS_PER_DAY as i64 {
                    let dt = self.usage[ui].daily_total;
                    self.usage[ui].daily_total = dt + amount;
                } else {
                    self.usage[ui].day_start = now;
                    self.usage[ui].daily_total = amount;
                }
                let lt = self.usage[ui].lifetime_total;
                self.usage[ui].lifetime_total = lt + amount;
            },
            None => {
                self.usage.push(
                    UserUsage { user, day_start: now, daily_total: amount, lifetime_total: amount },
                );
            },
        }
        proof {
            assert(self@.usage =~= usage_after_stake(m0.usage, user, amount, now));
            assert(stake_spec(m0, user, content_id@, content_type@, amount, now) == Ok::<
                LedgerView,
                LedgerError,
            >(self@));
            lemma_stake_spec_preserves_wf(
                m0,
                self@,
                user,
                content_id@,
                content_type@,
                amount,
                now,
            );
        }
        Ok(result_idx)
    }

    /// Closes the stake of `user` on `content_id` and returns the released
    /// settled value.
    ///
    /// The position is settled at `now` (decay folded into the principal),
    /// marked inactive, and the aggregate drops by the principal the record
    /// held. The outcome is exactly `unstake_spec`; a rejected call leaves
    /// the ledger untouched.
    pub fn unstake(&mut self, user: u64, content_id: &String, now: i64) -> (r: Result<
        u64,
        LedgerError,
    >)
        requires
            old(self).wf(),
        ensures
            final(self).wf(),
            match r {
                Ok(v) => unstake_spec(old(self)@, user, content_id@, now) == Ok::<
                    (LedgerView, u64),
                    LedgerError,
                >((final(self)@, v)),
                Err(e) => final(self)@ == old(self)@ && unstake_spec(
                    old(self)@,
                    user,
                    content_id@,
                    now,
                ) == Err::<(LedgerView, u64), LedgerError>(e),
            },
    {
        let ghost m0 = self@;
        let found = self.find_active(user, content_id);
        match found {
            None => Err(LedgerError::NotFound),
            Some(i) => {
                let old_amount = self.records[i].amount;
                let old_staked_at = self.records[i].staked_at;
                let rate = self.state.decay_rate;
                proof {
                    assert(record_ok(m0.records[i as int]));
                }
                let released = match effective_value(old_amount, old_staked_at, now, rate) {
                    Err(e) => {
                        return Err(e);
                    },
                    Ok(v) => v,
                };
                proof {
                    lemma_effective_value_bounds(
                        old_amount as int,
                        old_staked_at as int,
                        now as int,
                        rate as int,
                    );
                    lemma_active_total_bounds(m0.records, i as int);
                }
                let new_total = self.state.total_staked - old_amount;
                self.records[i].amount = released;
                self.records[i].staked_at = now;
                self.records[i].is_active = false;
                self.state.total_staked = new_total;
                proof {
                    let spec_rec = StakeView {
                        amount: released,
                        staked_at: now,
                        is_active: false,
                        ..m0.records[i as int]
                    };
                    assert(self@.records =~= m0.records.update(i as int, spec_rec));
                    assert(unstake_spec(m0, user, content_id@, now) == Ok::<
                        (LedgerView, u64),
                        LedgerError,
                    >((self@, released)));
                    lemma_unstake_spec_preserves_wf(m0, self@, released, user, content_id@, now);
                }
                Ok(released)
            },
        }
    }

    /// Reads the current effective value of the stake of `user` on
    /// `content_id`, decayed to `now`.
    ///
    /// A pure read: nothing is mutated, and the result is exactly
    /// `query_spec` of the ledger's state — two reads of the same state at
    /// the same `now` return the same value.
    pub fn query_effective_value(&self, user: u64, content_id: &String, now: i64) -> (r: Result<
        u64,
        LedgerError,
    >)
        requires
            self.wf(),
        ensures
            r == query_spec(self@, user, content_id@, now),
    {
        match self.find_active(user, content_id) {
            None => Err(LedgerError::NotFound),
            Some(i) => {
                proof {
                    assert(record_ok(self@.records[i as int]));
                }
                match effective_value(
                    self.records[i].amount,
                    self.records[i].staked_at,
                    now,
                    self.state.decay_rate,
                ) {
                    Err(e) => Err(e),
                    Ok(v) => Ok(v),
                }
            },
        }
    }
}

/// A deployment scope: it holds at most one ledger, and its policy can be
/// created exactly once.
pub struct Deployment {
    pub ledger: Option<StakeLedger>,
}

impl Deployment {
    /// The deployment invariant: whatever ledger exists is well formed.
    pub open spec fn wf(self) -> bool {
        match self.ledger {
            Some(l) => l.wf(),
            None => true,
        }
    }

    /// A fresh, uninitialized deployment.
    pub fn new() -> (r: Deployment)
        ensures
            r.ledger is None,
            r.wf(),
    {
        Deployment { ledger: None }
    }

    /// Creates the deployment's policy and its empty ledger.
    ///
    /// Fails with `AlreadyInitialized` on any call after the first, and
    /// with `InvalidPolicy` when `min_stake > max_stake`; otherwise the
    /// ledger starts with the given configuration, both aggregates at zero,
    /// the emergency switch off, and no records.
    pub fn initialize_policy(
        &mut self,
        authority: u64,
        decay_rate: u64,
        min_stake: u64,
        max_stake: u64,
        daily_user_limit: u64,
        total_user_limit: u64,
    ) -> (r: Result<(), LedgerError>)
        requires
            old(self).wf(),
        ensures
            final(self).wf(),
            old(self).ledger is Some ==> r == Err::<(), LedgerError>(
                LedgerError::AlreadyInitialized,
            ) && *final(self) == *old(self),
            old(self).ledger is None && min_stake > max_stake ==> r == Err::<(), LedgerError>(
                LedgerError::InvalidPolicy,
            ) && *final(self) == *old(self),
            old(self).ledger is None && min_stake <= max_stake ==> r == Ok::<(), LedgerError>(())
                && (final(self).ledger matches Some(l) && l.wf() && l@.state == (ProgramState {
                authority,
                decay_rate,
                min_stake,
                max_stake,
                daily_user_limit,
                total_user_limit,
                total_staked: 0,
                total_rewards_paid: 0,
                emergency_controls_active: false,
            }) && l@.records.len() == 0 && l@.usage.len() == 0),
    {
        if self.ledger.is_some() {
            return Err(LedgerError::AlreadyInitialized);
        }
        match ProgramState::initialize(
            authority,
            decay_rate,
            min_stake,
            max_stake,
            daily_user_limit,
            total_user_limit,
        ) {
            Err(e) => Err(e),
            Ok(state) => {
                self.ledger = Some(StakeLedger::new(state));
                Ok(())
            },
        }
    }
}

} // verus!
