//! The decay engine: a pure computation of a stake's current effective value
//! from its stored principal, its timestamp, the reference time and the
//! policy's decay rate.
//!
//! Value decays linearly: each full elapsed day removes `decay_rate` basis
//! points of the principal, and the effective value is clamped at zero once
//! the accumulated loss reaches the whole. Decay is computed on read; the
//! stored principal is never changed by a query.

use vstd::prelude::*;

use vstd::arithmetic::div_mod::lemma_div_is_ordered;
use vstd::arithmetic::div_mod::lemma_fundamental_div_mod;
use vstd::arithmetic::mul::lemma_mul_inequality;

use crate::errors::LedgerError;

verus! {

/// Basis-point denominator: a decay factor of `BPS_DENOMINATOR` means no loss.
pub const BPS_DENOMINATOR: u64 = 10000;

/// Length of the decay time unit (one day) in seconds.
pub const SECONDS_PER_DAY: u64 = 86400;

/// Number of full days elapsed between `staked_at` and `now`.
pub open spec fn elapsed_days(staked_at: int, now: int) -> int {
    (now - staked_at) / (SECONDS_PER_DAY as int)
}

/// The fraction of value retained after `days` days, in basis points:
/// `BPS_DENOMINATOR - decay_rate * days`, clamped at zero.
pub open spec fn decay_factor_bps(decay_rate: int, days: int) -> int {
    if decay_rate * days >= BPS_DENOMINATOR as int {
        0
    } else {
        BPS_DENOMINATOR as int - decay_rate * days
    }
}

/// The effective value of `principal` staked at `staked_at`, read at `now`,
/// under `decay_rate` basis points of loss per day.
pub open spec fn effective_value_spec(
    principal: int,
    staked_at: int,
    now: int,
    decay_rate: int,
) -> int {
    principal * decay_factor_bps(decay_rate, elapsed_days(staked_at, now)) / (
    BPS_DENOMINATOR as int)
}

/// The effective value never exceeds the principal and is never negative.
pub proof fn lemma_effective_value_bounds(principal: int, staked_at: int, now: int, decay_rate: int)
    requires
        0 <= principal,
        staked_at <= now,
        0 <= decay_rate,
    ensures
        0 <= effective_value_spec(principal, staked_at, now, decay_rate) <= principal,
{
    let days = elapsed_days(staked_at, now);
    assert(days >= 0) by {
        lemma_div_is_ordered(0, now - staked_at, SECONDS_PER_DAY as int);
    }
    let factor = decay_factor_bps(decay_rate, days);
    assert(0 <= factor <= BPS_DENOMINATOR as int) by {
        if decay_rate * days < BPS_DENOMINATOR as int {
            assert(decay_rate * days >= 0) by (nonlinear_arith)
                requires
                    decay_rate >= 0,
                    days >= 0,
            ;
        }
    }
    assert(principal * factor >= 0) by (nonlinear_arith)
        requires
            principal >= 0,
            factor >= 0,
    ;
    assert(principal * factor <= principal * (BPS_DENOMINATOR as int)) by {
        lemma_mul_inequality(factor, BPS_DENOMINATOR as int, principal);
        vstd::arithmetic::mul::lemma_mul_is_commutative(factor, principal);
        vstd::arithmetic::mul::lemma_mul_is_commutative(BPS_DENOMINATOR as int, principal);
    }
    lemma_div_is_ordered(0, principal * factor, BPS_DENOMINATOR as int);
    lemma_div_is_ordered(
        principal * factor,
        principal * (BPS_DENOMINATOR as int),
        BPS_DENOMINATOR as int,
    );
    assert(principal * (BPS_DENOMINATOR as int) / (BPS_DENOMINATOR as int) == principal) by (
    nonlinear_arith);
}

/// Decay monotonicity: with the principal and the rate fixed, the effective
/// value is non-increasing as the reference time increases.
pub proof fn lemma_effective_value_monotonic(
    principal: int,
    staked_at: int,
    now1: int,
    now2: int,
    decay_rate: int,
)
    requires
        0 <= principal,
        staked_at <= now1 <= now2,
        0 <= decay_rate,
    ensures
        effective_value_spec(principal, staked_at, now2, decay_rate) <= effective_value_spec(
            principal,
            staked_at,
            now1,
            decay_rate,
        ),
{
    let d1 = elapsed_days(staked_at, now1);
    let d2 = elapsed_days(staked_at, now2);
    lemma_div_is_ordered(now1 - staked_at, now2 - staked_at, SECONDS_PER_DAY as int);
    assert(d1 <= d2);
    assert(decay_rate * d1 <= decay_rate * d2) by (nonlinear_arith)
        requires
            0 <= decay_rate,
            d1 <= d2,
    ;
    let f1 = decay_factor_bps(decay_rate, d1);
    let f2 = decay_factor_bps(decay_rate, d2);
    assert(f2 <= f1);
    assert(principal * f2 <= principal * f1) by (nonlinear_arith)
        requires
            0 <= principal,
            f2 <= f1,
    ;
    lemma_div_is_ordered(principal * f2, principal * f1, BPS_DENOMINATOR as int);
}

/// Once the accumulated loss reaches the whole, the effective value is
/// exactly zero (and stays there, by monotonicity), never negative.
pub proof fn lemma_effective_value_fully_decayed(
    principal: int,
    staked_at: int,
    now: int,
    decay_rate: int,
)
    requires
        0 <= principal,
        staked_at <= now,
        0 <= decay_rate,
        decay_rate * elapsed_days(staked_at, now) >= BPS_DENOMINATOR as int,
    ensures
        effective_value_spec(principal, staked_at, now, decay_rate) == 0,
{
    assert(decay_factor_bps(decay_rate, elapsed_days(staked_at, now)) == 0);
    assert(principal * 0 == 0) by (nonlinear_arith);
}

/// Computes the current effective value of a stake.
///
/// Succeeds exactly when `now` does not lie before `staked_at`; a reference
/// time in the record's past is reported as `ClockSkew`. The result is the
/// linear-decay value of the spec, which never exceeds the principal.
pub fn effective_value(principal: u64, staked_at: i64, now: i64, decay_rate: u64) -> (r: Result<
    u64,
    LedgerError,
>)
    requires
        0 <= staked_at,
    ensures
        r is Ok <==> staked_at <= now,
        r is Err <==> now < staked_at && r == Err::<u64, LedgerError>(LedgerError::ClockSkew),
        r matches Ok(v) ==> v == effective_value_spec(
            principal as int,
            staked_at as int,
            now as int,
            decay_rate as int,
        ) && v <= principal,
{
    if now < staked_at {
        return Err(LedgerError::ClockSkew);
    }
    proof {
        lemma_effective_value_bounds(principal as int, staked_at as int, now as int, decay_rate as int);
    }
    let elapsed_secs: u64 = (now - staked_at) as u64;
    let days: u64 = elapsed_secs / SECONDS_PER_DAY;
    assert(days == elapsed_days(staked_at as int, now as int));
    if decay_rate == 0 {
        assert(effective_value_spec(principal as int, staked_at as int, now as int, 0) == principal)
            by {
            assert(0 * elapsed_days(staked_at as int, now as int) == 0) by (nonlinear_arith);
            assert(decay_factor_bps(0, elapsed_days(staked_at as int, now as int))
                == BPS_DENOMINATOR as int);
            assert(principal as int * (BPS_DENOMINATOR as int) / (BPS_DENOMINATOR as int)
                == principal as int) by (nonlinear_arith);
        }
        return Ok(principal);
    }
    if days > BPS_DENOMINATOR / decay_rate {
        proof {
            lemma_fundamental_div_mod(BPS_DENOMINATOR as int, decay_rate as int);
            assert(decay_rate as int * days as int >= BPS_DENOMINATOR as int) by (nonlinear_arith)
                requires
                    days as int >= BPS_DENOMINATOR as int / decay_rate as int + 1,
                    BPS_DENOMINATOR as int == (decay_rate as int) * (BPS_DENOMINATOR as int
                        / decay_rate as int) + (BPS_DENOMINATOR as int) % (decay_rate as int),
                    0 <= (BPS_DENOMINATOR as int) % (decay_rate as int) < decay_rate as int,
            ;
            lemma_effective_value_fully_decayed(
                principal as int,
                staked_at as int,
                now as int,
                decay_rate as int,
            );
        }
        return Ok(0);
    }
    proof {
        lemma_fundamental_div_mod(BPS_DENOMINATOR as int, decay_rate as int);
        assert(decay_rate as int * days as int <= BPS_DENOMINATOR as int) by (nonlinear_arith)
            requires
                days as int <= BPS_DENOMINATOR as int / decay_rate as int,
                0 <= days as int,
                0 < decay_rate as int,
                BPS_DENOMINATOR as int == (decay_rate as int) * (BPS_DENOMINATOR as int
                    / decay_rate as int) + (BPS_DENOMINATOR as int) % (decay_rate as int),
                0 <= (BPS_DENOMINATOR as int) % (decay_rate as int),
        ;
    }
    let loss: u64 = decay_rate * days;
    if loss >= BPS_DENOMINATOR {
        proof {
            lemma_effective_value_fully_decayed(
                principal as int,
                staked_at as int,
                now as int,
                decay_rate as int,
            );
        }
        return Ok(0);
    }
    let factor: u64 = BPS_DENOMINATOR - loss;
    let wide: u128 = (principal as u128) * (factor as u128) / (BPS_DENOMINATOR as u128);
    assert(wide == effective_value_spec(
        principal as int,
        staked_at as int,
        now as int,
        decay_rate as int,
    ));
    Ok(wide as u64)
}

} // verus!
