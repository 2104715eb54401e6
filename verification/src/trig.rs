//! Deterministic fixed-point sine and cosine.
//!
//! Angles are `i64` micro-degrees.  The sine uses Bhaskara I's rational
//! approximation, evaluated in exact integer arithmetic: it is a total
//! function of the angle alone, so every machine computes the same basis
//! vectors — a prerequisite for replayable prediction and rollback.
//! The approximation is exact at 0, 90 and 180 degrees and stays within
//! about 0.2% of the real sine in between; the simulation never relies on
//! closeness to the real sine, only on determinism and on the `[-1, 1]`
//! range proved here.

use vstd::prelude::*;
use crate::math::SCALE;

verus! {

/// Half a revolution (180 degrees) in micro-degrees.
pub const HALF_TURN: i64 = 180_000_000;

/// A full revolution (360 degrees) in micro-degrees.
pub const FULL_TURN: i64 = 360_000_000;

/// A quarter revolution (90 degrees) in micro-degrees.
pub const QUARTER_TURN: i64 = 90_000_000;

/// Denominator constant of Bhaskara I's formula, scaled to micro-degrees
/// squared: 40500 deg^2 * 10^12.
pub const BHASKARA_DEN: i64 = 40_500_000_000_000_000;

/// Bhaskara I's sine approximation on `[0, 180]` degrees, scaled so that
/// one is `SCALE`: `4 * t * SCALE / (BHASKARA_DEN - t)` with
/// `t = theta * (HALF_TURN - theta)`.
pub open spec fn sine_half_spec(theta: int) -> int {
    let t = theta * (HALF_TURN - theta);
    (4 * t * SCALE) / (BHASKARA_DEN - t)
}

/// Fixed-point sine on `[-180, 180]` degrees, odd around zero.
pub open spec fn sine_spec(a: int) -> int {
    if a >= 0 {
        sine_half_spec(a)
    } else {
        -sine_half_spec(-a)
    }
}

/// Fixed-point cosine on `[-180, 180]` degrees, as the sine of the
/// complementary angle folded back into range.
pub open spec fn cosine_spec(a: int) -> int {
    if QUARTER_TURN - a > HALF_TURN {
        sine_spec(QUARTER_TURN - a - FULL_TURN)
    } else {
        sine_spec(QUARTER_TURN - a)
    }
}

/// `theta * (HALF_TURN - theta)` peaks at the quarter turn.
proof fn lemma_bhaskara_core_bounds(theta: int)
    requires
        0 <= theta <= HALF_TURN,
    ensures
        0 <= theta * (HALF_TURN - theta),
        theta * (HALF_TURN - theta) <= 8_100_000_000_000_000,
{
    assert((theta - QUARTER_TURN) * (theta - QUARTER_TURN) >= 0) by (nonlinear_arith);
    assert(0 <= theta * (HALF_TURN - theta)) by (nonlinear_arith)
        requires 0 <= theta <= HALF_TURN;
    assert(theta * (HALF_TURN - theta) <= 8_100_000_000_000_000) by (nonlinear_arith)
        requires (theta - QUARTER_TURN) * (theta - QUARTER_TURN) >= 0;
}

/// Fold an angle back into `[-HALF_TURN, HALF_TURN)`.  The angle is
/// reduced modulo a full revolution, never clamped: full revolutions are
/// allowed and no part of the applied delta is lost.
pub open spec fn wrap_angle_spec(a: int) -> int {
    if a < -HALF_TURN {
        a + FULL_TURN
    } else if a >= HALF_TURN {
        a - FULL_TURN
    } else {
        a
    }
}

pub fn wrap_angle(a: i64) -> (r: i64)
    requires
        -3 * (HALF_TURN as int) < a < 3 * (HALF_TURN as int),
    ensures
        r == wrap_angle_spec(a as int),
        -HALF_TURN <= r < HALF_TURN,
{
    if a < -HALF_TURN {
        a + FULL_TURN
    } else if a >= HALF_TURN {
        a - FULL_TURN
    } else {
        a
    }
}

/// Wrapping preserves the angle up to whole revolutions.
pub proof fn lemma_wrap_angle_congruent(a: int)
    ensures
        wrap_angle_spec(a) == a
            || wrap_angle_spec(a) == a + FULL_TURN
            || wrap_angle_spec(a) == a - FULL_TURN,
{
}

/// Sine on `[0, 180]` degrees: nonnegative and at most one.
pub fn sine_half(theta: i64) -> (r: i64)
    requires
        0 <= theta <= HALF_TURN,
    ensures
        r == sine_half_spec(theta as int),
        0 <= r <= SCALE,
{
    proof {
        lemma_bhaskara_core_bounds(theta as int);
    }
    let t: i64 = theta * (HALF_TURN - theta);
    let num: u128 = 4 * (t as u128) * (SCALE as u128);
    let den: u128 = (BHASKARA_DEN as u128) - (t as u128);
    proof {
        assert(num <= (SCALE as u128) * den) by (nonlinear_arith)
            requires
                num == 4 * (t as u128) * (SCALE as u128),
                den == (BHASKARA_DEN as u128) - (t as u128),
                0 <= t <= 8_100_000_000_000_000,
                SCALE == 1_000_000,
                BHASKARA_DEN == 40_500_000_000_000_000;
        assert(num / den <= SCALE) by (nonlinear_arith)
            requires num <= (SCALE as u128) * den, den > 0;
    }
    let q: u128 = num / den;
    q as i64
}

/// Fixed-point sine; the result is within `[-SCALE, SCALE]`.
pub fn sine_fix(a: i64) -> (r: i64)
    requires
        -HALF_TURN <= a <= HALF_TURN,
    ensures
        r == sine_spec(a as int),
        -SCALE <= r <= SCALE,
{
    if a >= 0 {
        sine_half(a)
    } else {
        let s = sine_half(-a);
        -s
    }
}

/// Fixed-point cosine; the result is within `[-SCALE, SCALE]`.
pub fn cosine_fix(a: i64) -> (r: i64)
    requires
        -HALF_TURN <= a <= HALF_TURN,
    ensures
        r == cosine_spec(a as int),
        -SCALE <= r <= SCALE,
{
    let c: i64 = QUARTER_TURN - a;
    if c > HALF_TURN {
        sine_fix(c - FULL_TURN)
    } else {
        sine_fix(c)
    }
}

} // verus!
