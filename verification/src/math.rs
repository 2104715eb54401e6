//! Fixed-point arithmetic helpers shared by the whole simulation.
//!
//! Every quantity in the simulation is an `i64` holding micro-units
//! (`SCALE` steps per world unit or per degree).  All rounding is explicit
//! and truncates toward zero, so every operation is a total function of its
//! arguments: this is what makes ticks replayable bit-for-bit.

use vstd::prelude::*;

verus! {

/// Fixed-point steps per world unit (and per degree, for angles).
pub const SCALE: i64 = 1_000_000;

/// Magnitude of a mathematical integer.
pub open spec fn abs_int(v: int) -> int {
    if v >= 0 { v } else { -v }
}

/// Truncating-toward-zero scaled multiply: `v * num / den` with the
/// division applied to the magnitude, as Rust's `/` would do.
pub open spec fn muldiv_spec(v: int, num: int, den: int) -> int {
    if v >= 0 {
        (v * num) / den
    } else {
        -(((-v) * num) / den)
    }
}

/// Clamp `v` into `[lo, hi]`.
pub open spec fn clamp_spec(v: int, lo: int, hi: int) -> int {
    if v < lo { lo } else if v > hi { hi } else { v }
}

pub fn clamp_i64(v: i64, lo: i64, hi: i64) -> (r: i64)
    requires
        lo <= hi,
    ensures
        r == clamp_spec(v as int, lo as int, hi as int),
        lo <= r <= hi,
{
    if v < lo {
        lo
    } else if v > hi {
        hi
    } else {
        v
    }
}

/// Magnitude of an `i64`, computed without overflow.
pub fn mag_u128(v: i64) -> (m: u128)
    ensures
        m == abs_int(v as int),
{
    if v >= 0 {
        v as u128
    } else {
        let w: i128 = -(v as i128);
        w as u128
    }
}

/// `v * num / den`, truncating toward zero, carried out on unsigned
/// magnitudes so the intermediate product cannot overflow.
pub fn muldiv(v: i64, num: i64, den: i64) -> (r: i64)
    requires
        num >= 0,
        den > 0,
        abs_int(v as int) * num / (den as int) <= i64::MAX,
    ensures
        r == muldiv_spec(v as int, num as int, den as int),
        abs_int(r as int) <= abs_int(v as int) * num / (den as int),
{
    let m: u128 = mag_u128(v);
    proof {
        assert(m * (num as u128) <= u128::MAX) by (nonlinear_arith)
            requires m <= 0x8000_0000_0000_0000u128, 0 <= num <= i64::MAX;
    }
    let q: u128 = (m * (num as u128)) / (den as u128);
    proof {
        assert(m * (num as u128) == abs_int(v as int) * num);
        assert(q == abs_int(v as int) * num / (den as int));
    }
    let qi: i64 = q as i64;
    if v >= 0 {
        qi
    } else {
        -qi
    }
}

/// The magnitude of a scaled product grows with the bounds on its factors.
pub proof fn lemma_muldiv_bound(v: int, num: int, den: int, vb: int, nb: int)
    requires
        abs_int(v) <= vb,
        0 <= num <= nb,
        den > 0,
    ensures
        abs_int(muldiv_spec(v, num, den)) <= vb * nb / den,
        muldiv_spec(v, num, den) <= vb * nb / den,
{
    let a = abs_int(v);
    vstd::arithmetic::div_mod::lemma_div_pos_is_pos(a * num, den);
    assert(abs_int(muldiv_spec(v, num, den)) == (a * num) / den);
    assert(a * num <= vb * nb) by (nonlinear_arith)
        requires 0 <= a <= vb, 0 <= num <= nb;
    vstd::arithmetic::div_mod::lemma_div_is_ordered(a * num, vb * nb, den);
}

/// Product of two `i64` values whose magnitudes are bounded.
pub fn mul_bounded(a: i64, b: i64, ab: i64, bb: i64) -> (r: i64)
    requires
        abs_int(a as int) <= ab,
        abs_int(b as int) <= bb,
        ab * bb <= i64::MAX,
    ensures
        r == a * b,
        abs_int(r as int) <= ab * bb,
{
    proof {
        assert(abs_int((a as int) * (b as int)) <= ab * bb) by (nonlinear_arith)
            requires abs_int(a as int) <= ab, abs_int(b as int) <= bb;
    }
    a * b
}

/// `muldiv` with the overflow reasoning packaged in: the caller supplies
/// magnitude bounds on the factors.
pub fn muldiv_bounded(v: i64, num: i64, den: i64, vb: i64, nb: i64) -> (r: i64)
    requires
        abs_int(v as int) <= vb,
        0 <= num <= nb,
        den > 0,
        vb * nb / (den as int) <= i64::MAX,
    ensures
        r == muldiv_spec(v as int, num as int, den as int),
        abs_int(r as int) <= vb * nb / (den as int),
{
    proof {
        lemma_muldiv_bound(v as int, num as int, den as int, vb as int, nb as int);
        assert(abs_int(v as int) * num <= vb * nb) by (nonlinear_arith)
            requires 0 <= abs_int(v as int) <= vb, 0 <= num <= nb;
        vstd::arithmetic::div_mod::lemma_div_is_ordered(
            abs_int(v as int) * num, (vb as int) * (nb as int), den as int);
    }
    muldiv(v, num, den)
}

/// Floor of the square root, as a recursive mathematical definition.
pub open spec fn sqrt_floor(n: nat) -> nat
    decreases n,
{
    if n == 0 {
        0
    } else {
        let r = sqrt_floor((n - 1) as nat);
        if (r + 1) * (r + 1) <= n {
            r + 1
        } else {
            r
        }
    }
}

/// `sqrt_floor` really is the floor of the square root.
pub proof fn lemma_sqrt_floor_bounds(n: nat)
    ensures
        sqrt_floor(n) * sqrt_floor(n) <= n,
        n < (sqrt_floor(n) + 1) * (sqrt_floor(n) + 1),
    decreases n,
{
    if n == 0 {
        assert(sqrt_floor(n) == 0);
        assert(n < (sqrt_floor(n) + 1) * (sqrt_floor(n) + 1)) by (nonlinear_arith)
            requires n == 0, sqrt_floor(n) == 0;
    } else {
        lemma_sqrt_floor_bounds((n - 1) as nat);
        let r = sqrt_floor((n - 1) as nat);
        assert(sqrt_floor(n) == if (r + 1) * (r + 1) <= n { r + 1 } else { r });
        if (r + 1) * (r + 1) <= n {
            assert(sqrt_floor(n) == r + 1);
            assert(sqrt_floor(n) * sqrt_floor(n) <= n);
            assert(n < (r + 1 + 1) * (r + 1 + 1)) by (nonlinear_arith)
                requires n - 1 < (r + 1) * (r + 1);
            assert(n < (sqrt_floor(n) + 1) * (sqrt_floor(n) + 1));
        } else {
            assert(sqrt_floor(n) == r);
            assert(sqrt_floor(n) * sqrt_floor(n) <= n);
            assert(n < (sqrt_floor(n) + 1) * (sqrt_floor(n) + 1));
        }
    }
}

/// Any value with the floor-sqrt bracketing property equals `sqrt_floor`.
pub proof fn lemma_sqrt_floor_unique(n: nat, r: nat)
    requires
        r * r <= n,
        n < (r + 1) * (r + 1),
    ensures
        r == sqrt_floor(n),
{
    lemma_sqrt_floor_bounds(n);
    let s = sqrt_floor(n);
    if r < s {
        assert((r + 1) * (r + 1) <= s * s) by (nonlinear_arith)
            requires r + 1 <= s;
    }
    if s < r {
        assert((s + 1) * (s + 1) <= r * r) by (nonlinear_arith)
            requires s + 1 <= r;
    }
}

/// A bound on the square bounds the root.
pub proof fn lemma_sqrt_floor_lt(n: nat, b: nat)
    requires
        n < b * b,
    ensures
        sqrt_floor(n) < b,
{
    lemma_sqrt_floor_bounds(n);
    if sqrt_floor(n) >= b {
        assert(b * b <= sqrt_floor(n) * sqrt_floor(n)) by (nonlinear_arith)
            requires b <= sqrt_floor(n);
    }
}

/// Ceiling of the square root.
pub open spec fn sqrt_ceil(n: nat) -> nat {
    if sqrt_floor(n) * sqrt_floor(n) == n {
        sqrt_floor(n)
    } else {
        sqrt_floor(n) + 1
    }
}

pub proof fn lemma_sqrt_ceil_bounds(n: nat)
    ensures
        n <= sqrt_ceil(n) * sqrt_ceil(n),
        n > 0 ==> sqrt_ceil(n) > 0,
{
    lemma_sqrt_floor_bounds(n);
}

/// Binary search for the integer square root; works for the full `u128`
/// range because the root of any `u128` fits in a `u64`.
pub fn isqrt(n: u128) -> (r: u64)
    ensures
        r == sqrt_floor(n as nat),
{
    let mut lo: u64 = 0;
    let mut hi: u64 = u64::MAX;
    proof {
        assert((hi as nat + 1) * (hi as nat + 1) > n as nat) by (nonlinear_arith)
            requires hi == u64::MAX, n <= u128::MAX;
    }
    while lo < hi
        invariant
            (lo as nat) * (lo as nat) <= n as nat,
            (n as nat) < (hi as nat + 1) * (hi as nat + 1),
            lo <= hi,
        decreases hi - lo,
    {
        let mid: u64 = lo + (hi - lo) / 2 + 1;
        proof {
            assert((mid as nat) * (mid as nat) <= (u64::MAX as nat) * (u64::MAX as nat))
                by (nonlinear_arith)
                requires mid <= u64::MAX;
        }
        let sq: u128 = (mid as u128) * (mid as u128);
        if sq <= n {
            lo = mid;
        } else {
            hi = mid - 1;
        }
    }
    proof {
        lemma_sqrt_floor_unique(n as nat, lo as nat);
    }
    lo
}

/// Ceiling integer square root.
pub fn isqrt_ceil(n: u128) -> (r: u64)
    requires
        n < u64::MAX as u128 * u64::MAX as u128,
    ensures
        r == sqrt_ceil(n as nat),
{
    let f: u64 = isqrt(n);
    proof {
        lemma_sqrt_floor_bounds(n as nat);
        if f == u64::MAX {
            assert(false) by (nonlinear_arith)
                requires
                    (f as nat) * (f as nat) <= n as nat,
                    n < u64::MAX as u128 * u64::MAX as u128,
                    f == u64::MAX;
        }
    }
    if (f as u128) * (f as u128) == n {
        f
    } else {
        f + 1
    }
}

} // verus!
