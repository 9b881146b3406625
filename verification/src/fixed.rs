//! Fixed-point scalars and the few integer primitives the tracer needs:
//! truncating division, fixed-point multiplication, clamping, and a floor
//! square root, each with an exact mathematical model.

use vstd::prelude::*;

verus! {

/// Scale factor of the fixed-point format: an `i64` scalar carries six
/// decimal places, so `SCALE` stands for 1.0.
pub const SCALE: i64 = 1_000_000;

/// One half, in fixed point: the diffuse albedo and the gradient midpoint.
pub const HALF: i64 = 500_000;

/// Largest coordinate magnitude the vector operations accept; leaves ample
/// headroom against `i64` overflow in dot products and quadratic terms.
pub const COORD_MAX: i64 = 274_877_906_944;

/// Largest ray-parameter magnitude accepted by `Ray::at` and the hit tests.
pub const T_MAX_FX: i64 = 1_000_000_000_000;

/// Truncating (round-toward-zero) division, the rounding every fixed-point
/// operation uses. Meaningful for `b > 0`.
pub open spec fn tdiv(a: int, b: int) -> int {
    if a >= 0 {
        a / b
    } else {
        -((-a) / b)
    }
}

/// Fixed-point product of two scalars: the wide product rescaled back,
/// truncated toward zero.
pub open spec fn fmul(a: int, b: int) -> int {
    tdiv(a * b, SCALE as int)
}

/// `a` clamped into `[lo, hi]`.
pub open spec fn clamp(a: int, lo: int, hi: int) -> int {
    if a < lo {
        lo
    } else if a > hi {
        hi
    } else {
        a
    }
}

/// The floor of the square root of `v` (and 0 for negative `v`).
pub open spec fn sqrt_floor(v: int) -> int
    decreases v,
{
    if v <= 0 {
        0
    } else {
        let r = sqrt_floor(v - 1);
        if (r + 1) * (r + 1) <= v {
            r + 1
        } else {
            r
        }
    }
}

/// `sqrt_floor` is what its name says: the greatest integer whose square
/// does not exceed `v`.
pub proof fn lemma_sqrt_floor(v: int)
    requires
        v >= 0,
    ensures
        sqrt_floor(v) >= 0,
        sqrt_floor(v) * sqrt_floor(v) <= v,
        v < (sqrt_floor(v) + 1) * (sqrt_floor(v) + 1),
    decreases v,
{
    if v == 0 {
    } else {
        lemma_sqrt_floor(v - 1);
        let r = sqrt_floor(v - 1);
        if (r + 1) * (r + 1) <= v {
            assert(v <= (r + 1) * (r + 1)) by (nonlinear_arith)
                requires
                    v - 1 < (r + 1) * (r + 1),
            ;
            assert((r + 1) * (r + 1) < (r + 2) * (r + 2)) by (nonlinear_arith)
                requires
                    r >= 0,
            ;
        }
    }
}

/// No other integer satisfies the floor-square-root bounds.
pub proof fn lemma_sqrt_floor_unique(v: int, r: int)
    requires
        v >= 0,
        r >= 0,
        r * r <= v,
        v < (r + 1) * (r + 1),
    ensures
        r == sqrt_floor(v),
{
    lemma_sqrt_floor(v);
    let s = sqrt_floor(v);
    if r < s {
        assert((r + 1) * (r + 1) <= s * s) by (nonlinear_arith)
            requires
                0 <= r,
                r + 1 <= s,
        ;
    }
    if s < r {
        assert((s + 1) * (s + 1) <= r * r) by (nonlinear_arith)
            requires
                0 <= s,
                s + 1 <= r,
        ;
    }
}

/// Truncating division stays within `[-m, m]` when the numerator stays
/// within `[-m*b, m*b]`.
pub proof fn lemma_tdiv_le(a: int, b: int, m: int)
    requires
        b > 0,
        m >= 0,
        -(m * b) <= a <= m * b,
    ensures
        -m <= tdiv(a, b) <= m,
{
    if a >= 0 {
        vstd::arithmetic::div_mod::lemma_div_is_ordered(a, m * b, b);
        vstd::arithmetic::div_mod::lemma_div_multiples_vanish(m, b);
        vstd::arithmetic::div_mod::lemma_div_pos_is_pos(a, b);
    } else {
        vstd::arithmetic::div_mod::lemma_div_is_ordered(-a, m * b, b);
        vstd::arithmetic::div_mod::lemma_div_multiples_vanish(m, b);
        vstd::arithmetic::div_mod::lemma_div_pos_is_pos(-a, b);
    }
}

/// Truncating division is monotone in the numerator for a positive divisor.
pub proof fn lemma_tdiv_ordered(a1: int, a2: int, b: int)
    requires
        b > 0,
        a1 <= a2,
    ensures
        tdiv(a1, b) <= tdiv(a2, b),
{
    if a1 >= 0 {
        vstd::arithmetic::div_mod::lemma_div_is_ordered(a1, a2, b);
    } else if a2 < 0 {
        vstd::arithmetic::div_mod::lemma_div_is_ordered(-a2, -a1, b);
    } else {
        vstd::arithmetic::div_mod::lemma_div_pos_is_pos(-a1, b);
        vstd::arithmetic::div_mod::lemma_div_pos_is_pos(a2, b);
    }
}

/// Truncating division of `a` by a positive `b`, computed on magnitudes so
/// the rounding direction is exact.
pub fn div_trunc(a: i128, b: i128) -> (r: i128)
    requires
        b > 0,
        a > i128::MIN,
    ensures
        r == tdiv(a as int, b as int),
{
    if a >= 0 {
        let q: u128 = (a as u128) / (b as u128);
        proof {
            vstd::arithmetic::div_mod::lemma_div_pos_is_pos(a as int, b as int);
            vstd::arithmetic::div_mod::lemma_div_nonincreasing(a as int, b as int);
        }
        q as i128
    } else {
        let n: i128 = -a;
        let q: u128 = (n as u128) / (b as u128);
        proof {
            vstd::arithmetic::div_mod::lemma_div_pos_is_pos(n as int, b as int);
            vstd::arithmetic::div_mod::lemma_div_nonincreasing(n as int, b as int);
        }
        -(q as i128)
    }
}

/// Floor square root of an unsigned 128-bit value, by binary search.
pub fn isqrt(v: u128) -> (r: u128)
    ensures
        r == sqrt_floor(v as int),
{
    let mut lo: u128 = 0;
    let mut hi: u128 = 0x1_0000_0000_0000_0000u128;
    proof {
        assert(v < hi * hi) by (nonlinear_arith)
            requires
                hi == 0x1_0000_0000_0000_0000u128,
                v <= u128::MAX,
        ;
    }
    while hi - lo > 1
        invariant
            lo < hi,
            hi <= 0x1_0000_0000_0000_0000u128,
            lo * lo <= v,
            v < hi * hi,
        decreases hi - lo,
    {
        let mid: u128 = lo + (hi - lo) / 2;
        proof {
            assert(lo < mid < hi);
            assert(mid * mid <= 0xFFFF_FFFF_FFFF_FFFFu128 * 0xFFFF_FFFF_FFFF_FFFFu128)
                by (nonlinear_arith)
                requires
                    0 <= mid <= 0xFFFF_FFFF_FFFF_FFFFu128,
            ;
        }
        if mid * mid <= v {
            lo = mid;
        } else {
            hi = mid;
        }
    }
    proof {
        lemma_sqrt_floor_unique(v as int, lo as int);
    }
    lo
}

/// Fixed-point product `fmul(a, b)`, under bounds that keep the rescaled
/// result inside `i64`.
pub fn fx_mul(a: i64, b: i64, Ghost(m): Ghost<int>) -> (r: i64)
    requires
        0 <= m <= i64::MAX,
        -(m * SCALE) <= a * b <= m * SCALE,
    ensures
        r == fmul(a as int, b as int),
        -m <= r <= m,
{
    let p: i128 = (a as i128) * (b as i128);
    proof {
        lemma_tdiv_le(p as int, SCALE as int, m);
    }
    let q: i128 = div_trunc(p, SCALE as i128);
    q as i64
}

} // verus!
