//! Three-component fixed-point vectors, used both as points and as colors,
//! with an exact integer model (`V3i`) for every operation.

use vstd::prelude::*;
use crate::fixed::{
    SCALE, COORD_MAX, T_MAX_FX, tdiv, fmul, clamp, sqrt_floor, lemma_sqrt_floor,
    lemma_tdiv_le, div_trunc, isqrt, fx_mul,
};

verus! {

/// A vector of three fixed-point scalars.
#[derive(Clone, Copy, PartialEq, Eq, Structural, Debug, Default)]
pub struct Vec3 {
    pub x: i64,
    pub y: i64,
    pub z: i64,
}

/// A point in space: structurally a `Vec3`, the distinction is semantic.
pub type Point3 = Vec3;

/// An RGB color with channels in [0, 1]: structurally a `Vec3` as well.
pub type Color = Vec3;

/// The mathematical model of a vector: three unbounded integers.
pub ghost struct V3i {
    pub x: int,
    pub y: int,
    pub z: int,
}

impl View for Vec3 {
    type V = V3i;

    open spec fn view(&self) -> V3i {
        V3i { x: self.x as int, y: self.y as int, z: self.z as int }
    }
}

/// All three components lie within `COORD_MAX` in magnitude: the range the
/// arithmetic below accepts without risking overflow.
pub open spec fn in_range(v: V3i) -> bool {
    &&& -COORD_MAX <= v.x <= COORD_MAX
    &&& -COORD_MAX <= v.y <= COORD_MAX
    &&& -COORD_MAX <= v.z <= COORD_MAX
}

/// The fixed-point dot product: wide products summed, rescaled once.
pub open spec fn dot_spec(u: V3i, v: V3i) -> int {
    tdiv(u.x * v.x + u.y * v.y + u.z * v.z, SCALE as int)
}

pub open spec fn add_spec(u: V3i, v: V3i) -> V3i {
    V3i { x: u.x + v.x, y: u.y + v.y, z: u.z + v.z }
}

pub open spec fn sub_spec(u: V3i, v: V3i) -> V3i {
    V3i { x: u.x - v.x, y: u.y - v.y, z: u.z - v.z }
}

pub open spec fn neg_spec(v: V3i) -> V3i {
    V3i { x: -v.x, y: -v.y, z: -v.z }
}

/// Componentwise fixed-point scaling by the scalar `s`.
pub open spec fn scale_spec(u: V3i, s: int) -> V3i {
    V3i { x: fmul(u.x, s), y: fmul(u.y, s), z: fmul(u.z, s) }
}

/// The fixed-point length: floor square root of the rescaled squared length.
pub open spec fn length_spec(v: V3i) -> int {
    sqrt_floor(SCALE * dot_spec(v, v))
}

/// One component of the normalized vector: divided by the length and, to
/// absorb the last unit of rounding slack, clamped into [-1.0, 1.0].
pub open spec fn unit_comp(c: int, len: int) -> int {
    clamp(tdiv(c * SCALE, len), -SCALE as int, SCALE as int)
}

pub open spec fn unit_spec(v: V3i) -> V3i {
    let len = length_spec(v);
    V3i {
        x: unit_comp(v.x, len),
        y: unit_comp(v.y, len),
        z: unit_comp(v.z, len),
    }
}

impl Vec3 {
    pub fn new(x: i64, y: i64, z: i64) -> (r: Vec3)
        ensures
            r@ == (V3i { x: x as int, y: y as int, z: z as int }),
    {
        Vec3 { x, y, z }
    }

    pub fn x(&self) -> (r: i64)
        ensures
            r == self.x,
    {
        self.x
    }

    pub fn y(&self) -> (r: i64)
        ensures
            r == self.y,
    {
        self.y
    }

    pub fn z(&self) -> (r: i64)
        ensures
            r == self.z,
    {
        self.z
    }

    pub fn add(&self, o: &Vec3) -> (r: Vec3)
        requires
            -1_152_921_504_606_846_976i64 <= self@.x + o@.x <= 1_152_921_504_606_846_976i64,
            -1_152_921_504_606_846_976i64 <= self@.y + o@.y <= 1_152_921_504_606_846_976i64,
            -1_152_921_504_606_846_976i64 <= self@.z + o@.z <= 1_152_921_504_606_846_976i64,
        ensures
            r@ == add_spec(self@, o@),
    {
        Vec3 { x: self.x + o.x, y: self.y + o.y, z: self.z + o.z }
    }

    pub fn sub(&self, o: &Vec3) -> (r: Vec3)
        requires
            -1_152_921_504_606_846_976i64 <= self@.x - o@.x <= 1_152_921_504_606_846_976i64,
            -1_152_921_504_606_846_976i64 <= self@.y - o@.y <= 1_152_921_504_606_846_976i64,
            -1_152_921_504_606_846_976i64 <= self@.z - o@.z <= 1_152_921_504_606_846_976i64,
        ensures
            r@ == sub_spec(self@, o@),
    {
        Vec3 { x: self.x - o.x, y: self.y - o.y, z: self.z - o.z }
    }

    /// Scale by a fixed-point scalar of magnitude at most `T_MAX_FX`.
    pub fn scale(&self, s: i64) -> (r: Vec3)
        requires
            in_range(self@),
            -T_MAX_FX <= s <= T_MAX_FX,
        ensures
            r@ == scale_spec(self@, s as int),
            -576_460_752_303_423_488i64 <= r@.x <= 576_460_752_303_423_488i64,
            -576_460_752_303_423_488i64 <= r@.y <= 576_460_752_303_423_488i64,
            -576_460_752_303_423_488i64 <= r@.z <= 576_460_752_303_423_488i64,
    {
        proof {
            lemma_scale_bound(self@.x, s as int);
            lemma_scale_bound(self@.y, s as int);
            lemma_scale_bound(self@.z, s as int);
        }
        Vec3 {
            x: fx_mul(self.x, s, Ghost(576_460_752_303_423_488int)),
            y: fx_mul(self.y, s, Ghost(576_460_752_303_423_488int)),
            z: fx_mul(self.z, s, Ghost(576_460_752_303_423_488int)),
        }
    }
}

/// A coordinate times a ray parameter, rescaled, stays well inside `i64`.
proof fn lemma_scale_bound(c: int, s: int)
    requires
        -COORD_MAX <= c <= COORD_MAX,
        -T_MAX_FX <= s <= T_MAX_FX,
    ensures
        -(576_460_752_303_423_488i64 * SCALE) <= c * s <= 576_460_752_303_423_488i64 * SCALE,
{
    assert(c * s <= COORD_MAX * T_MAX_FX && -(COORD_MAX * T_MAX_FX) <= c * s)
        by (nonlinear_arith)
        requires
            -COORD_MAX <= c <= COORD_MAX,
            -T_MAX_FX <= s <= T_MAX_FX,
    ;
}

/// The fixed-point dot product of two vectors whose components stay within
/// twice `COORD_MAX`; the result stays within `DOT_MAX`.
pub const DOT_MAX: i64 = 1_200_000_000_000_000_000;

pub fn dot(u: &Vec3, v: &Vec3) -> (r: i64)
    requires
        -2 * COORD_MAX <= u@.x <= 2 * COORD_MAX,
        -2 * COORD_MAX <= u@.y <= 2 * COORD_MAX,
        -2 * COORD_MAX <= u@.z <= 2 * COORD_MAX,
        -2 * COORD_MAX <= v@.x <= 2 * COORD_MAX,
        -2 * COORD_MAX <= v@.y <= 2 * COORD_MAX,
        -2 * COORD_MAX <= v@.z <= 2 * COORD_MAX,
    ensures
        r == dot_spec(u@, v@),
        -DOT_MAX <= r <= DOT_MAX,
{
    proof {
        lemma_prod_bound(u@.x, v@.x);
        lemma_prod_bound(u@.y, v@.y);
        lemma_prod_bound(u@.z, v@.z);
        lemma_tdiv_le(
            u@.x * v@.x + u@.y * v@.y + u@.z * v@.z,
            SCALE as int,
            DOT_MAX as int,
        );
    }
    let s: i128 = (u.x as i128) * (v.x as i128) + (u.y as i128) * (v.y as i128)
        + (u.z as i128) * (v.z as i128);
    let q: i128 = div_trunc(s, SCALE as i128);
    q as i64
}

proof fn lemma_prod_bound(a: int, b: int)
    requires
        -2 * COORD_MAX <= a <= 2 * COORD_MAX,
        -2 * COORD_MAX <= b <= 2 * COORD_MAX,
    ensures
        -(4 * COORD_MAX * COORD_MAX) <= a * b <= 4 * COORD_MAX * COORD_MAX,
        3 * (4 * COORD_MAX * COORD_MAX) <= DOT_MAX * SCALE,
{
    assert(-(4 * COORD_MAX * COORD_MAX) <= a * b <= 4 * COORD_MAX * COORD_MAX)
        by (nonlinear_arith)
        requires
            -2 * COORD_MAX <= a <= 2 * COORD_MAX,
            -2 * COORD_MAX <= b <= 2 * COORD_MAX,
    ;
}

/// Squared length: the vector's dot product with itself; never negative.
pub fn length_squared(v: &Vec3) -> (r: i64)
    requires
        -2 * COORD_MAX <= v@.x <= 2 * COORD_MAX,
        -2 * COORD_MAX <= v@.y <= 2 * COORD_MAX,
        -2 * COORD_MAX <= v@.z <= 2 * COORD_MAX,
    ensures
        r == dot_spec(v@, v@),
        0 <= r <= DOT_MAX,
{
    proof {
        lemma_dot_self_nonneg(v@);
    }
    dot(v, v)
}

/// A dot product of a vector with itself is never negative.
pub proof fn lemma_dot_self_nonneg(v: V3i)
    ensures
        dot_spec(v, v) >= 0,
{
    assert(v.x * v.x >= 0 && v.y * v.y >= 0 && v.z * v.z >= 0) by (nonlinear_arith);
    vstd::arithmetic::div_mod::lemma_div_pos_is_pos(
        v.x * v.x + v.y * v.y + v.z * v.z,
        SCALE as int,
    );
}

/// Fixed-point length of a vector.
pub fn length(v: &Vec3) -> (r: i64)
    requires
        -2 * COORD_MAX <= v@.x <= 2 * COORD_MAX,
        -2 * COORD_MAX <= v@.y <= 2 * COORD_MAX,
        -2 * COORD_MAX <= v@.z <= 2 * COORD_MAX,
    ensures
        r == length_spec(v@),
        0 <= r <= 2_000_000_000_000_000_000i64,
        dot_spec(v@, v@) > 0 ==> r >= 1,
{
    let d: i64 = length_squared(v);
    let s: u128 = isqrt((d as u128) * 1_000_000u128);
    proof {
        let w = SCALE * dot_spec(v@, v@);
        lemma_sqrt_floor(w);
        let sf = sqrt_floor(w);
        assert(sf <= 2_000_000_000_000_000_000) by (nonlinear_arith)
            requires
                sf * sf <= w,
                w <= 1_200_000_000_000_000_000_000_000,
                sf >= 0,
        ;
        if dot_spec(v@, v@) > 0 {
            assert(w >= SCALE);
            if sf == 0 {
                assert((sf + 1) * (sf + 1) == 1) by (nonlinear_arith)
                    requires
                        sf == 0,
                ;
                assert(w < 1);
            }
        }
    }
    s as i64
}

/// The vector scaled to unit length (componentwise division by the length,
/// clamped into [-1.0, 1.0]). The caller keeps the squared length positive.
pub fn unit_vector(v: &Vec3) -> (r: Vec3)
    requires
        in_range(v@),
        dot_spec(v@, v@) > 0,
    ensures
        r@ == unit_spec(v@),
        -SCALE <= r@.x <= SCALE,
        -SCALE <= r@.y <= SCALE,
        -SCALE <= r@.z <= SCALE,
{
    let len: i64 = length(v);
    Vec3 {
        x: unit_component(v.x, len),
        y: unit_component(v.y, len),
        z: unit_component(v.z, len),
    }
}

/// Whether every component lies within the accepted coordinate range.
pub fn vec_in_range(v: &Vec3) -> (b: bool)
    ensures
        b == in_range(v@),
{
    -COORD_MAX <= v.x && v.x <= COORD_MAX && -COORD_MAX <= v.y && v.y <= COORD_MAX
        && -COORD_MAX <= v.z && v.z <= COORD_MAX
}

/// One clamped component of a normalized vector.
fn unit_component(c: i64, len: i64) -> (r: i64)
    requires
        -COORD_MAX <= c <= COORD_MAX,
        1 <= len,
    ensures
        r == unit_comp(c as int, len as int),
        -SCALE <= r <= SCALE,
{
    let q: i128 = div_trunc((c as i128) * 1_000_000i128, len as i128);
    if q > SCALE as i128 {
        SCALE
    } else if q < -(SCALE as i128) {
        -SCALE
    } else {
        q as i64
    }
}

} // verus!
