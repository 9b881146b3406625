//! The sphere primitive and its analytic intersection test.
//!
//! Substituting the ray equation P(t) = A + t*b into ||P(t) - C||^2 = r^2
//! yields the quadratic a*t^2 + 2*half_b*t + c = 0 with a = ||b||^2,
//! half_b = dot(A - C, b) and c = ||A - C||^2 - r^2. The test succeeds
//! exactly when the discriminant half_b^2 - a*c is nonnegative and one of
//! the two roots lies strictly inside the requested interval; the smaller
//! root is preferred. Every quantity below is pinned to an exact
//! fixed-point model over the integers.

use vstd::prelude::*;
use crate::fixed::{
    SCALE, COORD_MAX, T_MAX_FX, tdiv, fmul, clamp, sqrt_floor, lemma_sqrt_floor,
    lemma_tdiv_le, lemma_tdiv_ordered, div_trunc, isqrt, fx_mul,
};
use crate::vec3::{Vec3, Point3, V3i, in_range, dot_spec, sub_spec, neg_spec, dot};
use crate::ray::{Ray, ray_wf, at_spec};
use crate::hittable::HitRecord;

verus! {

/// A sphere: center and (positive) fixed-point radius.
#[derive(Clone, Copy, PartialEq, Eq, Structural, Debug)]
pub struct Sphere {
    pub center: Point3,
    pub radius: i64,
}

impl Sphere {
    /// Spheres the intersection test accepts: center within coordinate
    /// range and a positive, bounded radius.
    pub open spec fn wf(self) -> bool {
        &&& in_range(self.center@)
        &&& 0 < self.radius <= COORD_MAX
    }

    /// Construction validates its arguments up front: a zero or negative
    /// radius is rejected by precondition rather than left to produce
    /// meaningless intersections.
    pub fn new(center: Point3, radius: i64) -> (s: Sphere)
        requires
            in_range(center@),
            0 < radius <= COORD_MAX,
        ensures
            s.center == center,
            s.radius == radius,
            s.wf(),
    {
        Sphere { center, radius }
    }
}

/// Vector from the sphere's center to the ray's origin.
pub open spec fn oc_spec(s: Sphere, r: Ray) -> V3i {
    sub_spec(r.orig@, s.center@)
}

/// The quadratic's leading coefficient: squared length of the direction.
pub open spec fn a_spec(r: Ray) -> int {
    dot_spec(r.dir@, r.dir@)
}

/// Half the quadratic's linear coefficient.
pub open spec fn half_b_spec(s: Sphere, r: Ray) -> int {
    dot_spec(oc_spec(s, r), r.dir@)
}

/// The quadratic's constant coefficient.
pub open spec fn c_spec(s: Sphere, r: Ray) -> int {
    dot_spec(oc_spec(s, r), oc_spec(s, r)) - fmul(s.radius as int, s.radius as int)
}

/// The discriminant half_b^2 - a*c, in fixed point.
pub open spec fn disc_spec(s: Sphere, r: Ray) -> int {
    fmul(half_b_spec(s, r), half_b_spec(s, r)) - fmul(a_spec(r), c_spec(s, r))
}

/// Fixed-point square root of the discriminant.
pub open spec fn sqrt_disc_spec(s: Sphere, r: Ray) -> int {
    sqrt_floor(disc_spec(s, r) * SCALE)
}

/// The smaller root (-half_b - sqrt(disc)) / a.
pub open spec fn root1_spec(s: Sphere, r: Ray) -> int {
    tdiv((-half_b_spec(s, r) - sqrt_disc_spec(s, r)) * SCALE, a_spec(r))
}

/// The larger root (-half_b + sqrt(disc)) / a.
pub open spec fn root2_spec(s: Sphere, r: Ray) -> int {
    tdiv((-half_b_spec(s, r) + sqrt_disc_spec(s, r)) * SCALE, a_spec(r))
}

/// The ray parameter at which the sphere is hit within (t_min, t_max):
/// the smaller root when it lies strictly inside the interval, else the
/// larger, else no hit at all.
pub open spec fn sphere_hit_t(s: Sphere, r: Ray, t_min: int, t_max: int) -> Option<int> {
    if disc_spec(s, r) < 0 {
        None
    } else if t_min < root1_spec(s, r) < t_max {
        Some(root1_spec(s, r))
    } else if t_min < root2_spec(s, r) < t_max {
        Some(root2_spec(s, r))
    } else {
        None
    }
}

/// `a` clamped into the `i64` range, symmetric so negation stays inside.
pub open spec fn clamp64(a: int) -> int {
    clamp(a, -(i64::MAX as int), i64::MAX as int)
}

/// One component of the outward normal (p - center) / radius.
pub open spec fn outward_comp(pc: int, cc: int, radius: int) -> int {
    clamp64(tdiv((pc - cc) * SCALE, radius))
}

/// The outward normal at the hit point for parameter `t`.
pub open spec fn outward_spec(s: Sphere, r: Ray, t: int) -> V3i {
    let p = at_spec(r, t);
    V3i {
        x: outward_comp(p.x, s.center@.x, s.radius as int),
        y: outward_comp(p.y, s.center@.y, s.radius as int),
        z: outward_comp(p.z, s.center@.z, s.radius as int),
    }
}

/// The ray strikes the front face when its direction opposes the outward
/// normal: the sign of the unscaled dot product.
pub open spec fn front_face_spec(dir: V3i, out: V3i) -> bool {
    dir.x * out.x + dir.y * out.y + dir.z * out.z < 0
}

/// The recorded normal: the outward normal, flipped to oppose the ray.
pub open spec fn hit_normal_spec(s: Sphere, r: Ray, t: int) -> V3i {
    if front_face_spec(r.dir@, outward_spec(s, r, t)) {
        outward_spec(s, r, t)
    } else {
        neg_spec(outward_spec(s, r, t))
    }
}

/// What a successful hit records for parameter `t`.
pub open spec fn hit_rec_match(s: Sphere, r: Ray, t: int, rec: HitRecord) -> bool {
    &&& rec.t as int == t
    &&& rec.p@ == at_spec(r, t)
    &&& rec.normal@ == hit_normal_spec(s, r, t)
    &&& rec.front_face == front_face_spec(r.dir@, outward_spec(s, r, t))
}

/// The full contract of `Sphere::hit`, as one predicate.
pub open spec fn sphere_hit_post(
    s: Sphere,
    r: Ray,
    t_min: int,
    t_max: int,
    res: Option<HitRecord>,
) -> bool {
    match res {
        None => sphere_hit_t(s, r, t_min, t_max) is None,
        Some(rec) => {
            &&& sphere_hit_t(s, r, t_min, t_max) == Some(rec.t as int)
            &&& hit_rec_match(s, r, rec.t as int, rec)
        },
    }
}

/// The hit test succeeds exactly when the discriminant is nonnegative and
/// at least one of the two roots lies strictly inside (t_min, t_max).
pub proof fn lemma_sphere_hit_iff(s: Sphere, r: Ray, t_min: int, t_max: int)
    ensures
        sphere_hit_t(s, r, t_min, t_max) is Some <==> (disc_spec(s, r) >= 0 && (
            t_min < root1_spec(s, r) < t_max || t_min < root2_spec(s, r) < t_max
        )),
        sphere_hit_t(s, r, t_min, t_max) matches Some(t) ==> t_min < t < t_max,
{
}

/// The preferred root never exceeds the other: the hit parameter a sphere
/// reports is the smallest root inside the interval.
pub proof fn lemma_roots_ordered(s: Sphere, r: Ray)
    requires
        a_spec(r) > 0,
        disc_spec(s, r) >= 0,
    ensures
        root1_spec(s, r) <= root2_spec(s, r),
{
    lemma_sqrt_floor(disc_spec(s, r) * SCALE);
    let hb = half_b_spec(s, r);
    let sq = sqrt_disc_spec(s, r);
    assert((-hb - sq) * SCALE <= (-hb + sq) * SCALE) by (nonlinear_arith)
        requires
            sq >= 0,
            SCALE > 0,
    ;
    lemma_tdiv_ordered((-hb - sq) * SCALE, (-hb + sq) * SCALE, a_spec(r));
}

/// The reported hit parameter is minimal among the sphere's roots inside
/// the interval.
pub proof fn lemma_sphere_hit_minimal(s: Sphere, r: Ray, t_min: int, t_max: int, rt: int)
    requires
        a_spec(r) > 0,
        sphere_hit_t(s, r, t_min, t_max) is Some,
        disc_spec(s, r) >= 0,
        rt == root1_spec(s, r) || rt == root2_spec(s, r),
        t_min < rt < t_max,
    ensures
        sphere_hit_t(s, r, t_min, t_max) matches Some(t) && t <= rt,
{
    lemma_roots_ordered(s, r);
}

impl Sphere {
    /// The intersection test: the nearest hit with parameter strictly
    /// inside (t_min, t_max), or `None`.
    pub fn hit(&self, r: &Ray, t_min: i64, t_max: i64) -> (res: Option<HitRecord>)
        requires
            self.wf(),
            ray_wf(*r),
            -T_MAX_FX <= t_min <= T_MAX_FX,
            -T_MAX_FX <= t_max <= T_MAX_FX,
        ensures
            sphere_hit_post(*self, *r, t_min as int, t_max as int, res),
            res matches Some(rec) ==> t_min < rec.t < t_max,
    {
        let dir = r.direction();
        let oc = r.origin().sub(&self.center);
        let a: i64 = dot(&dir, &dir);
        let half_b: i64 = dot(&oc, &dir);
        proof {
            assert(0 <= self.radius * self.radius <= 100_000_000_000_000_000int * SCALE)
                by (nonlinear_arith)
                requires
                    0 < self.radius <= COORD_MAX,
            ;
        }
        let rr: i64 = fx_mul(self.radius, self.radius, Ghost(100_000_000_000_000_000int));
        let c_q: i64 = dot(&oc, &oc) - rr;

        proof {
            lemma_quadratic_bounds(half_b as int, a as int, c_q as int);
        }
        let hb2: i128 = div_trunc((half_b as i128) * (half_b as i128), 1_000_000i128);
        let ac: i128 = div_trunc((a as i128) * (c_q as i128), 1_000_000i128);
        let disc: i128 = hb2 - ac;
        if disc < 0 {
            return None;
        }
        let sq128: u128 = isqrt((disc as u128) * 1_000_000u128);
        proof {
            let w = disc_spec(*self, *r) * SCALE;
            lemma_sqrt_floor(w);
            let sf = sqrt_floor(w);
            assert(sf <= 2_000_000_000_000_000_000) by (nonlinear_arith)
                requires
                    sf * sf <= w,
                    w <= 4_000_000_000_000_000_000_000_000_000_000_000_000,
                    sf >= 0,
            ;
        }
        let sq: i64 = sq128 as i64;

        let num1: i64 = -half_b - sq;
        let r1: i128 = div_trunc((num1 as i128) * 1_000_000i128, a as i128);
        if (t_min as i128) < r1 && r1 < (t_max as i128) {
            return Some(self.make_record(r, r1 as i64));
        }
        let num2: i64 = -half_b + sq;
        let r2: i128 = div_trunc((num2 as i128) * 1_000_000i128, a as i128);
        if (t_min as i128) < r2 && r2 < (t_max as i128) {
            return Some(self.make_record(r, r2 as i64));
        }
        None
    }

    /// Fill in the record for an accepted hit parameter.
    fn make_record(&self, r: &Ray, t: i64) -> (rec: HitRecord)
        requires
            self.wf(),
            ray_wf(*r),
            -T_MAX_FX <= t <= T_MAX_FX,
        ensures
            hit_rec_match(*self, *r, t as int, rec),
    {
        let p = r.at(t);
        let out = Vec3 {
            x: outward_component(p.x, self.center.x, self.radius),
            y: outward_component(p.y, self.center.y, self.radius),
            z: outward_component(p.z, self.center.z, self.radius),
        };
        proof {
            lemma_sign_prod_bound(r.dir@.x, out@.x);
            lemma_sign_prod_bound(r.dir@.y, out@.y);
            lemma_sign_prod_bound(r.dir@.z, out@.z);
        }
        let sum: i128 = (r.dir.x as i128) * (out.x as i128) + (r.dir.y as i128) * (out.y as i128)
            + (r.dir.z as i128) * (out.z as i128);
        let front: bool = sum < 0;
        let normal = if front {
            out
        } else {
            Vec3 { x: -out.x, y: -out.y, z: -out.z }
        };
        HitRecord { p, normal, t, front_face: front }
    }
}

/// One clamped component of the outward normal.
fn outward_component(pc: i64, cc: i64, radius: i64) -> (r: i64)
    requires
        1 <= radius,
    ensures
        r == outward_comp(pc as int, cc as int, radius as int),
        -i64::MAX <= r <= i64::MAX,
{
    let diff: i128 = (pc as i128) - (cc as i128);
    let q: i128 = div_trunc(diff * 1_000_000i128, radius as i128);
    if q > i64::MAX as i128 {
        i64::MAX
    } else if q < -(i64::MAX as i128) {
        -i64::MAX
    } else {
        q as i64
    }
}

/// A direction component times a (clamped) normal component fits `i128`.
proof fn lemma_sign_prod_bound(d: int, o: int)
    requires
        -COORD_MAX <= d <= COORD_MAX,
        -(i64::MAX as int) <= o <= i64::MAX as int,
    ensures
        -(COORD_MAX * (i64::MAX as int)) <= d * o <= COORD_MAX * (i64::MAX as int),
{
    assert(-(COORD_MAX * (i64::MAX as int)) <= d * o <= COORD_MAX * (i64::MAX as int))
        by (nonlinear_arith)
        requires
            -COORD_MAX <= d <= COORD_MAX,
            -(i64::MAX as int) <= o <= i64::MAX as int,
    ;
}

/// Bounds that keep the discriminant computation inside `i128` and its
/// rescaled value within range of the square-root argument.
pub(crate) proof fn lemma_quadratic_bounds(hb: int, a: int, c: int)
    requires
        -1_200_000_000_000_000_000 <= hb <= 1_200_000_000_000_000_000,
        -1_200_000_000_000_000_000 <= a <= 1_200_000_000_000_000_000,
        -1_400_000_000_000_000_000 <= c <= 1_400_000_000_000_000_000,
    ensures
        0 <= hb * hb <= 1_440_000_000_000_000_000_000_000_000_000_000_000,
        -1_680_000_000_000_000_000_000_000_000_000_000_000 <= a * c
            <= 1_680_000_000_000_000_000_000_000_000_000_000_000,
        -1_500_000_000_000_000_000_000_000_000_000 <= tdiv(hb * hb, SCALE as int)
            <= 1_500_000_000_000_000_000_000_000_000_000,
        -1_700_000_000_000_000_000_000_000_000_000 <= tdiv(a * c, SCALE as int)
            <= 1_700_000_000_000_000_000_000_000_000_000,
{
    assert(0 <= hb * hb <= 1_440_000_000_000_000_000_000_000_000_000_000_000)
        by (nonlinear_arith)
        requires
            -1_200_000_000_000_000_000 <= hb <= 1_200_000_000_000_000_000,
    ;
    assert(-1_680_000_000_000_000_000_000_000_000_000_000_000 <= a * c
        <= 1_680_000_000_000_000_000_000_000_000_000_000_000) by (nonlinear_arith)
        requires
            -1_200_000_000_000_000_000 <= a <= 1_200_000_000_000_000_000,
            -1_400_000_000_000_000_000 <= c <= 1_400_000_000_000_000_000,
    ;
    lemma_tdiv_le(hb * hb, SCALE as int, 1_500_000_000_000_000_000_000_000_000_000);
    lemma_tdiv_le(a * c, SCALE as int, 1_700_000_000_000_000_000_000_000_000_000);
}

} // verus!
