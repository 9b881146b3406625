//! A ray: origin plus direction, with point-at-parameter evaluation.

use vstd::prelude::*;
use crate::fixed::{T_MAX_FX};
use crate::vec3::{Vec3, Point3, V3i, in_range, dot_spec, add_spec, scale_spec};

verus! {

/// A ray P(t) = A + t*b: `orig` is the origin A, `dir` the direction b.
/// The direction need not be normalized.
#[derive(Clone, Copy, PartialEq, Eq, Structural, Debug, Default)]
pub struct Ray {
    pub orig: Point3,
    pub dir: Vec3,
}

/// Rays the intersection routines accept: coordinates within range and a
/// direction whose fixed-point squared length is positive.
pub open spec fn ray_wf(r: Ray) -> bool {
    &&& in_range(r.orig@)
    &&& in_range(r.dir@)
    &&& dot_spec(r.dir@, r.dir@) > 0
}

/// The point the ray reaches at parameter `t`: origin + direction * t.
pub open spec fn at_spec(r: Ray, t: int) -> V3i {
    add_spec(r.orig@, scale_spec(r.dir@, t))
}

impl Ray {
    pub fn new(origin: Point3, direction: Vec3) -> (r: Ray)
        ensures
            r.orig == origin,
            r.dir == direction,
    {
        Ray { orig: origin, dir: direction }
    }

    pub fn origin(&self) -> (r: Point3)
        ensures
            r == self.orig,
    {
        self.orig
    }

    pub fn direction(&self) -> (r: Vec3)
        ensures
            r == self.dir,
    {
        self.dir
    }

    /// P(t) = A + t*b.
    pub fn at(&self, t: i64) -> (p: Point3)
        requires
            in_range(self.orig@),
            in_range(self.dir@),
            -T_MAX_FX <= t <= T_MAX_FX,
        ensures
            p@ == at_spec(*self, t as int),
            -1_000_000_000_000_000_000i64 <= p@.x <= 1_000_000_000_000_000_000i64,
            -1_000_000_000_000_000_000i64 <= p@.y <= 1_000_000_000_000_000_000i64,
            -1_000_000_000_000_000_000i64 <= p@.z <= 1_000_000_000_000_000_000i64,
    {
        let d = self.dir.scale(t);
        self.orig.add(&d)
    }
}

} // verus!
