//! The record an intersection test fills in: where and how a ray met a
//! surface. A record is only meaningful as the payload of a successful hit
//! test; the hit routines return `Option<HitRecord>` so that no caller can
//! read one that no hit produced.

use vstd::prelude::*;
use crate::vec3::{Vec3, Point3};

verus! {

/// Where a ray met a surface: the hit point, the unit surface normal
/// (flipped to oppose the incoming ray), the ray parameter of the hit, and
/// whether the ray struck the front (outside) face.
#[derive(Clone, Copy, PartialEq, Eq, Structural, Debug)]
pub struct HitRecord {
    pub p: Point3,
    pub normal: Vec3,
    pub t: i64,
    pub front_face: bool,
}

} // verus!
