//! A small ray tracer core, verified: fixed-point scalar arithmetic, vector
//! operations, analytic ray/sphere intersection, nearest-hit resolution over
//! a scene of spheres, and the recursive diffuse shading routine.
//!
//! Scalars are fixed-point numbers: an `i64` carrying six decimal places, so
//! `fixed::SCALE` stands for 1.0. Every executable operation is pinned by an
//! exact specification-level model over mathematical integers.

pub mod fixed;
pub mod vec3;
pub mod ray;
pub mod hittable;
pub mod sphere;
pub mod scene;
pub mod color;
pub mod shade;
pub mod rng;
