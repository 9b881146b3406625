//! A small deterministic pseudo-random source (a linear congruential
//! generator) and the rejection sampler for points inside the unit sphere.
//!
//! The stream is a pure function of the seed: `lcg_next` states the state
//! transition exactly, and every draw is pinned to it, so a seeded
//! generator reproduces the same samples in every run. Nothing is claimed
//! about the distribution of the stream; the shading routine relies only
//! on the stated ranges and on determinism.

use vstd::prelude::*;
use crate::fixed::SCALE;
use crate::vec3::{Vec3, V3i, dot_spec, length_squared};

verus! {

/// How many rejection-sampling rounds `random_in_unit_sphere` tries before
/// giving up and returning the zero vector.
pub const SAMPLE_ATTEMPTS: u32 = 64;

/// The multiplier of the linear congruential step.
pub const LCG_MUL: u64 = 6364136223846793005;

/// The increment of the linear congruential step.
pub const LCG_ADD: u64 = 1442695040888963407;

/// The state transition: state * LCG_MUL + LCG_ADD, modulo 2^64.
pub open spec fn lcg_next(s: u64) -> u64 {
    s.wrapping_mul(LCG_MUL).wrapping_add(LCG_ADD)
}

/// The fixed-point sample in [0, 1) drawn by one step from state `s`.
pub open spec fn unit_sample(s: u64) -> int {
    ((lcg_next(s) >> 11) as int) % (SCALE as int)
}

/// The fixed-point sample in [-1, 1) drawn by one step from state `s`.
pub open spec fn sym_sample(s: u64) -> int {
    2 * unit_sample(s) - SCALE
}

/// The candidate vector one rejection round draws from state `s` (three
/// symmetric samples), and the state it leaves behind.
pub open spec fn round_sample(s: u64) -> (V3i, u64) {
    let s1 = lcg_next(s);
    let s2 = lcg_next(s1);
    let s3 = lcg_next(s2);
    (V3i { x: sym_sample(s), y: sym_sample(s1), z: sym_sample(s2) }, s3)
}

/// The point rejection sampling yields from state `s` with `attempts`
/// rounds left, and the final state: the first candidate whose squared
/// length is below one, or the center when every round rejects.
pub open spec fn sphere_sample(s: u64, attempts: int) -> (V3i, u64)
    decreases attempts,
{
    if attempts <= 0 {
        (V3i { x: 0, y: 0, z: 0 }, s)
    } else {
        let (v, s3) = round_sample(s);
        if dot_spec(v, v) < SCALE {
            (v, s3)
        } else {
            sphere_sample(s3, attempts - 1)
        }
    }
}

/// A 64-bit linear congruential generator. The view is its state.
pub struct Rng {
    state: u64,
}

impl View for Rng {
    type V = u64;

    closed spec fn view(&self) -> u64 {
        self.state
    }
}

impl Rng {
    /// Seeded construction: the whole stream is a function of the seed.
    pub fn new(seed: u64) -> (r: Rng)
        ensures
            r@ == seed,
    {
        Rng { state: seed }
    }

    /// The next raw state: one `lcg_next` step.
    fn next_u64(&mut self) -> (r: u64)
        ensures
            final(self)@ == lcg_next(old(self)@),
            r == final(self)@,
    {
        self.state = self.state.wrapping_mul(LCG_MUL).wrapping_add(LCG_ADD);
        self.state
    }

    /// A fixed-point sample in [0, 1), pinned to the stream.
    pub fn next_unit(&mut self) -> (r: i64)
        ensures
            r == unit_sample(old(self)@),
            final(self)@ == lcg_next(old(self)@),
            0 <= r < SCALE,
    {
        let raw: u64 = self.next_u64();
        ((raw >> 11) % (SCALE as u64)) as i64
    }

    /// A fixed-point sample in [-1, 1), pinned to the stream.
    pub fn next_symmetric(&mut self) -> (r: i64)
        ensures
            r == sym_sample(old(self)@),
            final(self)@ == lcg_next(old(self)@),
            -SCALE <= r < SCALE,
    {
        2 * self.next_unit() - SCALE
    }
}

/// Rejection sampling for a point strictly inside the unit sphere: draw a
/// vector with each component in [-1, 1), keep it when its squared length
/// is below one. A bounded number of rounds keeps the loop total; if every
/// round rejects, the center of the sphere is returned. The result and the
/// state left behind are exactly `sphere_sample` of the incoming state.
pub fn random_in_unit_sphere(rng: &mut Rng) -> (v: Vec3)
    ensures
        v@ == sphere_sample(old(rng)@, SAMPLE_ATTEMPTS as int).0,
        final(rng)@ == sphere_sample(old(rng)@, SAMPLE_ATTEMPTS as int).1,
        -SCALE <= v@.x <= SCALE,
        -SCALE <= v@.y <= SCALE,
        -SCALE <= v@.z <= SCALE,
        0 <= dot_spec(v@, v@) < SCALE,
{
    let mut i: u32 = 0;
    while i < SAMPLE_ATTEMPTS
        invariant
            i <= SAMPLE_ATTEMPTS,
            sphere_sample(old(rng)@, SAMPLE_ATTEMPTS as int) == sphere_sample(
                rng@,
                (SAMPLE_ATTEMPTS - i) as int,
            ),
        decreases SAMPLE_ATTEMPTS - i,
    {
        let ghost s0: u64 = rng@;
        let x: i64 = rng.next_symmetric();
        let y: i64 = rng.next_symmetric();
        let z: i64 = rng.next_symmetric();
        let c = Vec3 { x, y, z };
        proof {
            assert(round_sample(s0) == (c@, rng@));
        }
        let d: i64 = length_squared(&c);
        if d < SCALE {
            return c;
        }
        i = i + 1;
    }
    proof {
        crate::vec3::lemma_dot_self_nonneg(V3i { x: 0, y: 0, z: 0 });
    }
    Vec3 { x: 0, y: 0, z: 0 }
}

} // verus!
