//! The recursive shading routine: nearest hit against the scene, a diffuse
//! bounce scaled by a fixed 0.5 albedo, a leftover demonstration sphere
//! test on the miss path, and the sky gradient as the background.

use vstd::prelude::*;
use crate::fixed::{
    SCALE, HALF, COORD_MAX, T_MAX_FX, tdiv, fmul, sqrt_floor, lemma_sqrt_floor, lemma_tdiv_le,
    div_trunc, isqrt, fx_mul,
};
use crate::vec3::{
    Vec3, Color, V3i, in_range, dot_spec, sub_spec, unit_spec, dot, length_squared, unit_vector,
    vec_in_range,
};
use crate::ray::{Ray, ray_wf, at_spec};
use crate::sphere::{Sphere, clamp64, hit_normal_spec, lemma_quadratic_bounds};
use crate::scene::{Scene, scene_hit_t};
use crate::rng::{Rng, SAMPLE_ATTEMPTS, random_in_unit_sphere, sphere_sample};

verus! {

/// Center of the leftover demonstration sphere tested on the miss path.
/// It sits at (0, 0, -2), independent of the scene list; dropping it would
/// change rendered output for some camera angles, so it stays.
pub open spec fn demo_center() -> V3i {
    V3i { x: 0, y: 0, z: -2_000_000 }
}

/// Radius of the demonstration sphere: one half.
pub const DEMO_RADIUS: i64 = 500_000;

fn demo_center_vec() -> (v: Vec3)
    ensures
        v@ == demo_center(),
        in_range(v@),
{
    Vec3 { x: 0, y: 0, z: -2_000_000 }
}

/// The demonstration intersection test: the smaller quadratic root
/// (-half_b - sqrt(D)) / a with D = half_b^2 - a*c, or -1.0 when the
/// discriminant is negative. The same quadratic as `disc_spec`, without
/// the interval filtering: the root may be zero or negative.
pub open spec fn hit_sphere_spec(center: V3i, radius: int, r: Ray) -> int {
    let oc = sub_spec(r.orig@, center);
    let a = dot_spec(r.dir@, r.dir@);
    let hb = dot_spec(oc, r.dir@);
    let c = dot_spec(oc, oc) - fmul(radius, radius);
    let disc = fmul(hb, hb) - fmul(a, c);
    if disc < 0 {
        -(SCALE as int)
    } else {
        clamp64(tdiv((-hb - sqrt_floor(disc * SCALE)) * SCALE, a))
    }
}

/// The root test the shading routine applies to the demonstration sphere
/// before falling back to the sky gradient.
pub fn hit_sphere(center: &Vec3, radius: i64, r: &Ray) -> (t: i64)
    requires
        in_range(center@),
        0 < radius <= COORD_MAX,
        ray_wf(*r),
    ensures
        t as int == hit_sphere_spec(center@, radius as int, *r),
{
    let dir = r.direction();
    let oc = r.origin().sub(center);
    let a: i64 = dot(&dir, &dir);
    let half_b: i64 = dot(&oc, &dir);
    proof {
        assert(0 <= radius * radius <= 100_000_000_000_000_000int * SCALE) by (nonlinear_arith)
            requires
                0 < radius <= COORD_MAX,
        ;
    }
    let rr: i64 = fx_mul(radius, radius, Ghost(100_000_000_000_000_000int));
    let c_q: i64 = dot(&oc, &oc) - rr;
    proof {
        lemma_quadratic_bounds(half_b as int, a as int, c_q as int);
    }
    let hb2: i128 = div_trunc((half_b as i128) * (half_b as i128), 1_000_000i128);
    let ac: i128 = div_trunc((a as i128) * (c_q as i128), 1_000_000i128);
    let disc: i128 = hb2 - ac;
    if disc < 0 {
        return -SCALE;
    }
    let sq128: u128 = isqrt((disc as u128) * 1_000_000u128);
    proof {
        let w = (disc as int) * SCALE;
        lemma_sqrt_floor(w);
        let sf = sqrt_floor(w);
        assert(sf <= 3_000_000_000_000_000_000) by (nonlinear_arith)
            requires
                sf * sf <= w,
                w <= 9_000_000_000_000_000_000_000_000_000_000_000_000,
                sf >= 0,
        ;
    }
    let sq: i64 = sq128 as i64;
    let num: i64 = -half_b - sq;
    let root: i128 = div_trunc((num as i128) * 1_000_000i128, a as i128);
    clamp_to_i64(root)
}

/// Clamp a wide intermediate into the (symmetric) `i64` range.
fn clamp_to_i64(q: i128) -> (r: i64)
    ensures
        r as int == clamp64(q as int),
{
    if q > i64::MAX as i128 {
        i64::MAX
    } else if q < -(i64::MAX as i128) {
        -i64::MAX
    } else {
        q as i64
    }
}

/// Half of (v + 1): one component of the normal-to-color map and the
/// gradient parameter.
pub open spec fn half_plus_spec(v: int) -> int {
    fmul(HALF as int, v + SCALE)
}

fn half_plus(v: i64) -> (r: i64)
    requires
        -SCALE <= v <= SCALE,
    ensures
        r as int == half_plus_spec(v as int),
        0 <= r <= SCALE,
{
    proof {
        assert(0 <= (HALF as int) * (v + SCALE) <= (SCALE as int) * SCALE) by (nonlinear_arith)
            requires
                -SCALE <= v <= SCALE,
        ;
        lemma_tdiv_le((HALF as int) * (v + SCALE), SCALE as int, SCALE as int);
        vstd::arithmetic::div_mod::lemma_div_pos_is_pos((HALF as int) * (v + SCALE), SCALE as int);
    }
    fx_mul(HALF, v + SCALE, Ghost(SCALE as int))
}

/// One channel of the sky blend (1 - t) * white + t * top, where white is
/// 1.0 and `top` is the channel of the zenith color.
pub open spec fn blend_spec(t: int, top: int) -> int {
    fmul(SCALE - t, SCALE as int) + fmul(t, top)
}

fn blend(t: i64, top: i64) -> (r: i64)
    requires
        0 <= t <= SCALE,
        0 <= top <= SCALE,
    ensures
        r as int == blend_spec(t as int, top as int),
        0 <= r <= SCALE,
{
    proof {
        vstd::arithmetic::div_mod::lemma_div_multiples_vanish((SCALE - t) as int, SCALE as int);
        assert(0 <= t * top <= t * SCALE) by (nonlinear_arith)
            requires
                0 <= t,
                0 <= top <= SCALE,
        ;
        crate::fixed::lemma_tdiv_ordered(t * top, t * (SCALE as int), SCALE as int);
        vstd::arithmetic::div_mod::lemma_div_multiples_vanish(t as int, SCALE as int);
        vstd::arithmetic::div_mod::lemma_div_pos_is_pos(t * top, SCALE as int);
        assert(((SCALE - t) as int) * (SCALE as int) <= (SCALE as int) * SCALE) by (nonlinear_arith)
            requires
                0 <= t <= SCALE,
        ;
        lemma_tdiv_le(((SCALE - t) as int) * (SCALE as int), SCALE as int, SCALE as int);
        lemma_tdiv_le(t * top, SCALE as int, SCALE as int);
    }
    let white: i64 = fx_mul(SCALE - t, SCALE, Ghost(SCALE as int));
    let col: i64 = fx_mul(t, top, Ghost(SCALE as int));
    white + col
}

/// The sky gradient: the direction normalized, its y remapped from
/// [-1, 1] to [0, 1], then a linear blend from white to the zenith blue
/// (0.5, 0.7, 1.0).
pub open spec fn sky_spec(r: Ray) -> V3i {
    let u = unit_spec(r.dir@);
    let t = half_plus_spec(u.y);
    V3i {
        x: blend_spec(t, 500_000),
        y: blend_spec(t, 700_000),
        z: blend_spec(t, SCALE as int),
    }
}

/// The color of the demonstration sphere: the unit normal at the hit
/// point, remapped componentwise to [0, 1].
pub open spec fn demo_color_spec(r: Ray, t: int) -> V3i {
    let n = unit_spec(sub_spec(at_spec(r, t), demo_center()));
    V3i { x: half_plus_spec(n.x), y: half_plus_spec(n.y), z: half_plus_spec(n.z) }
}

/// Whether the miss path shows the demonstration sphere: its root test is
/// positive, within the parameter range, and the hit point keeps the
/// normal computation within coordinate range and nondegenerate.
pub open spec fn demo_visible(r: Ray) -> bool {
    let t = hit_sphere_spec(demo_center(), DEMO_RADIUS as int, r);
    let d = sub_spec(at_spec(r, t), demo_center());
    &&& 0 < t <= T_MAX_FX
    &&& in_range(d)
    &&& dot_spec(d, d) > 0
}

/// What a ray that hits nothing in the scene evaluates to: the
/// demonstration sphere if visible, else the sky gradient.
pub open spec fn miss_color_spec(r: Ray) -> V3i {
    if demo_visible(r) {
        demo_color_spec(r, hit_sphere_spec(demo_center(), DEMO_RADIUS as int, r))
    } else {
        sky_spec(r)
    }
}

pub open spec fn black() -> V3i {
    V3i { x: 0, y: 0, z: 0 }
}

/// A color channel triple within [0, 1].
pub open spec fn color_in_unit(c: V3i) -> bool {
    &&& 0 <= c.x <= SCALE
    &&& 0 <= c.y <= SCALE
    &&& 0 <= c.z <= SCALE
}

/// Half of each channel: one diffuse bounce at 0.5 albedo.
fn half_color(c: &Vec3) -> (r: Vec3)
    requires
        color_in_unit(c@),
    ensures
        r@.x == fmul(HALF as int, c@.x),
        r@.y == fmul(HALF as int, c@.y),
        r@.z == fmul(HALF as int, c@.z),
        color_in_unit(r@),
        r@.x <= HALF && r@.y <= HALF && r@.z <= HALF,
{
    proof {
        lemma_half_channel(c@.x);
        lemma_half_channel(c@.y);
        lemma_half_channel(c@.z);
    }
    Vec3 {
        x: fx_mul(HALF, c.x, Ghost(SCALE as int)),
        y: fx_mul(HALF, c.y, Ghost(SCALE as int)),
        z: fx_mul(HALF, c.z, Ghost(SCALE as int)),
    }
}

proof fn lemma_half_channel(v: int)
    requires
        0 <= v <= SCALE,
    ensures
        0 <= (HALF as int) * v <= (SCALE as int) * SCALE,
        0 <= fmul(HALF as int, v) <= HALF,
{
    assert(0 <= (HALF as int) * v <= (HALF as int) * SCALE) by (nonlinear_arith)
        requires
            0 <= v <= SCALE,
    ;
    lemma_tdiv_le((HALF as int) * v, SCALE as int, HALF as int);
    vstd::arithmetic::div_mod::lemma_div_pos_is_pos((HALF as int) * v, SCALE as int);
}

/// The full model of the shading routine: the color it returns and the
/// generator state it leaves behind, as a function of the ray, the
/// scene's primitives, the recursion depth, and the incoming state.
///
/// At depth zero: black, state untouched. On a scene hit: one unit-sphere
/// sample is drawn, the bounce ray leaves the nearest hit point toward
/// normal + sample, and the recursive color is halved (the fixed 0.5
/// albedo); bounce geometry outside the coordinate range, or with a
/// squared length below one quantum, falls back to black. On a miss:
/// exactly `miss_color_spec`, state untouched.
pub open spec fn ray_color_spec(r: Ray, ss: Seq<Sphere>, depth: int, s: u64) -> (V3i, u64)
    decreases depth,
{
    if depth <= 0 {
        (black(), s)
    } else {
        match scene_hit_t(ss, r, 0, T_MAX_FX as int) {
            Some(p) => {
                let t = p.1;
                let hp = at_spec(r, t);
                let n = hit_normal_spec(ss[p.0], r, t);
                let (v, s1) = sphere_sample(s, SAMPLE_ATTEMPTS as int);
                let d = V3i { x: n.x + v.x, y: n.y + v.y, z: n.z + v.z };
                if in_range(hp) && in_range(n) && in_range(d) && dot_spec(d, d) > 0 {
                    let bounce = Ray {
                        orig: Vec3 { x: hp.x as i64, y: hp.y as i64, z: hp.z as i64 },
                        dir: Vec3 { x: d.x as i64, y: d.y as i64, z: d.z as i64 },
                    };
                    let (child, s2) = ray_color_spec(bounce, ss, depth - 1, s1);
                    (
                        V3i {
                            x: fmul(HALF as int, child.x),
                            y: fmul(HALF as int, child.y),
                            z: fmul(HALF as int, child.z),
                        },
                        s2,
                    )
                } else {
                    (black(), s1)
                }
            },
            None => (miss_color_spec(r), s),
        }
    }
}

/// The recursive shading routine.
///
/// The result and the generator state are pinned exactly to
/// `ray_color_spec` of the incoming state. In particular: at depth zero
/// all energy is absorbed and exactly black comes back; on a scene hit, a
/// diffuse bounce ray is cast from the reported nearest hit point toward
/// the normal plus the drawn unit-sphere sample, and the recursive color
/// is halved (the fixed 0.5 albedo), so every channel ends up at most one
/// half; on a miss the result is exactly `miss_color_spec`: the
/// demonstration sphere when visible, else the sky gradient. Every
/// channel of every result lies in [0, 1].
pub fn ray_color(r: &Ray, world: &Scene, depth: i32, rng: &mut Rng) -> (c: Color)
    requires
        world.wf(),
        ray_wf(*r),
    ensures
        c@ == ray_color_spec(*r, world@, depth as int, old(rng)@).0,
        final(rng)@ == ray_color_spec(*r, world@, depth as int, old(rng)@).1,
        color_in_unit(c@),
        depth <= 0 ==> c@ == black(),
        depth > 0 && scene_hit_t(world@, *r, 0, T_MAX_FX as int) is None ==> c@ == miss_color_spec(
            *r,
        ),
        depth > 0 && scene_hit_t(world@, *r, 0, T_MAX_FX as int) is Some ==> c@.x <= HALF
            && c@.y <= HALF && c@.z <= HALF,
    decreases depth,
{
    if depth <= 0 {
        return Vec3 { x: 0, y: 0, z: 0 };
    }

    let found = world.hit(r, 0, T_MAX_FX);
    if let Some(rec) = found {
        let ghost pm = scene_hit_t(world@, *r, 0, T_MAX_FX as int)->Some_0;
        let ghost hp = at_spec(*r, pm.1);
        let ghost n = hit_normal_spec(world@[pm.0], *r, pm.1);
        let rv = random_in_unit_sphere(rng);
        let ghost d = (V3i { x: n.x + rv@.x, y: n.y + rv@.y, z: n.z + rv@.z });
        proof {
            assert(rec.p@ == hp && rec.normal@ == n);
        }
        if vec_in_range(&rec.p) && vec_in_range(&rec.normal) {
            let direction = rec.normal.add(&rv);
            proof {
                assert(direction@ == d);
            }
            if vec_in_range(&direction) {
                let dsq: i64 = length_squared(&direction);
                if dsq > 0 {
                    proof {
                        assert(rec.p == (Vec3 { x: hp.x as i64, y: hp.y as i64, z: hp.z as i64 }));
                        assert(direction == (Vec3 { x: d.x as i64, y: d.y as i64, z: d.z as i64 }));
                    }
                    let bounce = Ray::new(rec.p, direction);
                    let child = ray_color(&bounce, world, depth - 1, rng);
                    return half_color(&child);
                }
            }
        }
        return Vec3 { x: 0, y: 0, z: 0 };
    }

    let dc = demo_center_vec();
    let t: i64 = hit_sphere(&dc, DEMO_RADIUS, r);
    if 0 < t && t <= T_MAX_FX {
        let p = r.at(t);
        let d = p.sub(&dc);
        if vec_in_range(&d) {
            let dd: i64 = length_squared(&d);
            if dd > 0 {
                let n = unit_vector(&d);
                return Vec3 { x: half_plus(n.x), y: half_plus(n.y), z: half_plus(n.z) };
            }
        }
    }

    let u = unit_vector(&r.direction());
    let tt: i64 = half_plus(u.y);
    Vec3 { x: blend(tt, 500_000), y: blend(tt, 700_000), z: blend(tt, SCALE) }
}

} // verus!
