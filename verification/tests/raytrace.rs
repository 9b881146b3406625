// Tests exercise the library end to end with the fixed-point scale of
// 1_000_000 standing for 1.0.

use raytrace::color::channel_byte;
use raytrace::fixed::{SCALE, T_MAX_FX};
use raytrace::vec3::{dot, length, length_squared, unit_vector, Vec3};
use raytrace::ray::Ray;
use raytrace::sphere::Sphere;
use raytrace::scene::Scene;
use raytrace::shade::{hit_sphere, ray_color, DEMO_RADIUS};
use raytrace::rng::{random_in_unit_sphere, Rng};

fn v(x: i64, y: i64, z: i64) -> Vec3 {
    Vec3::new(x, y, z)
}

#[test]
fn dot_product_hand_value() {
    let a = v(1_000_000, 2_000_000, 3_000_000);
    let b = v(4_000_000, 5_000_000, 6_000_000);
    assert_eq!(dot(&a, &b), 32_000_000);
}

#[test]
fn length_of_three_four_five() {
    let a = v(0, 3_000_000, 4_000_000);
    assert_eq!(length_squared(&a), 25_000_000);
    assert_eq!(length(&a), 5_000_000);
}

#[test]
fn unit_vector_exact() {
    let a = v(0, 3_000_000, 4_000_000);
    let u = unit_vector(&a);
    assert_eq!(u, v(0, 600_000, 800_000));
}

#[test]
fn ray_accessors_and_at() {
    let r = Ray::new(v(1_000_000, 2_000_000, 3_000_000), v(0, 0, -1_000_000));
    assert_eq!(r.origin(), v(1_000_000, 2_000_000, 3_000_000));
    assert_eq!(r.direction(), v(0, 0, -1_000_000));
    assert_eq!(r.at(500_000), v(1_000_000, 2_000_000, 2_500_000));
}

#[test]
fn sphere_hit_head_on() {
    let s = Sphere::new(v(0, 0, -1_000_000), 500_000);
    let r = Ray::new(v(0, 0, 0), v(0, 0, -1_000_000));
    let rec = s.hit(&r, 0, T_MAX_FX).expect("head-on ray must hit");
    assert_eq!(rec.t, 500_000);
    assert_eq!(rec.p, v(0, 0, -500_000));
    assert_eq!(rec.normal, v(0, 0, 1_000_000));
    assert!(rec.front_face);
}

#[test]
fn sphere_hit_grazing() {
    // The ray runs along -z exactly one radius above the center: the
    // discriminant is exactly zero and the double root is t = 2.
    let s = Sphere::new(v(0, 500_000, -2_000_000), 500_000);
    let r = Ray::new(v(0, 0, 0), v(0, 0, -1_000_000));
    let rec = s.hit(&r, 0, T_MAX_FX).expect("grazing ray must hit");
    assert_eq!(rec.t, 2_000_000);
    assert_eq!(rec.normal, v(0, 1_000_000, 0));
    assert!(!rec.front_face);
}

#[test]
fn sphere_miss_entirely() {
    let s = Sphere::new(v(0, 10_000_000, -2_000_000), 500_000);
    let r = Ray::new(v(0, 0, 0), v(0, 0, -1_000_000));
    assert!(s.hit(&r, 0, T_MAX_FX).is_none());
}

#[test]
fn sphere_hit_respects_interval() {
    let s = Sphere::new(v(0, 0, -1_000_000), 500_000);
    let r = Ray::new(v(0, 0, 0), v(0, 0, -1_000_000));
    // Both roots (0.5 and 1.5) lie outside (0, 0.4): no hit.
    assert!(s.hit(&r, 0, 400_000).is_none());
    // Only the far root lies inside (0.6, 2): the larger root is taken.
    let rec = s.hit(&r, 600_000, 2_000_000).expect("far root lies inside");
    assert_eq!(rec.t, 1_500_000);
    // The inward-facing normal is flipped toward the ray.
    assert_eq!(rec.normal, v(0, 0, 1_000_000));
    assert!(!rec.front_face);
}

#[test]
fn scene_empty_always_misses() {
    let scene = Scene::new();
    let r = Ray::new(v(0, 0, 0), v(0, 0, -1_000_000));
    assert!(scene.hit(&r, 0, T_MAX_FX).is_none());
    let r2 = Ray::new(v(5_000_000, -3_000_000, 1_000_000), v(1_000_000, 1_000_000, 1_000_000));
    assert!(scene.hit(&r2, -1_000_000, 1_000_000).is_none());
}

fn two_sphere_scene() -> Scene {
    let mut scene = Scene::new();
    scene.add(Sphere::new(v(0, 0, -1_000_000), 500_000));
    scene.add(Sphere::new(v(0, -100_500_000, -1_000_000), 100_000_000));
    scene
}

#[test]
fn scene_two_spheres_nearest_hit() {
    let scene = two_sphere_scene();
    let r = Ray::new(v(0, 0, 0), v(0, 0, -1_000_000));
    let rec = scene.hit(&r, 0, T_MAX_FX).expect("axis ray must hit the small sphere");
    assert_eq!(rec.t, 500_000);
    assert_eq!(rec.p, v(0, 0, -500_000));
    assert_eq!(rec.normal, v(0, 0, 1_000_000));
}

#[test]
fn scene_order_does_not_change_nearest() {
    let mut scene = Scene::new();
    scene.add(Sphere::new(v(0, -100_500_000, -1_000_000), 100_000_000));
    scene.add(Sphere::new(v(0, 0, -1_000_000), 500_000));
    let r = Ray::new(v(0, 0, 0), v(0, 0, -1_000_000));
    let rec = scene.hit(&r, 0, T_MAX_FX).expect("axis ray must hit the small sphere");
    assert_eq!(rec.t, 500_000);
}

#[test]
fn scene_nearest_among_overlapping() {
    // Two spheres straddling the axis; the closer surface wins.
    let mut scene = Scene::new();
    scene.add(Sphere::new(v(0, 0, -3_000_000), 500_000));
    scene.add(Sphere::new(v(0, 0, -1_000_000), 500_000));
    let r = Ray::new(v(0, 0, 0), v(0, 0, -1_000_000));
    let rec = scene.hit(&r, 0, T_MAX_FX).expect("hit");
    assert_eq!(rec.t, 500_000);
}

#[test]
fn scene_hit_within_interval_only() {
    let scene = two_sphere_scene();
    let r = Ray::new(v(0, 0, 0), v(0, 0, -1_000_000));
    // Every root of the small sphere lies outside (0, 0.25); the big
    // sphere misses this ray entirely.
    assert!(scene.hit(&r, 0, 250_000).is_none());
}

#[test]
fn scene_hit_idempotent() {
    let scene = two_sphere_scene();
    let r = Ray::new(v(0, 0, 0), v(0, 0, -1_000_000));
    let rec1 = scene.hit(&r, 0, T_MAX_FX);
    let rec2 = scene.hit(&r, 0, T_MAX_FX);
    assert_eq!(rec1, rec2);
    let g1 = scene.hit(&r, -1_000_000, 400_000);
    let g2 = scene.hit(&r, -1_000_000, 400_000);
    assert_eq!(g1, g2);
}

#[test]
fn hit_normals_are_unit_length() {
    // Within a few fixed-point quanta of 1.0 (the format resolves 1e-6).
    let scene = two_sphere_scene();
    let dirs = [
        v(0, 0, -1_000_000),
        v(100_000, 0, -1_000_000),
        v(-150_000, 120_000, -1_000_000),
        v(0, -300_000, -1_000_000),
        v(250_000, 250_000, -1_000_000),
    ];
    let mut hits: u32 = 0;
    for d in dirs.iter() {
        let r = Ray::new(v(0, 0, 0), *d);
        if let Some(rec) = scene.hit(&r, 0, T_MAX_FX) {
            hits += 1;
            let n2 = length_squared(&rec.normal);
            assert!(
                (n2 - SCALE).abs() <= 20,
                "normal length squared {} too far from one",
                n2
            );
        }
    }
    assert!(hits >= 3);
}

#[test]
fn demo_sphere_test_values() {
    // Head-on at the demonstration sphere: a = 1, half_b = -2,
    // c = 4 - 0.25, D = 4 - 3.75 = 0.25, smaller root (2 - 0.5)/1 = 1.5.
    let center = v(0, 0, -2_000_000);
    let r = Ray::new(v(0, 0, 0), v(0, 0, -1_000_000));
    assert_eq!(hit_sphere(&center, DEMO_RADIUS, &r), 1_500_000);
    // From inside the sphere the smaller root is behind the origin:
    // half_b = -0.4, c = 0.16 - 0.25, D = 0.16 + 0.09 = 0.25, root -0.1.
    let r2 = Ray::new(v(0, 0, -1_600_000), v(0, 0, -1_000_000));
    assert_eq!(hit_sphere(&center, DEMO_RADIUS, &r2), -100_000);
}

#[test]
fn hit_sphere_grazing_and_nearest_root() {
    // Grazing: the ray runs one radius beside the center, so the
    // discriminant is exactly zero and the double root is t = 1.
    let unit_offset = v(0, 0, -1_000_000);
    let graze = Ray::new(v(500_000, 0, 0), v(0, 0, -1_000_000));
    assert_eq!(hit_sphere(&unit_offset, 500_000, &graze), 1_000_000);
    // Head-on at the small sphere of the two-sphere scene: roots 0.5 and
    // 1.5, the smaller returned.
    let axis = Ray::new(v(0, 0, 0), v(0, 0, -1_000_000));
    assert_eq!(hit_sphere(&unit_offset, 500_000, &axis), 500_000);
    // A clean miss keeps the -1.0 sentinel.
    let ground = v(0, -100_500_000, -1_000_000);
    assert_eq!(hit_sphere(&ground, 100_000_000, &axis), -1_000_000);
}

#[test]
fn ray_color_empty_scene_shows_demo_sphere() {
    // With nothing in the scene, the miss path evaluates the
    // demonstration sphere: hit at t = 1.5, outward normal (0, 0, 1),
    // colored as half of (normal + 1) per channel.
    let empty = Scene::new();
    let mut rng = Rng::new(7);
    let r = Ray::new(v(0, 0, 0), v(0, 0, -1_000_000));
    let c = ray_color(&r, &empty, 50, &mut rng);
    assert_eq!(c, v(500_000, 500_000, 1_000_000));
}

#[test]
fn ray_color_depth_zero_is_black() {
    let scene = two_sphere_scene();
    let mut rng = Rng::new(7);
    let r = Ray::new(v(0, 0, 0), v(0, 0, -1_000_000));
    let c = ray_color(&r, &scene, 0, &mut rng);
    assert_eq!(c, v(0, 0, 0));
    let empty = Scene::new();
    let c2 = ray_color(&r, &empty, 0, &mut rng);
    assert_eq!(c2, v(0, 0, 0));
}

#[test]
fn ray_color_straight_up_is_sky_top() {
    let scene = two_sphere_scene();
    let mut rng = Rng::new(7);
    let r = Ray::new(v(0, 0, 0), v(0, 1_000_000, 0));
    let c = ray_color(&r, &scene, 50, &mut rng);
    assert_eq!(c, v(500_000, 700_000, 1_000_000));
}

#[test]
fn ray_color_horizontal_is_mid_gradient() {
    let scene = two_sphere_scene();
    let mut rng = Rng::new(7);
    let r = Ray::new(v(0, 0, 0), v(1_000_000, 0, 0));
    let c = ray_color(&r, &scene, 3, &mut rng);
    assert_eq!(c, v(750_000, 850_000, 1_000_000));
}

#[test]
fn ray_color_one_bounce_absorbs_to_black() {
    // Depth one: the hit bounces once, the recursive call bottoms out at
    // black, and half of black is black.
    let scene = two_sphere_scene();
    let mut rng = Rng::new(99);
    let r = Ray::new(v(0, 0, 0), v(0, 0, -1_000_000));
    let c = ray_color(&r, &scene, 1, &mut rng);
    assert_eq!(c, v(0, 0, 0));
}

#[test]
fn ray_color_channels_stay_in_unit_range() {
    let scene = two_sphere_scene();
    let mut rng = Rng::new(12345);
    let dirs = [
        v(0, 0, -1_000_000),
        v(300_000, -200_000, -1_000_000),
        v(0, 1_000_000, 0),
        v(-500_000, 100_000, -900_000),
    ];
    for d in dirs.iter() {
        for depth in [0i32, 1, 5, 50] {
            let r = Ray::new(v(0, 0, 0), *d);
            let c = ray_color(&r, &scene, depth, &mut rng);
            for ch in [c.x, c.y, c.z] {
                assert!((0..=SCALE).contains(&ch), "channel {} out of range", ch);
            }
        }
    }
}

#[test]
fn rng_ranges() {
    let mut rng = Rng::new(42);
    for _ in 0..200 {
        let u = rng.next_unit();
        assert!((0..SCALE).contains(&u));
        let s = rng.next_symmetric();
        assert!((-SCALE..SCALE).contains(&s));
    }
}

#[test]
fn random_in_unit_sphere_is_inside() {
    let mut rng = Rng::new(271828);
    for _ in 0..100 {
        let p = random_in_unit_sphere(&mut rng);
        assert!(length_squared(&p) < SCALE);
        for ch in [p.x, p.y, p.z] {
            assert!((-SCALE..=SCALE).contains(&ch));
        }
    }
}

#[test]
fn ray_color_hit_halves_energy() {
    // Any scene hit scales the recursive color by the 0.5 albedo, so no
    // channel of a hitting ray can exceed one half.
    let scene = two_sphere_scene();
    let mut rng = Rng::new(31337);
    let r = Ray::new(v(0, 0, 0), v(0, 0, -1_000_000));
    for _ in 0..20 {
        let c = ray_color(&r, &scene, 50, &mut rng);
        for ch in [c.x, c.y, c.z] {
            assert!((0..=SCALE / 2).contains(&ch), "channel {} above half", ch);
        }
    }
}

#[test]
fn channel_byte_mapping() {
    // Full white over 100 samples clamps at 0.999 and maps to 255.
    assert_eq!(channel_byte(100_000_000, 100), 255);
    // Half intensity maps to 128, sky-top green (0.7) to 179.
    assert_eq!(channel_byte(50_000_000, 100), 128);
    assert_eq!(channel_byte(70_000_000, 100), 179);
    // Negative accumulations clamp to zero; tiny ones truncate to zero.
    assert_eq!(channel_byte(-5_000_000, 100), 0);
    assert_eq!(channel_byte(390_600, 100), 0);
    assert_eq!(channel_byte(0, 1), 0);
}

#[test]
fn rng_stream_reproducible() {
    // The generator is a pure function of its seed: two instances with
    // the same seed produce the same stream.
    let mut a = Rng::new(99);
    let mut b = Rng::new(99);
    for _ in 0..50 {
        assert_eq!(a.next_unit(), b.next_unit());
        assert_eq!(a.next_symmetric(), b.next_symmetric());
    }
}

#[test]
fn ray_color_reproducible_from_seed() {
    // The shading routine is pinned to the generator stream, so a fixed
    // seed reproduces the full bounce cascade exactly.
    let scene = two_sphere_scene();
    let r = Ray::new(v(0, 0, 0), v(0, 0, -1_000_000));
    for depth in [1i32, 3, 10, 50] {
        let mut rng1 = Rng::new(12345);
        let mut rng2 = Rng::new(12345);
        let c1 = ray_color(&r, &scene, depth, &mut rng1);
        let c2 = ray_color(&r, &scene, depth, &mut rng2);
        assert_eq!(c1, c2);
    }
}
