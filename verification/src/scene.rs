//! The scene: an ordered collection of spheres, with nearest-hit
//! resolution. Every primitive is tested with the closest parameter found
//! so far as the upper bound, so later primitives can only improve on the
//! running nearest hit; insertion order only breaks ties, in favor of the
//! earlier primitive, when two spheres share the nearest parameter.

use vstd::prelude::*;
use crate::fixed::T_MAX_FX;
use crate::ray::{Ray, ray_wf};
use crate::hittable::HitRecord;
use crate::sphere::{
    Sphere, sphere_hit_t, hit_rec_match, a_spec, disc_spec, root1_spec, root2_spec,
    lemma_roots_ordered,
};

verus! {

/// An ordered scene of sphere primitives.
pub struct Scene {
    pub spheres: Vec<Sphere>,
}

impl View for Scene {
    type V = Seq<Sphere>;

    open spec fn view(&self) -> Seq<Sphere> {
        self.spheres@
    }
}

/// The parameter (and which sphere attains it) of the nearest hit within
/// (t_min, t_max), resolved left to right with a tightening upper bound.
pub open spec fn scene_hit_t(ss: Seq<Sphere>, r: Ray, t_min: int, t_max: int) -> Option<(int, int)>
    decreases ss.len(),
{
    if ss.len() == 0 {
        None
    } else {
        let prev = scene_hit_t(ss.drop_last(), r, t_min, t_max);
        let upper = match prev {
            Some(p) => p.1,
            None => t_max,
        };
        match sphere_hit_t(ss.last(), r, t_min, upper) {
            Some(t) => Some((ss.len() - 1, t)),
            None => prev,
        }
    }
}

/// The full contract of `Scene::hit`, as one predicate.
pub open spec fn scene_hit_post(
    ss: Seq<Sphere>,
    r: Ray,
    t_min: int,
    t_max: int,
    res: Option<HitRecord>,
) -> bool {
    match res {
        None => scene_hit_t(ss, r, t_min, t_max) is None,
        Some(rec) => match scene_hit_t(ss, r, t_min, t_max) {
            Some(p) => {
                &&& 0 <= p.0 < ss.len()
                &&& p.1 == rec.t as int
                &&& hit_rec_match(ss[p.0], r, rec.t as int, rec)
            },
            None => false,
        },
    }
}

impl Scene {
    /// Every primitive of the scene is well formed.
    pub open spec fn wf(self) -> bool {
        forall|i: int| 0 <= i < self@.len() ==> (#[trigger] self@[i]).wf()
    }

    pub fn new() -> (s: Scene)
        ensures
            s@ == Seq::<Sphere>::empty(),
            s.wf(),
    {
        let s = Scene { spheres: Vec::new() };
        proof {
            assert(s@ =~= Seq::<Sphere>::empty());
        }
        s
    }

    /// Append a primitive; the scene owns it from then on.
    pub fn add(&mut self, s: Sphere)
        requires
            s.wf(),
            old(self).wf(),
        ensures
            final(self)@ == old(self)@.push(s),
            final(self).wf(),
    {
        self.spheres.push(s);
        proof {
            assert forall|i: int| 0 <= i < self@.len() implies (#[trigger] self@[i]).wf() by {
                if i < old(self)@.len() {
                    assert(self@[i] == old(self)@[i]);
                } else {
                    assert(self@[i] == s);
                }
            }
        }
    }

    /// How many primitives the scene holds.
    pub fn len(&self) -> (n: usize)
        ensures
            n == self@.len(),
    {
        self.spheres.len()
    }

    /// Nearest-hit resolution: scan every primitive, keeping the closest
    /// parameter found so far as the new upper bound.
    pub fn hit(&self, r: &Ray, t_min: i64, t_max: i64) -> (res: Option<HitRecord>)
        requires
            self.wf(),
            ray_wf(*r),
            -T_MAX_FX <= t_min <= T_MAX_FX,
            -T_MAX_FX <= t_max <= T_MAX_FX,
        ensures
            scene_hit_post(self@, *r, t_min as int, t_max as int, res),
            res matches Some(rec) ==> t_min < rec.t < t_max,
    {
        let n: usize = self.spheres.len();
        let mut res: Option<HitRecord> = None;
        let mut closest: i64 = t_max;
        let mut i: usize = 0;
        while i < n
            invariant
                i <= n,
                n == self@.len(),
                self.wf(),
                ray_wf(*r),
                -T_MAX_FX <= t_min <= T_MAX_FX,
                -T_MAX_FX <= t_max <= T_MAX_FX,
                -T_MAX_FX <= closest <= T_MAX_FX,
                scene_hit_post(self@.take(i as int), *r, t_min as int, t_max as int, res),
                closest as int == match scene_hit_t(self@.take(i as int), *r, t_min as int, t_max as int) {
                    Some(p) => p.1,
                    None => t_max as int,
                },
            decreases n - i,
        {
            let s: Sphere = self.spheres[i];
            let found = s.hit(r, t_min, closest);
            proof {
                assert(self@.take(i as int + 1).drop_last() =~= self@.take(i as int));
                assert(self@.take(i as int + 1).last() == self@[i as int]);
            }
            match found {
                Some(rec) => {
                    closest = rec.t;
                    res = Some(rec);
                },
                None => {},
            }
            i = i + 1;
        }
        proof {
            assert(self@.take(n as int) =~= self@);
            lemma_scene_hit_nearest(self@, *r, t_min as int, t_max as int);
        }
        res
    }
}

/// A scene with no primitives reports no hit, whatever the ray and the
/// interval.
pub proof fn lemma_scene_empty_misses(r: Ray, t_min: int, t_max: int)
    ensures
        scene_hit_t(Seq::<Sphere>::empty(), r, t_min, t_max) is None,
{
}

/// A quadratic root of the sphere that lies strictly inside the interval.
pub open spec fn is_root_within(s: Sphere, r: Ray, rt: int, t_min: int, t_max: int) -> bool {
    &&& disc_spec(s, r) >= 0
    &&& (rt == root1_spec(s, r) || rt == root2_spec(s, r))
    &&& t_min < rt < t_max
}

/// The nearest-hit sweep is sound and minimal: a reported hit lies
/// strictly inside (t_min, t_max), is attained by one of the scene's
/// spheres, and no sphere attains a smaller parameter inside the interval;
/// when no hit is reported, no sphere has a root inside the interval.
pub proof fn lemma_scene_hit_nearest(ss: Seq<Sphere>, r: Ray, t_min: int, t_max: int)
    requires
        a_spec(r) > 0,
    ensures
        match scene_hit_t(ss, r, t_min, t_max) {
            Some(p) => {
                &&& 0 <= p.0 < ss.len()
                &&& t_min < p.1 < t_max
                &&& is_root_within(ss[p.0], r, p.1, t_min, t_max)
                &&& forall|j: int, rt: int|
                    0 <= j < ss.len() && #[trigger] is_root_within(ss[j], r, rt, t_min, t_max)
                        ==> p.1 <= rt
            },
            None => forall|j: int, rt: int|
                0 <= j < ss.len() ==> !(#[trigger] is_root_within(ss[j], r, rt, t_min, t_max)),
        },
    decreases ss.len(),
{
    if ss.len() == 0 {
    } else {
        let prefix = ss.drop_last();
        lemma_scene_hit_nearest(prefix, r, t_min, t_max);
        let prev = scene_hit_t(prefix, r, t_min, t_max);
        let upper = match prev {
            Some(p) => p.1,
            None => t_max,
        };
        let tail = ss.last();
        let cur = sphere_hit_t(tail, r, t_min, upper);
        assert(forall|j: int| 0 <= j < prefix.len() ==> prefix[j] == ss[j]);
        match cur {
            Some(t) => {
                lemma_roots_ordered(tail, r);
                assert forall|j: int, rt: int|
                    0 <= j < ss.len() && #[trigger] is_root_within(ss[j], r, rt, t_min, t_max)
                        implies t <= rt by {
                    if j < ss.len() - 1 {
                        assert(is_root_within(prefix[j], r, rt, t_min, t_max));
                    }
                }
            },
            None => {
                match prev {
                    Some(p) => {
                        assert forall|j: int, rt: int|
                            0 <= j < ss.len() && #[trigger] is_root_within(
                                ss[j],
                                r,
                                rt,
                                t_min,
                                t_max,
                            ) implies p.1 <= rt by {
                            if j < ss.len() - 1 {
                                assert(is_root_within(prefix[j], r, rt, t_min, t_max));
                            } else {
                                lemma_roots_ordered(tail, r);
                            }
                        }
                    },
                    None => {
                        assert forall|j: int, rt: int| 0 <= j < ss.len() implies !(
                        #[trigger] is_root_within(ss[j], r, rt, t_min, t_max)) by {
                            if j < ss.len() - 1 {
                                assert(!is_root_within(prefix[j], r, rt, t_min, t_max));
                            }
                        }
                    },
                }
            },
        }
    }
}

/// Two results that both meet the hit contract on the same inputs are the
/// same result: the contract pins the outcome completely, so calling
/// `Scene::hit` twice with identical inputs yields identical records.
pub proof fn lemma_scene_hit_deterministic(
    ss: Seq<Sphere>,
    r: Ray,
    t_min: int,
    t_max: int,
    res1: Option<HitRecord>,
    res2: Option<HitRecord>,
)
    requires
        scene_hit_post(ss, r, t_min, t_max, res1),
        scene_hit_post(ss, r, t_min, t_max, res2),
    ensures
        res1 == res2,
{
    match scene_hit_t(ss, r, t_min, t_max) {
        None => {
        },
        Some(p) => {
            let rec1 = res1->Some_0;
            let rec2 = res2->Some_0;
            assert(rec1.t == rec2.t);
            assert(rec1.p.x == rec2.p.x && rec1.p.y == rec2.p.y && rec1.p.z == rec2.p.z);
            assert(rec1.normal.x == rec2.normal.x && rec1.normal.y == rec2.normal.y
                && rec1.normal.z == rec2.normal.z);
            assert(rec1.p == rec2.p && rec1.normal == rec2.normal);
            assert(rec1 == rec2);
        },
    }
}

} // verus!
