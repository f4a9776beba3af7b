//! The scene: an ordered list of surfaces that answers intersection queries
//! with the nearest hit among its members.

use vstd::prelude::*;

verus! {

use crate::fixed::Fx;
use crate::hittable::{HitRecord, Hittable};
use crate::interval::Interval;
use crate::ray::Ray;
use crate::sphere::{Sphere, spec_sphere_hit};

/// An ordered collection of surfaces queried as one.
pub struct HittableList {
    pub objects: Vec<Sphere>,
}

/// The scan from member `i` on, keeping the best hit so far and searching
/// only below it: each member is tested against `[tmin, closest)` and a hit
/// narrows `closest` to its `t`.
pub open spec fn spec_list_hit_from(
    objects: Seq<Sphere>,
    i: int,
    r: Ray,
    tmin: Fx,
    closest: Fx,
    best: Option<HitRecord>,
) -> Option<HitRecord>
    decreases objects.len() - i,
{
    if i < 0 || i >= objects.len() {
        best
    } else {
        match spec_sphere_hit(objects[i], r, Interval { min: tmin, max: closest }) {
            Some(h) => spec_list_hit_from(objects, i + 1, r, tmin, h.t, Some(h)),
            None => spec_list_hit_from(objects, i + 1, r, tmin, closest, best),
        }
    }
}

/// The hit the whole scene reports: the scan over all members starting from
/// the full search interval.
pub open spec fn spec_list_hit(objects: Seq<Sphere>, r: Ray, ray_t: Interval) -> Option<
    HitRecord,
> {
    spec_list_hit_from(objects, 0, r, ray_t.min, ray_t.max, None)
}

impl HittableList {
    /// An empty scene.
    pub fn new() -> (r: Self)
        ensures
            r.objects@ == Seq::<Sphere>::empty(),
    {
        Self { objects: Vec::new() }
    }

    /// Removes every surface.
    pub fn clear(&mut self)
        ensures
            final(self).objects@ == Seq::<Sphere>::empty(),
    {
        self.objects.clear();
    }

    /// Appends a surface to the scene.
    pub fn add(&mut self, object: Sphere)
        ensures
            final(self).objects@ == old(self).objects@.push(object),
    {
        self.objects.push(object);
    }
}

impl Hittable for HittableList {
    open spec fn spec_hit(&self, r: Ray, ray_t: Interval) -> Option<HitRecord> {
        spec_list_hit(self.objects@, r, ray_t)
    }

    fn hit(&self, r: &Ray, ray_t: &Interval, rec: &mut HitRecord) -> (b: bool) {
        let mut temp_rec = HitRecord::new();
        let mut hit_anything: bool = false;
        let mut closest_so_far = ray_t.max;

        let mut i: usize = 0;
        while i < self.objects.len()
            invariant
                i <= self.objects@.len(),
                spec_list_hit(self.objects@, *r, *ray_t) == spec_list_hit_from(
                    self.objects@,
                    i as int,
                    *r,
                    ray_t.min,
                    closest_so_far,
                    if hit_anything {
                        Some(temp_rec)
                    } else {
                        None
                    },
                ),
                hit_anything ==> *rec == temp_rec && closest_so_far == temp_rec.t,
                !hit_anything ==> *rec == *old(rec) && closest_so_far == ray_t.max,
            decreases self.objects@.len() - i,
        {
            let object = &self.objects[i];
            if object.hit(r, &Interval::with_bounds(ray_t.min, closest_so_far), &mut temp_rec) {
                hit_anything = true;
                closest_so_far = temp_rec.t;
                *rec = temp_rec;
            }
            i = i + 1;
        }

        hit_anything
    }
}

/// The invariant of the narrowing scan: with a best hit matching the running
/// bound, the scan's answer is the nearest hit over the remaining members
/// (each judged against the running bound) or the best so far.
#[verifier::rlimit(100)]
#[verifier::spinoff_prover]
proof fn lemma_list_hit_from_nearest(
    objects: Seq<Sphere>,
    i: int,
    r: Ray,
    tmin: Fx,
    closest: Fx,
    best: Option<HitRecord>,
)
    requires
        0 <= i <= objects.len(),
        best matches Some(b) ==> b.t == closest,
    ensures
        ({
            let f = spec_list_hit_from(objects, i, r, tmin, closest, best);
            &&& (best is Some ==> f is Some && f.unwrap().t@ <= best.unwrap().t@)
            &&& (forall|j: int, g: HitRecord|
                i <= j < objects.len() && spec_sphere_hit(
                    objects[j],
                    r,
                    Interval { min: tmin, max: closest },
                ) == Some(g) ==> f is Some && f.unwrap().t@ <= g.t@)
            &&& (f is Some ==> best == f || exists|j: int|
                i <= j < objects.len() && #[trigger] spec_sphere_hit(
                    objects[j],
                    r,
                    Interval { min: tmin, max: closest },
                ) == f)
        }),
    decreases objects.len() - i,
{
    if i == objects.len() {
    } else {
        let sub = spec_sphere_hit(objects[i], r, Interval { min: tmin, max: closest });
        match sub {
            Some(h) => {
                crate::sphere::lemma_sphere_hit_in_interval(
                    objects[i],
                    r,
                    Interval { min: tmin, max: closest },
                );
                lemma_list_hit_from_nearest(objects, i + 1, r, tmin, h.t, Some(h));
                let f = spec_list_hit_from(objects, i + 1, r, tmin, h.t, Some(h));
                assert forall|j: int, g: HitRecord|
                    i <= j < objects.len() && spec_sphere_hit(
                        objects[j],
                        r,
                        Interval { min: tmin, max: closest },
                    ) == Some(g) implies f is Some && f.unwrap().t@ <= g.t@ by {
                    if j == i {
                    } else {
                        crate::sphere::lemma_sphere_hit_narrow(objects[j], r, tmin, closest, h.t);
                        if g.t@ < h.t@ {
                            assert(spec_sphere_hit(
                                objects[j],
                                r,
                                Interval { min: tmin, max: h.t },
                            ) == Some(g));
                        }
                    }
                }
                if f is Some && Some(h) != f {
                    let j = choose|j: int|
                        i + 1 <= j < objects.len() && #[trigger] spec_sphere_hit(
                            objects[j],
                            r,
                            Interval { min: tmin, max: h.t },
                        ) == f;
                    crate::sphere::lemma_sphere_hit_narrow(objects[j], r, tmin, closest, h.t);
                    assert(spec_sphere_hit(objects[j], r, Interval { min: tmin, max: closest })
                        == f);
                }
            },
            None => {
                lemma_list_hit_from_nearest(objects, i + 1, r, tmin, closest, best);
            },
        }
    }
}

/// The scene reports the globally nearest hit: whenever any member reports a
/// hit for the full search interval, the scene reports one, and the scene's
/// `t` is the minimum over all member hits; and any scene hit is some
/// member's hit.
pub proof fn lemma_list_hit_nearest(objects: Seq<Sphere>, r: Ray, ray_t: Interval)
    ensures
        ({
            let f = spec_list_hit(objects, r, ray_t);
            &&& (forall|j: int, g: HitRecord|
                0 <= j < objects.len() && spec_sphere_hit(objects[j], r, ray_t) == Some(g) ==> f
                    is Some && f.unwrap().t@ <= g.t@)
            &&& (f is Some ==> exists|j: int|
                0 <= j < objects.len() && #[trigger] spec_sphere_hit(objects[j], r, ray_t) == f)
        }),
{
    lemma_list_hit_from_nearest(objects, 0, r, ray_t.min, ray_t.max, None);
    assert(Interval { min: ray_t.min, max: ray_t.max } == ray_t);
}

} // verus!
