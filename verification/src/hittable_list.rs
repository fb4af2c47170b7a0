//! The aggregate surface: a linear scan that returns the globally nearest
//! hit across all contained spheres.

use vstd::prelude::*;
use crate::hittable::HitRecord;
use crate::ray::Ray;
use crate::sphere::{
    Sphere, sphere_root, record_fields_for, lemma_sphere_root_narrow, lemma_sphere_root_widen,
};
use crate::utility::Interval;

verus! {

/// Every contained sphere has a usable radius.
pub open spec fn spheres_wf(objs: Seq<Sphere>) -> bool {
    forall|i: int| 0 <= i < objs.len() ==> (#[trigger] objs[i]).radius >= 1
}

pub struct HittableList {
    objects: Vec<Sphere>,
}

impl View for HittableList {
    type V = Seq<Sphere>;

    closed spec fn view(&self) -> Seq<Sphere> {
        self.objects@
    }
}

impl Default for HittableList {
    fn default() -> (r: Self)
        ensures
            r@.len() == 0,
    {
        HittableList { objects: Vec::new() }
    }
}

impl HittableList {
    pub fn add(&mut self, object: Sphere)
        ensures
            final(self)@ == old(self)@.push(object),
    {
        self.objects.push(object);
    }

    pub fn clear(&mut self)
        ensures
            final(self)@.len() == 0,
    {
        self.objects.clear()
    }

    /// How many surfaces the list holds.
    pub fn len(&self) -> (r: usize)
        ensures
            r == self@.len(),
    {
        self.objects.len()
    }

    /// The nearest valid hit across all surfaces: some sphere reports the
    /// returned record over the full interval, and no sphere at all hits
    /// strictly closer; when nothing is returned, no sphere hits anywhere in
    /// the interval.
    pub fn hit(&self, r: &Ray, ray_t: Interval) -> (res: Option<HitRecord>)
        requires
            spheres_wf(self@),
        ensures
            res is None ==> forall|j: int|
                0 <= j < self@.len() ==> sphere_root(
                    #[trigger] self@[j],
                    r@.orig,
                    r@.dir,
                    ray_t.min as int,
                    ray_t.max as int,
                ) is None,
            res is Some ==> ray_t.min < (res->0).t < ray_t.max,
            res is Some ==> exists|i: int|
                0 <= i < self@.len() && sphere_root(
                    #[trigger] self@[i],
                    r@.orig,
                    r@.dir,
                    ray_t.min as int,
                    ray_t.max as int,
                ) == Some((res->0).t as int) && record_fields_for(
                    self@[i],
                    r@.orig,
                    r@.dir,
                    res->0,
                    (res->0).t as int,
                ),
            res is Some ==> forall|j: int|
                0 <= j < self@.len() ==> sphere_root(
                    #[trigger] self@[j],
                    r@.orig,
                    r@.dir,
                    ray_t.min as int,
                    (res->0).t as int,
                ) is None,
    {
        let ghost o = r@.orig;
        let ghost d = r@.dir;
        let ghost tmin = ray_t.min as int;
        let ghost tmax = ray_t.max as int;

        let mut hit_anything: Option<HitRecord> = None;
        let mut closest_so_far: i64 = ray_t.max;

        let mut idx: usize = 0;
        while idx < self.objects.len()
            invariant
                spheres_wf(self@),
                idx <= self.objects.len(),
                o == r@.orig && d == r@.dir && tmin == ray_t.min as int && tmax == ray_t.max as int,
                hit_anything is None ==> closest_so_far == ray_t.max,
                hit_anything is None ==> forall|j: int|
                    0 <= j < idx ==> sphere_root(#[trigger] self@[j], o, d, tmin, tmax) is None,
                hit_anything is Some ==> {
                    &&& closest_so_far == (hit_anything->0).t
                    &&& tmin < closest_so_far as int
                    &&& (closest_so_far as int) < tmax
                    &&& exists|i: int|
                        0 <= i < idx && sphere_root(#[trigger] self@[i], o, d, tmin, tmax)
                            == Some(closest_so_far as int) && record_fields_for(
                            self@[i],
                            o,
                            d,
                            hit_anything->0,
                            closest_so_far as int,
                        )
                    &&& forall|j: int|
                        0 <= j < idx ==> sphere_root(
                            #[trigger] self@[j],
                            o,
                            d,
                            tmin,
                            closest_so_far as int,
                        ) is None
                },
            decreases self.objects.len() - idx,
        {
            let obj: &Sphere = &self.objects[idx];
            let narrowed: Interval = Interval::from(ray_t.min, closest_so_far);
            let attempt: Option<HitRecord> = obj.hit(r, narrowed);
            match attempt {
                Some(rec) => {
                    proof {
                        let prev_max = closest_so_far as int;
                        let t = rec.t as int;
                        // The new record really is this sphere's root over
                        // the full interval.
                        lemma_sphere_root_widen(self@[idx as int], o, d, tmin, prev_max, tmax);
                        // Nothing seen so far, this sphere included, hits
                        // strictly before the new record.
                        assert forall|j: int| 0 <= j < idx + 1 implies sphere_root(
                            #[trigger] self@[j],
                            o,
                            d,
                            tmin,
                            t,
                        ) is None by {
                            lemma_sphere_root_narrow(self@[j], o, d, tmin, prev_max, t);
                        }
                    }
                    closest_so_far = rec.t;
                    hit_anything = Some(rec);
                }
                None => {
                    proof {
                        if hit_anything is None {
                            assert(sphere_root(self@[idx as int], o, d, tmin, tmax) is None);
                        }
                    }
                }
            }
            idx += 1;
        }
        hit_anything
    }
}

} // verus!
