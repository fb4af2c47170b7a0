//! The result of a successful ray/surface intersection.

use vstd::prelude::*;
use crate::material::Material;
use crate::ray::{Point3, Ray};
use crate::vec3::{Vec3, Rvec, rv_neg, rv_dot, dot};

verus! {

/// Position, oriented normal, distance and material of a hit. The material
/// is the one owned by the surface that produced the record.
pub struct HitRecord {
    pub p: Point3,
    pub normal: Vec3,
    pub t: i64,
    pub front_face: bool,
    pub mat: Material,
}

/// The normal stored in a record: the outward normal when the ray comes from
/// outside, its negation when the ray comes from inside.
pub open spec fn oriented_normal(ray_dir: Rvec, outward: Rvec) -> Rvec {
    if rv_dot(ray_dir, outward) < 0 {
        outward
    } else {
        rv_neg(outward)
    }
}

impl HitRecord {
    /// Orient the record against the incoming ray: front-facing exactly when
    /// the ray direction opposes the outward normal.
    pub fn set_face_normal(&mut self, r: &Ray, outward_normal: &Vec3)
        ensures
            final(self).front_face == (rv_dot(r@.dir, outward_normal@) < 0),
            final(self).normal@ == oriented_normal(r@.dir, outward_normal@),
            final(self).p == old(self).p,
            final(self).t == old(self).t,
            final(self).mat == old(self).mat,
    {
        self.front_face = dot(&r.direction(), outward_normal) < 0;
        self.normal = if self.front_face {
            *outward_normal
        } else {
            outward_normal.neg()
        };
    }
}

} // verus!
