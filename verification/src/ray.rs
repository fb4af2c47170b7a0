//! A ray: an origin plus a direction, parameterized by a raw distance t.

use vstd::prelude::*;
use crate::vec3::{Vec3, Rvec, rv_add, rv_scale};

verus! {

pub type Point3 = crate::vec3::Vec3;

/// The mathematical model of a ray.
pub ghost struct Rray {
    pub orig: Rvec,
    pub dir: Rvec,
}

/// The point reached after travelling a raw distance `t` along the ray.
pub open spec fn ray_at(o: Rvec, d: Rvec, t: int) -> Rvec {
    rv_add(o, rv_scale(d, t))
}

#[derive(Clone, Copy, Debug)]
pub struct Ray {
    orig: Point3,
    dir: Vec3,
}

impl View for Ray {
    type V = Rray;

    closed spec fn view(&self) -> Rray {
        Rray { orig: self.orig@, dir: self.dir@ }
    }
}

impl Ray {
    pub fn from(origin: Point3, direction: Vec3) -> (r: Self)
        ensures
            r@.orig == origin@,
            r@.dir == direction@,
    {
        Self { orig: origin, dir: direction }
    }

    pub fn at(&self, t: i64) -> (r: Point3)
        ensures
            r@ == ray_at(self@.orig, self@.dir, t as int),
    {
        self.orig.add(self.dir.mul(t))
    }

    pub fn origin(&self) -> (r: Point3)
        ensures
            r@ == self@.orig,
    {
        self.orig
    }

    pub fn direction(&self) -> (r: Vec3)
        ensures
            r@ == self@.dir,
    {
        self.dir
    }
}

} // verus!
