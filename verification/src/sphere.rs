//! The sphere surface and its ray intersection.

use vstd::prelude::*;
use crate::fixed::{
    fx_add, fx_sub, fx_neg, fx_mul, fx_div, fx_sqrt,
    add_fx, sub_fx, neg_fx, mul_fx, div_fx, sqrt_fx,
    lemma_fx_div_mono, lemma_fx_sqrt_nonneg,
};
use crate::hittable::{HitRecord, oriented_normal};
use crate::material::Material;
use crate::ray::{Point3, Ray, ray_at};
use crate::utility::Interval;
use crate::vec3::{Vec3, Rvec, rv_sub, rv_divs, rv_dot, rv_ls, dot};

verus! {

#[derive(Clone, Copy)]
pub struct Sphere {
    pub center: Point3,
    pub radius: i64,
    pub material: Material,
}

/// The root the quadratic `|o + t d - center|^2 = radius^2` yields inside the
/// open interval `(tmin, tmax)`: the smaller root when it lies inside, else
/// the larger, else nothing. A degenerate direction or a negative
/// discriminant yields nothing.
#[verifier::opaque]
pub open spec fn sphere_root(s: Sphere, o: Rvec, d: Rvec, tmin: int, tmax: int) -> Option<int> {
    let oc = rv_sub(o, s.center@);
    let a = rv_ls(d);
    let half_b = rv_dot(d, oc);
    let c = fx_sub(rv_ls(oc), fx_mul(s.radius as int, s.radius as int));
    let disc = fx_sub(fx_mul(half_b, half_b), fx_mul(a, c));
    if a < 1 {
        None
    } else if disc < 0 {
        None
    } else {
        let sq = fx_sqrt(disc);
        let r1 = fx_div(fx_sub(fx_neg(half_b), sq), a);
        let r2 = fx_div(fx_add(fx_neg(half_b), sq), a);
        if tmin < r1 && r1 < tmax {
            Some(r1)
        } else if tmin < r2 && r2 < tmax {
            Some(r2)
        } else {
            None
        }
    }
}

/// The outward unit normal of the sphere at a surface point.
pub open spec fn sphere_outward(s: Sphere, p: Rvec) -> Rvec
    recommends
        s.radius >= 1,
{
    rv_divs(rv_sub(p, s.center@), s.radius as int)
}

/// The fields a hit record carries when sphere `s` is hit at distance `t`.
pub open spec fn record_fields_for(s: Sphere, o: Rvec, d: Rvec, rec: HitRecord, t: int) -> bool {
    &&& rec.t as int == t
    &&& rec.p@ == ray_at(o, d, t)
    &&& rec.mat == s.material
    &&& rec.front_face == (rv_dot(d, sphere_outward(s, ray_at(o, d, t))) < 0)
    &&& rec.normal@ == oriented_normal(d, sphere_outward(s, ray_at(o, d, t)))
}

/// The full contract of a sphere intersection over `(tmin, tmax)`.
pub open spec fn sphere_hit_post(
    s: Sphere,
    o: Rvec,
    d: Rvec,
    tmin: int,
    tmax: int,
    res: Option<HitRecord>,
) -> bool {
    match sphere_root(s, o, d, tmin, tmax) {
        None => res is None,
        Some(t) => res is Some && tmin < t < tmax && record_fields_for(s, o, d, res->0, t),
    }
}

/// Within the root computation, the smaller root never exceeds the larger.
proof fn lemma_roots_ordered(half_b: int, sq: int, a: int)
    requires
        sq >= 0,
        a >= 1,
    ensures
        fx_div(fx_sub(fx_neg(half_b), sq), a) <= fx_div(fx_add(fx_neg(half_b), sq), a),
{
    lemma_fx_div_mono(fx_sub(fx_neg(half_b), sq), fx_add(fx_neg(half_b), sq), a);
}

/// Shrinking the upper bound below an interval's reported root (or keeping
/// it anywhere when there was no root) leaves no root at all: a surface
/// never reports a hit beyond the upper bound it was given.
pub proof fn lemma_sphere_root_narrow(
    s: Sphere,
    o: Rvec,
    d: Rvec,
    tmin: int,
    tmax: int,
    tmax2: int,
)
    requires
        tmax2 <= tmax,
        match sphere_root(s, o, d, tmin, tmax) {
            None => true,
            Some(t) => tmax2 <= t,
        },
    ensures
        sphere_root(s, o, d, tmin, tmax2) is None,
{
    reveal(sphere_root);
    let oc = rv_sub(o, s.center@);
    let a = rv_ls(d);
    let half_b = rv_dot(d, oc);
    let c = fx_sub(rv_ls(oc), fx_mul(s.radius as int, s.radius as int));
    let disc = fx_sub(fx_mul(half_b, half_b), fx_mul(a, c));
    if a >= 1 && disc >= 0 {
        lemma_fx_sqrt_nonneg(disc);
        lemma_roots_ordered(half_b, fx_sqrt(disc), a);
    }
}

/// A root reported inside a narrower interval is still the root reported by
/// any wider interval with the same lower bound.
pub proof fn lemma_sphere_root_widen(
    s: Sphere,
    o: Rvec,
    d: Rvec,
    tmin: int,
    tmax: int,
    tmax2: int,
)
    requires
        tmax <= tmax2,
        sphere_root(s, o, d, tmin, tmax) is Some,
    ensures
        sphere_root(s, o, d, tmin, tmax2) == sphere_root(s, o, d, tmin, tmax),
{
    reveal(sphere_root);
    let oc = rv_sub(o, s.center@);
    let a = rv_ls(d);
    let half_b = rv_dot(d, oc);
    let c = fx_sub(rv_ls(oc), fx_mul(s.radius as int, s.radius as int));
    let disc = fx_sub(fx_mul(half_b, half_b), fx_mul(a, c));
    lemma_fx_sqrt_nonneg(disc);
    lemma_roots_ordered(half_b, fx_sqrt(disc), a);
}

impl Sphere {
    pub fn from(center: Point3, radius: i64, material: Material) -> (r: Self)
        requires
            radius >= 1,
        ensures
            r.center == center,
            r.radius == radius,
            r.material == material,
    {
        Self { center, radius, material }
    }

    /// The nearest intersection of the ray with this sphere strictly inside
    /// `(ray_t.min, ray_t.max)`, if there is one.
    pub fn hit(&self, r: &Ray, ray_t: Interval) -> (res: Option<HitRecord>)
        requires
            self.radius >= 1,
        ensures
            sphere_hit_post(*self, r@.orig, r@.dir, ray_t.min as int, ray_t.max as int, res),
    {
        proof {
            reveal(sphere_root);
        }
        let oc: Vec3 = r.origin().sub(self.center);
        let a: i64 = r.direction().length_squared();
        if a < 1 {
            return None;
        }
        let half_b: i64 = dot(&r.direction(), &oc);
        let c: i64 = sub_fx(oc.length_squared(), mul_fx(self.radius, self.radius));

        let discriminant: i64 = sub_fx(mul_fx(half_b, half_b), mul_fx(a, c));
        if discriminant < 0 {
            return None;
        }

        let sqrtd: i64 = sqrt_fx(discriminant);

        // Find the nearest root that lies in the acceptable range.
        let mut root: i64 = div_fx(sub_fx(neg_fx(half_b), sqrtd), a);
        if !ray_t.surrounds(root) {
            root = div_fx(add_fx(neg_fx(half_b), sqrtd), a);
            if !ray_t.surrounds(root) {
                return None;
            }
        }

        let t: i64 = root;
        let p: Point3 = r.at(t);
        let outward_normal: Vec3 = p.sub(self.center).div(self.radius);
        let mut rec: HitRecord = HitRecord {
            p: r.at(root),
            t: root,
            normal: outward_normal,
            front_face: false,
            mat: self.material,
        };
        rec.set_face_normal(r, &outward_normal);

        Some(rec)
    }
}

} // verus!
