//! Material scattering models: diffuse, specular with fuzz, and refractive.

use vstd::prelude::*;
use crate::color::Color;
use crate::fixed::{
    SCALE, TWO_FX, fx_add, fx_sub, fx_neg, fx_mul, fx_div, fx_sqrt,
    add_fx, sub_fx, neg_fx, mul_fx, div_fx, sqrt_fx,
    lemma_fx_sqrt_le_one, tdiv,
};
use crate::hittable::HitRecord;
use crate::ray::{Ray, Rray};
use crate::utility::{random, interval_clamp};
use crate::vec3::{
    Vec3, Rvec, rv, rv_add, rv_sub, rv_neg, rv_scale, rv_dot, rv_ls, rv_unit, rv_near_zero,
    is_unit_sample, dot, unit_vector, random_unit_vector, dot_exact,
};

verus! {

#[derive(Clone, Copy)]
pub enum Material {
    Lambertian(Lambertian),
    Metal(Metal),
    Dieletric(Dieletric),
}

#[derive(Clone, Copy)]
pub struct Lambertian {
    pub albedo: Color,
}

#[derive(Clone, Copy)]
pub struct Metal {
    pub albedo: Color,
    pub fuzz: i64,
}

#[derive(Clone, Copy)]
pub struct Dieletric {
    ir: i64,
}

/// Mirror reflection about the surface normal: `v - 2 (v . n) n`.
pub open spec fn rv_reflect(v: Rvec, n: Rvec) -> Rvec {
    rv_sub(v, rv_scale(n, fx_mul(TWO_FX as int, rv_dot(v, n))))
}

/// Snell refraction of the unit direction `uv`, split into the components
/// perpendicular and parallel to the normal.
pub open spec fn rv_refract(uv: Rvec, n: Rvec, etai_over_etat: int) -> Rvec {
    let cos_theta = min2(rv_dot(rv_neg(uv), n), SCALE as int);
    let r_out_perp = rv_scale(rv_add(uv, rv_scale(n, cos_theta)), etai_over_etat);
    let r_out_parallel = rv_scale(
        n,
        fx_neg(fx_sqrt(abs2(fx_sub(SCALE as int, rv_ls(r_out_perp))))),
    );
    rv_add(r_out_parallel, r_out_perp)
}

pub open spec fn min2(a: int, b: int) -> int {
    if a < b {
        a
    } else {
        b
    }
}

pub open spec fn abs2(a: int) -> int {
    if a >= 0 {
        a
    } else {
        -a
    }
}

/// Schlick's approximation of the Fresnel reflectance.
pub open spec fn schlick(cosine: int, ref_idx: int) -> int
    recommends
        ref_idx >= 0,
{
    let r0a = fx_div(fx_sub(SCALE as int, ref_idx), fx_add(SCALE as int, ref_idx));
    let r0 = fx_mul(r0a, r0a);
    fx_add(r0, fx_mul(fx_sub(SCALE as int, r0), pow5(fx_sub(SCALE as int, cosine))))
}

pub open spec fn pow5(x: int) -> int {
    fx_mul(fx_mul(fx_mul(fx_mul(x, x), x), x), x)
}

/// The diffuse scatter direction: normal plus a unit sample, with the normal
/// itself standing in when the sum degenerates to near zero.
pub open spec fn lambertian_direction(n: Rvec, u: Rvec) -> Rvec {
    if rv_near_zero(rv_add(n, u)) {
        n
    } else {
        rv_add(n, u)
    }
}

/// The fuzzed specular direction: the mirror reflection of the incoming unit
/// direction, perturbed by `fuzz` times a unit sample.
pub open spec fn metal_direction(unit_in: Rvec, n: Rvec, fuzz: int, u: Rvec) -> Rvec {
    rv_add(rv_reflect(unit_in, n), rv_scale(u, fuzz))
}

/// The refraction ratio a dielectric applies: the reciprocal of its index
/// when the ray enters from outside, the index itself when it leaves.
pub open spec fn refraction_ratio(ir: int, front_face: bool) -> int
    recommends
        ir >= 1,
{
    if front_face {
        fx_div(SCALE as int, ir)
    } else {
        ir
    }
}

/// The dielectric scatter direction for a given reflectance draw `rnd`:
/// reflect on total internal reflection or a winning draw, refract
/// otherwise. A ratio of exactly one is no optical interface at all, so it
/// never reflects, whatever the draw.
pub open spec fn dieletric_direction(
    unit_in: Rvec,
    n: Rvec,
    ratio: int,
    rnd: int,
) -> Rvec {
    let cos_theta = min2(rv_dot(rv_neg(unit_in), n), SCALE as int);
    let sin_theta = fx_sqrt(fx_sub(SCALE as int, fx_mul(cos_theta, cos_theta)));
    let cannot_refract = fx_mul(sin_theta, ratio) > SCALE as int;
    if cannot_refract || (ratio != SCALE as int && schlick(cos_theta, ratio) > rnd) {
        rv_reflect(unit_in, n)
    } else {
        rv_refract(unit_in, n, ratio)
    }
}

/// The spec-level image of a scatter result.
pub open spec fn scatter_view(r: Option<(Ray, Color)>) -> Option<(Rray, Rvec)> {
    match r {
        Some((ray, col)) => Some((ray@, col@)),
        None => None,
    }
}

/// What scattering means, variant by variant, for an incoming direction
/// `in_dir` hitting at point `p` with oriented normal `normal`: diffuse and
/// refractive materials always scatter; metal scatters exactly while the
/// fuzzed reflection points away from the surface; each outgoing ray starts
/// at `p` and carries the variant's attenuation and direction law.
pub open spec fn scatter_rel(
    mat: Material,
    in_dir: Rvec,
    p: Rvec,
    normal: Rvec,
    front_face: bool,
    out: Option<(Rray, Rvec)>,
) -> bool {
    match mat {
        Material::Lambertian(l) => {
            &&& out is Some
            &&& (out->0).1 == l.albedo@
            &&& (out->0).0.orig == p
            &&& exists|u: Rvec|
                is_unit_sample(u) && (out->0).0.dir == lambertian_direction(normal, u)
        },
        Material::Metal(m) => match out {
            Some(sa) => {
                &&& sa.1 == m.albedo@
                &&& sa.0.orig == p
                &&& rv_dot(sa.0.dir, normal) > 0
                &&& exists|u: Rvec|
                    is_unit_sample(u) && sa.0.dir == metal_direction(
                        rv_unit(in_dir),
                        normal,
                        m.fuzz as int,
                        u,
                    )
            },
            None => exists|u: Rvec|
                is_unit_sample(u) && rv_dot(
                    metal_direction(rv_unit(in_dir), normal, m.fuzz as int, u),
                    normal,
                ) <= 0,
        },
        Material::Dieletric(d) => {
            &&& out is Some
            &&& (out->0).1 == rv(SCALE as int, SCALE as int, SCALE as int)
            &&& (out->0).0.orig == p
            &&& exists|rnd: int|
                0 <= rnd < SCALE as int && (out->0).0.dir == dieletric_direction(
                    rv_unit(in_dir),
                    normal,
                    refraction_ratio(d.ir_spec(), front_face),
                    rnd,
                )
            &&& d.ir_spec() == SCALE as int ==> (out->0).0.dir == rv_refract(
                rv_unit(in_dir),
                normal,
                SCALE as int,
            )
        },
    }
}

impl Lambertian {
    pub fn from(albedo: Color) -> (r: Self)
        ensures
            r.albedo == albedo,
    {
        Self { albedo }
    }

    /// Diffuse scattering: always scatters; the direction degenerates to the
    /// normal itself when the random term cancels it to near zero, so a
    /// non-degenerate normal never yields a degenerate scatter direction.
    pub fn scatter(&self, _r_in: &Ray, rec: &HitRecord) -> (r: Option<(Ray, Color)>)
        ensures
            r is Some,
            (r->0).1 == self.albedo,
            (r->0).0@.orig == rec.p@,
            exists|u: Rvec|
                is_unit_sample(u) && (r->0).0@.dir == lambertian_direction(rec.normal@, u),
            !rv_near_zero(rec.normal@) ==> !rv_near_zero((r->0).0@.dir),
    {
        let u: Vec3 = random_unit_vector();
        let sum: Vec3 = rec.normal.add(u);
        let scatter_direction: Vec3 = if sum.near_zero() {
            rec.normal
        } else {
            sum
        };
        proof {
            assert(scatter_direction@ == lambertian_direction(rec.normal@, u@));
        }
        let scattered: Ray = Ray::from(rec.p, scatter_direction);
        Some((scattered, self.albedo))
    }
}

impl Metal {
    /// The fuzz parameter is clamped into `[0, 1]` at construction.
    pub fn from(albedo: Color, fuzz: i64) -> (r: Self)
        ensures
            r.albedo == albedo,
            r.fuzz as int == interval_clamp(0, SCALE as int, fuzz as int),
    {
        Self {
            albedo,
            fuzz: if fuzz < 0 {
                0
            } else if fuzz < SCALE {
                fuzz
            } else {
                SCALE
            },
        }
    }

    /// Specular scattering: the fuzzed mirror direction, kept only while it
    /// still points away from the surface; otherwise the ray is absorbed.
    pub fn scatter(&self, r_in: &Ray, rec: &HitRecord) -> (r: Option<(Ray, Color)>)
        ensures
            r is Some ==> {
                &&& (r->0).1 == self.albedo
                &&& (r->0).0@.orig == rec.p@
                &&& rv_dot((r->0).0@.dir, rec.normal@) > 0
                &&& exists|u: Rvec|
                    is_unit_sample(u)
                        && (r->0).0@.dir == metal_direction(
                        rv_unit(r_in@.dir),
                        rec.normal@,
                        self.fuzz as int,
                        u,
                    )
            },
            r is None ==> exists|u: Rvec|
                is_unit_sample(u)
                    && rv_dot(
                    metal_direction(rv_unit(r_in@.dir), rec.normal@, self.fuzz as int, u),
                    rec.normal@,
                ) <= 0,
    {
        let reflected: Vec3 = reflect(&unit_vector(r_in.direction()), &rec.normal);
        let u: Vec3 = random_unit_vector();
        let fuzzed: Vec3 = reflected.add(u.mul(self.fuzz));
        proof {
            assert(fuzzed@ == metal_direction(
                rv_unit(r_in@.dir),
                rec.normal@,
                self.fuzz as int,
                u@,
            ));
        }
        let scattered: Ray = Ray::from(rec.p, fuzzed);
        if dot(&scattered.direction(), &rec.normal) > 0 {
            Some((scattered, self.albedo))
        } else {
            None
        }
    }
}

impl Dieletric {
    /// The structural invariant: the index is at least one raw unit, so the
    /// reciprocal ratio is well defined.
    #[verifier::type_invariant]
    pub closed spec fn wf(self) -> bool {
        self.ir >= 1
    }

    pub closed spec fn ir_spec(self) -> int {
        self.ir as int
    }

    pub fn from(ir: i64) -> (r: Self)
        requires
            ir >= 1,
        ensures
            r.ir_spec() == ir as int,
    {
        Self { ir }
    }

    /// Refractive scattering: never absorbs and never tints. The direction
    /// reflects under total internal reflection (always, whatever the random
    /// reflectance draw came to) or a winning Schlick draw, and refracts by
    /// Snell's law otherwise. An index of exactly one is no optical
    /// interface at all: such a material always refracts, undeviated up to
    /// this scale's rounding.
    pub fn scatter(&self, r_in: &Ray, rec: &HitRecord) -> (r: Option<(Ray, Color)>)
        ensures
            r is Some,
            (r->0).1@ == rv(SCALE as int, SCALE as int, SCALE as int),
            (r->0).0@.orig == rec.p@,
            exists|rnd: int|
                0 <= rnd < SCALE as int && (r->0).0@.dir == dieletric_direction(
                    rv_unit(r_in@.dir),
                    rec.normal@,
                    refraction_ratio(self.ir_spec(), rec.front_face),
                    rnd,
                ),
            self.ir_spec() == SCALE as int ==> (r->0).0@.dir == rv_refract(
                rv_unit(r_in@.dir),
                rec.normal@,
                SCALE as int,
            ),
    {
        proof {
            use_type_invariant(self);
        }
        let attenuation: Color = Color::from(SCALE, SCALE, SCALE);
        let ratio: i64 = if rec.front_face {
            div_fx(SCALE, self.ir)
        } else {
            self.ir
        };

        let unit_direction: Vec3 = unit_vector(r_in.direction());

        let mcos: i64 = dot(&unit_direction.neg(), &rec.normal);
        let cos_theta: i64 = if mcos < SCALE {
            mcos
        } else {
            SCALE
        };
        let sin_theta: i64 = sqrt_fx(sub_fx(SCALE, mul_fx(cos_theta, cos_theta)));
        let cannot_refract: bool = mul_fx(sin_theta, ratio) > SCALE;

        proof {
            if self.ir_spec() == SCALE as int {
                // A unit index means a unit ratio, and the sine of a real
                // angle never exceeds one, so refraction is always possible.
                if rec.front_face {
                    vstd::arithmetic::div_mod::lemma_div_multiples_vanish(
                        SCALE as int,
                        SCALE as int,
                    );
                    assert(tdiv((SCALE as int) * (SCALE as int), SCALE as int) == SCALE as int);
                }
                assert(ratio == SCALE);
                assert((cos_theta as int) * (cos_theta as int) >= 0) by (nonlinear_arith);
                vstd::arithmetic::div_mod::lemma_div_pos_is_pos(
                    (cos_theta as int) * (cos_theta as int),
                    SCALE as int,
                );
                let st = sin_theta as int;
                crate::fixed::lemma_fx_sqrt_nonneg(
                    fx_sub(SCALE as int, fx_mul(cos_theta as int, cos_theta as int)),
                );
                lemma_fx_sqrt_le_one(
                    fx_sub(SCALE as int, fx_mul(cos_theta as int, cos_theta as int)),
                );
                assert(0 <= st && st <= SCALE as int);
                vstd::arithmetic::div_mod::lemma_div_multiples_vanish(st, SCALE as int);
                assert(st * (SCALE as int) == (SCALE as int) * st) by (nonlinear_arith);
                assert(tdiv(st * (SCALE as int), SCALE as int) == st);
                assert(fx_mul(st, SCALE as int) == st);
                assert(!cannot_refract);
            }
        }
        let rnd: i64 = random();
        let direction: Vec3 = if cannot_refract
            || (ratio != SCALE && reflectance(cos_theta, ratio) > rnd) {
            reflect(&unit_direction, &rec.normal)
        } else {
            refract(&unit_direction, &rec.normal, ratio)
        };

        proof {
            assert(0 <= (rnd as int) && (rnd as int) < SCALE as int);
            assert(direction@ == dieletric_direction(
                rv_unit(r_in@.dir),
                rec.normal@,
                refraction_ratio(self.ir_spec(), rec.front_face),
                rnd as int,
            ));
        }
        let scattered: Ray = Ray::from(rec.p, direction);
        Some((scattered, attenuation))
    }
}

impl Material {
    /// Dispatch to the variant's scattering model; the result obeys that
    /// variant's full scattering relation.
    pub fn scatter(&self, r_in: &Ray, rec: &HitRecord) -> (r: Option<(Ray, Color)>)
        ensures
            scatter_rel(*self, r_in@.dir, rec.p@, rec.normal@, rec.front_face, scatter_view(r)),
            r is Some ==> (r->0).0@.orig == rec.p@,
    {
        match self {
            Material::Lambertian(l) => l.scatter(r_in, rec),
            Material::Metal(m) => m.scatter(r_in, rec),
            Material::Dieletric(d) => d.scatter(r_in, rec),
        }
    }
}

/// Mirror reflection in the exact model: raw coordinates as unbounded
/// integers, scaled through by `SCALE^2` so that no division intervenes.
pub open spec fn reflect_exact(v: Rvec, n: Rvec) -> Rvec {
    rv(
        (SCALE as int) * (SCALE as int) * v.x - 2 * dot_exact(v, n) * n.x,
        (SCALE as int) * (SCALE as int) * v.y - 2 * dot_exact(v, n) * n.y,
        (SCALE as int) * (SCALE as int) * v.z - 2 * dot_exact(v, n) * n.z,
    )
}

/// Law: against a unit normal, mirror reflection exactly flips the normal
/// component of the direction: `dot(reflect(v, n), n) == -dot(v, n)`, up to
/// the model's uniform scaling, so the angle of incidence equals the angle
/// of reflection.
pub proof fn lemma_reflect_mirror(v: Rvec, n: Rvec)
    requires
        dot_exact(n, n) == (SCALE as int) * (SCALE as int),
    ensures
        dot_exact(reflect_exact(v, n), n)
            == -((SCALE as int) * (SCALE as int)) * dot_exact(v, n),
{
    let s2 = (SCALE as int) * (SCALE as int);
    let d = dot_exact(v, n);
    let ax = v.x * n.x;
    let ay = v.y * n.y;
    let az = v.z * n.z;
    let bx = n.x * n.x;
    let by = n.y * n.y;
    let bz = n.z * n.z;
    assert((s2 * v.x - 2 * d * n.x) * n.x == s2 * ax - 2 * d * bx) by (nonlinear_arith)
        requires ax == v.x * n.x, bx == n.x * n.x;
    assert((s2 * v.y - 2 * d * n.y) * n.y == s2 * ay - 2 * d * by) by (nonlinear_arith)
        requires ay == v.y * n.y, by == n.y * n.y;
    assert((s2 * v.z - 2 * d * n.z) * n.z == s2 * az - 2 * d * bz) by (nonlinear_arith)
        requires az == v.z * n.z, bz == n.z * n.z;
    assert(s2 * ax + s2 * ay + s2 * az == s2 * (ax + ay + az)) by (nonlinear_arith);
    assert(2 * d * bx + 2 * d * by + 2 * d * bz == 2 * d * (bx + by + bz)) by (nonlinear_arith);
    assert(ax + ay + az == d);
    assert(bx + by + bz == s2);
    assert(s2 * d - 2 * d * s2 == -(s2) * d) by (nonlinear_arith);
}

/// Law: against a unit normal, mirror reflection preserves the exact
/// squared length of the direction, so together with the flipped normal
/// component the angle of incidence equals the angle of reflection.
pub proof fn lemma_reflect_preserves_length(v: Rvec, n: Rvec)
    requires
        dot_exact(n, n) == (SCALE as int) * (SCALE as int),
    ensures
        dot_exact(reflect_exact(v, n), reflect_exact(v, n))
            == ((SCALE as int) * (SCALE as int)) * ((SCALE as int) * (SCALE as int))
            * dot_exact(v, v),
{
    let s2 = (SCALE as int) * (SCALE as int);
    let s4 = s2 * s2;
    let d = dot_exact(v, n);
    let dd = d * d;
    let ax = v.x * n.x;
    let ay = v.y * n.y;
    let az = v.z * n.z;
    let bx = n.x * n.x;
    let by = n.y * n.y;
    let bz = n.z * n.z;
    let xx = v.x * v.x;
    let yy = v.y * v.y;
    let zz = v.z * v.z;
    let rx = s2 * v.x - 2 * d * n.x;
    let ry = s2 * v.y - 2 * d * n.y;
    let rz = s2 * v.z - 2 * d * n.z;
    let dax = d * ax;
    let day = d * ay;
    let daz = d * az;

    let a_rx = s2 * v.x;
    let dn_rx = d * n.x;
    let b_rx = 2 * dn_rx;
    assert(rx == a_rx - b_rx) by (nonlinear_arith)
        requires
            a_rx == s2 * v.x,
            b_rx == 2 * dn_rx,
            dn_rx == d * n.x,
            rx == s2 * v.x - 2 * d * n.x;
    assert(rx * rx == a_rx * a_rx - 2 * (a_rx * b_rx) + b_rx * b_rx)
        by (nonlinear_arith)
        requires rx == a_rx - b_rx;
    assert(a_rx * a_rx == s4 * xx) by (nonlinear_arith)
        requires a_rx == s2 * v.x, s4 == s2 * s2, xx == v.x * v.x;
    assert(v.x * dn_rx == dax) by (nonlinear_arith)
        requires dn_rx == d * n.x, dax == d * ax, ax == v.x * n.x;
    assert(a_rx * dn_rx == s2 * (v.x * dn_rx)) by (nonlinear_arith)
        requires a_rx == s2 * v.x;
    assert(a_rx * b_rx == 2 * (a_rx * dn_rx)) by (nonlinear_arith)
        requires b_rx == 2 * dn_rx;
    assert(dn_rx * dn_rx == dd * bx) by (nonlinear_arith)
        requires dn_rx == d * n.x, dd == d * d, bx == n.x * n.x;
    assert(b_rx * b_rx == 4 * (dn_rx * dn_rx)) by (nonlinear_arith)
        requires b_rx == 2 * dn_rx;
    assert(rx * rx == s4 * xx - 4 * s2 * dax + 4 * dd * bx) by (nonlinear_arith)
        requires
            rx * rx == a_rx * a_rx - 2 * (a_rx * b_rx) + b_rx * b_rx,
            a_rx * a_rx == s4 * xx,
            a_rx * b_rx == 2 * (a_rx * dn_rx),
            a_rx * dn_rx == s2 * (v.x * dn_rx),
            v.x * dn_rx == dax,
            b_rx * b_rx == 4 * (dn_rx * dn_rx),
            dn_rx * dn_rx == dd * bx;
    let a_ry = s2 * v.y;
    let dn_ry = d * n.y;
    let b_ry = 2 * dn_ry;
    assert(ry == a_ry - b_ry) by (nonlinear_arith)
        requires
            a_ry == s2 * v.y,
            b_ry == 2 * dn_ry,
            dn_ry == d * n.y,
            ry == s2 * v.y - 2 * d * n.y;
    assert(ry * ry == a_ry * a_ry - 2 * (a_ry * b_ry) + b_ry * b_ry)
        by (nonlinear_arith)
        requires ry == a_ry - b_ry;
    assert(a_ry * a_ry == s4 * yy) by (nonlinear_arith)
        requires a_ry == s2 * v.y, s4 == s2 * s2, yy == v.y * v.y;
    assert(v.y * dn_ry == day) by (nonlinear_arith)
        requires dn_ry == d * n.y, day == d * ay, ay == v.y * n.y;
    assert(a_ry * dn_ry == s2 * (v.y * dn_ry)) by (nonlinear_arith)
        requires a_ry == s2 * v.y;
    assert(a_ry * b_ry == 2 * (a_ry * dn_ry)) by (nonlinear_arith)
        requires b_ry == 2 * dn_ry;
    assert(dn_ry * dn_ry == dd * by) by (nonlinear_arith)
        requires dn_ry == d * n.y, dd == d * d, by == n.y * n.y;
    assert(b_ry * b_ry == 4 * (dn_ry * dn_ry)) by (nonlinear_arith)
        requires b_ry == 2 * dn_ry;
    assert(ry * ry == s4 * yy - 4 * s2 * day + 4 * dd * by) by (nonlinear_arith)
        requires
            ry * ry == a_ry * a_ry - 2 * (a_ry * b_ry) + b_ry * b_ry,
            a_ry * a_ry == s4 * yy,
            a_ry * b_ry == 2 * (a_ry * dn_ry),
            a_ry * dn_ry == s2 * (v.y * dn_ry),
            v.y * dn_ry == day,
            b_ry * b_ry == 4 * (dn_ry * dn_ry),
            dn_ry * dn_ry == dd * by;
    let a_rz = s2 * v.z;
    let dn_rz = d * n.z;
    let b_rz = 2 * dn_rz;
    assert(rz == a_rz - b_rz) by (nonlinear_arith)
        requires
            a_rz == s2 * v.z,
            b_rz == 2 * dn_rz,
            dn_rz == d * n.z,
            rz == s2 * v.z - 2 * d * n.z;
    assert(rz * rz == a_rz * a_rz - 2 * (a_rz * b_rz) + b_rz * b_rz)
        by (nonlinear_arith)
        requires rz == a_rz - b_rz;
    assert(a_rz * a_rz == s4 * zz) by (nonlinear_arith)
        requires a_rz == s2 * v.z, s4 == s2 * s2, zz == v.z * v.z;
    assert(v.z * dn_rz == daz) by (nonlinear_arith)
        requires dn_rz == d * n.z, daz == d * az, az == v.z * n.z;
    assert(a_rz * dn_rz == s2 * (v.z * dn_rz)) by (nonlinear_arith)
        requires a_rz == s2 * v.z;
    assert(a_rz * b_rz == 2 * (a_rz * dn_rz)) by (nonlinear_arith)
        requires b_rz == 2 * dn_rz;
    assert(dn_rz * dn_rz == dd * bz) by (nonlinear_arith)
        requires dn_rz == d * n.z, dd == d * d, bz == n.z * n.z;
    assert(b_rz * b_rz == 4 * (dn_rz * dn_rz)) by (nonlinear_arith)
        requires b_rz == 2 * dn_rz;
    assert(rz * rz == s4 * zz - 4 * s2 * daz + 4 * dd * bz) by (nonlinear_arith)
        requires
            rz * rz == a_rz * a_rz - 2 * (a_rz * b_rz) + b_rz * b_rz,
            a_rz * a_rz == s4 * zz,
            a_rz * b_rz == 2 * (a_rz * dn_rz),
            a_rz * dn_rz == s2 * (v.z * dn_rz),
            v.z * dn_rz == daz,
            b_rz * b_rz == 4 * (dn_rz * dn_rz),
            dn_rz * dn_rz == dd * bz;

    assert(s4 * xx + s4 * yy + s4 * zz == s4 * (xx + yy + zz)) by (nonlinear_arith);
    assert(dax + day + daz == dd) by (nonlinear_arith)
        requires
            dax == d * ax,
            day == d * ay,
            daz == d * az,
            d == ax + ay + az,
            dd == d * d;
    assert(4 * s2 * dax + 4 * s2 * day + 4 * s2 * daz == 4 * s2 * (dax + day + daz))
        by (nonlinear_arith);
    assert(4 * dd * bx + 4 * dd * by + 4 * dd * bz == 4 * dd * (bx + by + bz))
        by (nonlinear_arith);
    assert(bx + by + bz == s2);
    assert(xx + yy + zz == dot_exact(v, v));
    assert(4 * s2 * (dax + day + daz) == 4 * s2 * dd);
    assert(4 * dd * (bx + by + bz) == 4 * dd * s2);
    assert(4 * s2 * dd == 4 * dd * s2) by (nonlinear_arith);
    assert(s4 * (xx + yy + zz) == s4 * dot_exact(v, v));
    assert(dot_exact(reflect_exact(v, n), reflect_exact(v, n)) == rx * rx + ry * ry + rz * rz);
}

/// Law: a dielectric whose index is exactly one applies a refraction ratio
/// of exactly one whichever side the ray comes from.
pub proof fn lemma_unit_index_ratio(front_face: bool)
    ensures
        refraction_ratio(SCALE as int, front_face) == SCALE as int,
{
}

fn reflect(v: &Vec3, n: &Vec3) -> (r: Vec3)
    ensures
        r@ == rv_reflect(v@, n@),
{
    v.sub(n.mul(mul_fx(TWO_FX, dot(v, n))))
}

/// Schlick's approximation for reflectance.
fn reflectance(cosine: i64, ref_idx: i64) -> (r: i64)
    requires
        ref_idx >= 0,
    ensures
        r as int == schlick(cosine as int, ref_idx as int),
{
    let r0a: i64 = div_fx(sub_fx(SCALE, ref_idx), add_fx(SCALE, ref_idx));
    let r0: i64 = mul_fx(r0a, r0a);

    let omc: i64 = sub_fx(SCALE, cosine);
    let p5: i64 = mul_fx(mul_fx(mul_fx(mul_fx(omc, omc), omc), omc), omc);
    add_fx(r0, mul_fx(sub_fx(SCALE, r0), p5))
}

fn refract(uv: &Vec3, n: &Vec3, etai_over_etat: i64) -> (r: Vec3)
    ensures
        r@ == rv_refract(uv@, n@, etai_over_etat as int),
{
    let mcos: i64 = dot(&uv.neg(), n);
    let cos_theta: i64 = if mcos < SCALE {
        mcos
    } else {
        SCALE
    };
    let r_out_perp: Vec3 = uv.add(n.mul(cos_theta)).mul(etai_over_etat);
    let ls: i64 = r_out_perp.length_squared();
    let d: i64 = sub_fx(SCALE, ls);
    let ad: i64 = if d >= 0 {
        d
    } else {
        neg_fx(d)
    };
    let r_out_parallel: Vec3 = n.mul(neg_fx(sqrt_fx(ad)));

    r_out_parallel.add(r_out_perp)
}

} // verus!
