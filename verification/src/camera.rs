//! The camera: viewport geometry derived once from configuration, per-pixel
//! jittered and defocused ray generation, and the recursive color
//! integration that drives rendering.

use vstd::prelude::*;
use crate::color::Color;
use crate::fixed::{
    SCALE, TWO_FX, HALF_FX,
    fx_add, fx_sub, fx_mul, fx_div, fx_divi, fx_tan,
    add_fx, sub_fx, mul_fx, div_fx, divi_fx, tan_fx,
};
use crate::hittable::oriented_normal;
use crate::hittable_list::{HittableList, spheres_wf};
use crate::material::{scatter_rel, scatter_view};
use crate::ray::{Point3, Ray, Rray, ray_at};
use crate::sphere::{Sphere, sphere_root, sphere_outward, record_fields_for};
use crate::utility::{INFINITY, Interval, deg_to_rad, degrees_to_radians, random};
use crate::vec3::{
    Vec3, Rvec, rv, rv_zero, rv_add, rv_sub, rv_neg, rv_scale, rv_divs, rv_cross, rv_dot,
    rv_mulv, rv_unit, rv_ls, unit_vector, cross, random_in_unit_disk,
};

verus! {

/// The lower bound on valid hit distances: 0.001, excluding near-zero
/// self-intersections that would show as shadow acne.
pub const SHADOW_ACNE_MIN: i64 = 1_000;

pub struct Camera {
    pub aspect_ratio: Option<i64>,
    pub image_width: Option<i32>,
    pub samples_per_pixel: Option<i32>,
    pub max_depth: Option<i32>,

    pub vfov: Option<i64>,
    pub look_from: Option<Point3>,
    pub look_at: Option<Point3>,
    pub vup: Option<Point3>,

    pub defocus_angle: Option<i64>,
    pub focus_dist: Option<i64>,

    pub image_height: i32,
    pub center: Point3,
    pub pixel00_loc: Point3,
    pub pixel_delta_u: Vec3,
    pub pixel_delta_v: Vec3,
    pub u: Vec3,
    pub v: Vec3,
    pub w: Vec3,
    pub defocus_disk_u: Vec3,
    pub defocus_disk_v: Vec3,
}

pub open spec fn eff_aspect(c: Camera) -> int {
    if c.aspect_ratio is Some {
        c.aspect_ratio->0 as int
    } else {
        SCALE as int
    }
}

pub open spec fn eff_width(c: Camera) -> int {
    if c.image_width is Some {
        c.image_width->0 as int
    } else {
        100
    }
}

pub open spec fn eff_samples(c: Camera) -> int {
    if c.samples_per_pixel is Some {
        c.samples_per_pixel->0 as int
    } else {
        10
    }
}

pub open spec fn eff_depth(c: Camera) -> int {
    if c.max_depth is Some {
        c.max_depth->0 as int
    } else {
        10
    }
}

pub open spec fn eff_vfov(c: Camera) -> int {
    if c.vfov is Some {
        c.vfov->0 as int
    } else {
        90_000_000
    }
}

pub open spec fn eff_look_from(c: Camera) -> Rvec {
    if c.look_from is Some {
        c.look_from->0@
    } else {
        rv(0, 0, -(SCALE as int))
    }
}

pub open spec fn eff_look_at(c: Camera) -> Rvec {
    if c.look_at is Some {
        c.look_at->0@
    } else {
        rv_zero()
    }
}

pub open spec fn eff_vup(c: Camera) -> Rvec {
    if c.vup is Some {
        c.vup->0@
    } else {
        rv(0, SCALE as int, 0)
    }
}

pub open spec fn eff_defocus(c: Camera) -> int {
    if c.defocus_angle is Some {
        c.defocus_angle->0 as int
    } else {
        0
    }
}

pub open spec fn eff_focus(c: Camera) -> int {
    if c.focus_dist is Some {
        c.focus_dist->0 as int
    } else {
        10_000_000
    }
}

/// Image height: width over aspect ratio, truncated, bounded into i32,
/// and at least one pixel.
pub open spec fn cam_height(c: Camera) -> int {
    let q = fx_divi(fx_div(eff_width(c) * (SCALE as int), eff_aspect(c)), SCALE as int);
    let qc = if q > 0x7fff_ffff {
        0x7fff_ffff as int
    } else {
        q
    };
    if qc > 1 {
        qc
    } else {
        1
    }
}

/// Half the vertical field of view, as a tangent.
pub open spec fn cam_half_tan(c: Camera) -> int {
    fx_tan(fx_divi(deg_to_rad(eff_vfov(c)), 2))
}

pub open spec fn cam_viewport_height(c: Camera) -> int {
    fx_mul(fx_mul(TWO_FX as int, cam_half_tan(c)), eff_focus(c))
}

pub open spec fn cam_viewport_width(c: Camera) -> int {
    fx_mul(
        cam_viewport_height(c),
        fx_div(eff_width(c) * (SCALE as int), cam_height(c) * (SCALE as int)),
    )
}

pub open spec fn cam_w(c: Camera) -> Rvec {
    rv_unit(rv_sub(eff_look_from(c), eff_look_at(c)))
}

pub open spec fn cam_u(c: Camera) -> Rvec {
    rv_unit(rv_cross(eff_vup(c), cam_w(c)))
}

pub open spec fn cam_v(c: Camera) -> Rvec {
    rv_cross(cam_w(c), cam_u(c))
}

pub open spec fn cam_viewport_u(c: Camera) -> Rvec {
    rv_scale(cam_u(c), cam_viewport_width(c))
}

pub open spec fn cam_viewport_v(c: Camera) -> Rvec {
    rv_scale(rv_neg(cam_v(c)), cam_viewport_height(c))
}

pub open spec fn cam_pixel_delta_u(c: Camera) -> Rvec {
    rv_divs(cam_viewport_u(c), eff_width(c) * (SCALE as int))
}

pub open spec fn cam_pixel_delta_v(c: Camera) -> Rvec {
    rv_divs(cam_viewport_v(c), cam_height(c) * (SCALE as int))
}

pub open spec fn cam_pixel00(c: Camera) -> Rvec {
    let upper_left = rv_sub(
        rv_sub(
            rv_sub(eff_look_from(c), rv_scale(cam_w(c), eff_focus(c))),
            rv_divs(cam_viewport_u(c), TWO_FX as int),
        ),
        rv_divs(cam_viewport_v(c), TWO_FX as int),
    );
    rv_add(upper_left, rv_scale(rv_add(cam_pixel_delta_u(c), cam_pixel_delta_v(c)), HALF_FX as int))
}

pub open spec fn cam_defocus_radius(c: Camera) -> int {
    fx_mul(eff_focus(c), fx_tan(deg_to_rad(fx_div(eff_defocus(c), TWO_FX as int))))
}

pub open spec fn cam_defocus_disk_u(c: Camera) -> Rvec {
    rv_scale(cam_u(c), cam_defocus_radius(c))
}

pub open spec fn cam_defocus_disk_v(c: Camera) -> Rvec {
    rv_scale(cam_v(c), cam_defocus_radius(c))
}

/// Everything `initialize` derives, as a relation between the configured
/// camera `c0` and its initialized state `c`.
pub open spec fn initialized_from(c0: Camera, c: Camera) -> bool {
    &&& c.aspect_ratio == Some(eff_aspect(c0) as i64)
    &&& c.image_width == Some(eff_width(c0) as i32)
    &&& c.samples_per_pixel == Some(eff_samples(c0) as i32)
    &&& c.max_depth == Some(eff_depth(c0) as i32)
    &&& c.vfov == Some(eff_vfov(c0) as i64)
    &&& c.look_from is Some && (c.look_from->0)@ == eff_look_from(c0)
    &&& c.look_at is Some && (c.look_at->0)@ == eff_look_at(c0)
    &&& c.vup is Some && (c.vup->0)@ == eff_vup(c0)
    &&& c.defocus_angle == Some(eff_defocus(c0) as i64)
    &&& c.focus_dist == Some(eff_focus(c0) as i64)
    &&& c.image_height as int == cam_height(c0)
    &&& c.center@ == eff_look_from(c0)
    &&& c.w@ == cam_w(c0)
    &&& c.u@ == cam_u(c0)
    &&& c.v@ == cam_v(c0)
    &&& c.pixel_delta_u@ == cam_pixel_delta_u(c0)
    &&& c.pixel_delta_v@ == cam_pixel_delta_v(c0)
    &&& c.pixel00_loc@ == cam_pixel00(c0)
    &&& c.defocus_disk_u@ == cam_defocus_disk_u(c0)
    &&& c.defocus_disk_v@ == cam_defocus_disk_v(c0)
}

/// The jittered sample point for pixel `(i, j)`, with pixel-footprint
/// offsets built from the raw draws `rx` and `ry`.
pub open spec fn pixel_sample_spec(c: Camera, i: int, j: int, rx: int, ry: int) -> Rvec {
    let pixel_center = rv_add(
        rv_add(c.pixel00_loc@, rv_scale(c.pixel_delta_u@, i * (SCALE as int))),
        rv_scale(c.pixel_delta_v@, j * (SCALE as int)),
    );
    let off = rv_add(
        rv_scale(c.pixel_delta_u@, fx_add(-(HALF_FX as int), rx)),
        rv_scale(c.pixel_delta_v@, fx_add(-(HALF_FX as int), ry)),
    );
    rv_add(pixel_center, off)
}

/// Where a generated ray starts: the camera center, or a point of the
/// defocus disk when a positive defocus angle asks for depth of field.
pub open spec fn ray_origin_spec(c: Camera, dp: Rvec) -> Rvec
    recommends
        c.defocus_angle is Some,
{
    if c.defocus_angle->0 <= 0 {
        c.center@
    } else {
        rv_add(
            rv_add(c.center@, rv_scale(c.defocus_disk_u@, dp.x)),
            rv_scale(c.defocus_disk_v@, dp.y),
        )
    }
}

/// The admissible random draws behind one generated ray: two pixel-jitter
/// draws and one defocus-disk sample.
pub open spec fn ray_sample_ok(rx: int, ry: int, dp: Rvec) -> bool {
    &&& 0 <= rx < SCALE as int
    &&& 0 <= ry < SCALE as int
    &&& 1 <= rv_ls(dp) < SCALE as int
    &&& dp.z == 0
}

pub open spec fn get_ray_spec(c: Camera, i: int, j: int, rx: int, ry: int, dp: Rvec) -> Rray {
    let ps = pixel_sample_spec(c, i, j, rx, ry);
    let o = ray_origin_spec(c, dp);
    Rray { orig: o, dir: rv_sub(ps, o) }
}

/// No sphere of the world intersects the ray anywhere in the valid range.
pub open spec fn no_hit_spec(objs: Seq<crate::sphere::Sphere>, ray: Rray) -> bool {
    forall|j: int|
        0 <= j < objs.len() ==> sphere_root(
            #[trigger] objs[j],
            ray.orig,
            ray.dir,
            SHADOW_ACNE_MIN as int,
            INFINITY as int,
        ) is None
}

/// The scatter relation instantiated at the hit a sphere reports for
/// distance `t`: the record's point, oriented normal and facing are the
/// ones the sphere derives there.
pub open spec fn scatter_at(s: Sphere, ray: Rray, t: int, out: Option<(Rray, Rvec)>) -> bool {
    let p = ray_at(ray.orig, ray.dir, t);
    let outward = sphere_outward(s, p);
    scatter_rel(
        s.material,
        ray.dir,
        p,
        oriented_normal(ray.dir, outward),
        rv_dot(ray.dir, outward) < 0,
        out,
    )
}

/// The hit that the world reports for a ray: sphere `i` yields root `t`
/// over the whole valid range, and no sphere yields any root below `t`.
pub open spec fn hit_root_at(objs: Seq<Sphere>, ray: Rray, i: int, t: int) -> bool {
    &&& 0 <= i < objs.len()
    &&& sphere_root(objs[i], ray.orig, ray.dir, SHADOW_ACNE_MIN as int, INFINITY as int)
        == Some(t)
    &&& forall|j: int|
        0 <= j < objs.len() ==> sphere_root(
            #[trigger] objs[j],
            ray.orig,
            ray.dir,
            SHADOW_ACNE_MIN as int,
            t,
        ) is None
}

/// One admissible color for tracing `ray` into `objs` with `depth` bounces
/// left: black once the budget is spent; the sky gradient where no sphere
/// is hit; otherwise an attenuated recursive outcome of a scatter
/// consistent with the nearest hit's material, or black when that scatter
/// absorbs the ray.
pub open spec fn color_outcome(objs: Seq<Sphere>, ray: Rray, depth: int, c: Rvec) -> bool
    decreases depth, 0int,
{
    if depth <= 0 {
        c == rv_zero()
    } else if no_hit_spec(objs, ray) {
        c == sky_color(ray.dir)
    } else {
        scattered_outcome(objs, ray, depth - 1, c) || (c == rv_zero() && exists|i: int, t: int|
            #[trigger] hit_root_at(objs, ray, i, t) && scatter_at(objs[i], ray, t, None))
    }
}

/// The scattered half of a hit's outcome: some admissible scatter of the
/// nearest hit's material yields a ray whose own outcome, tinted by the
/// attenuation, is `c`. The remaining budget is `dm1`.
pub open spec fn scattered_outcome(objs: Seq<Sphere>, ray: Rray, dm1: int, c: Rvec) -> bool
    decreases dm1, 1int,
{
    exists|i: int, t: int, sr: Rray, att: Rvec, c2: Rvec|
        #![all_triggers]
        {
            &&& hit_root_at(objs, ray, i, t)
            &&& scatter_at(objs[i], ray, t, Some((sr, att)))
            &&& color_outcome(objs, sr, dm1, c2)
            &&& c == rv_mulv(att, c2)
        }
}

/// The accumulated pixel color after `n` samples: each sample is an
/// admissible traced color for a ray the camera may generate toward pixel
/// `(i, j)`, and the accumulator is their saturating sum.
pub open spec fn sample_sum_outcome(
    objs: Seq<Sphere>,
    cam: Camera,
    i: int,
    j: int,
    depth: int,
    n: int,
    c: Rvec,
) -> bool
    decreases n,
{
    if n <= 0 {
        c == rv_zero()
    } else {
        exists|prev: Rvec, sc: Rvec, rx: int, ry: int, dp: Rvec|
            #![all_triggers]
            {
                &&& sample_sum_outcome(objs, cam, i, j, depth, n - 1, prev)
                &&& ray_sample_ok(rx, ry, dp)
                &&& color_outcome(objs, get_ray_spec(cam, i, j, rx, ry, dp), depth, sc)
                &&& c == rv_add(prev, sc)
            }
    }
}

/// The background: a vertical blend from white to light blue, driven by the
/// normalized direction's height.
pub open spec fn sky_color(d: Rvec) -> Rvec {
    let a = fx_mul(HALF_FX as int, fx_add(rv_unit(d).y, SCALE as int));
    rv_add(
        rv_scale(rv(SCALE as int, SCALE as int, SCALE as int), fx_sub(SCALE as int, a)),
        rv_scale(rv(HALF_FX as int, 700_000, SCALE as int), a),
    )
}

impl Default for Camera {
    /// A camera with nothing configured: every option takes its default at
    /// initialization.
    fn default() -> (r: Self)
        ensures
            r.aspect_ratio is None,
            r.image_width is None,
            r.samples_per_pixel is None,
            r.max_depth is None,
            r.vfov is None,
            r.look_from is None,
            r.look_at is None,
            r.vup is None,
            r.defocus_angle is None,
            r.focus_dist is None,
    {
        Camera {
            aspect_ratio: None,
            image_width: None,
            samples_per_pixel: None,
            max_depth: None,
            vfov: None,
            look_from: None,
            look_at: None,
            vup: None,
            defocus_angle: None,
            focus_dist: None,
            image_height: 0,
            center: Point3::new(),
            pixel00_loc: Point3::new(),
            pixel_delta_u: Vec3::new(),
            pixel_delta_v: Vec3::new(),
            u: Vec3::new(),
            v: Vec3::new(),
            w: Vec3::new(),
            defocus_disk_u: Vec3::new(),
            defocus_disk_v: Vec3::new(),
        }
    }
}

impl Camera {
    /// Fill unset configuration with its defaults and derive all cached
    /// viewport geometry. Must run before any ray is generated.
    #[verifier::rlimit(100)]
    #[verifier::spinoff_prover]
    pub fn initialize(&mut self)
        requires
            old(self).aspect_ratio matches Some(a) ==> a >= 1,
            old(self).image_width matches Some(w) ==> w >= 1,
        ensures
            initialized_from(*old(self), *final(self)),
    {
        let ghost c0 = *old(self);

        // Any option still unset takes its default, exactly once, here.
        let aspect: i64 = match self.aspect_ratio {
            Some(a) => a,
            None => SCALE,
        };
        let width: i32 = match self.image_width {
            Some(w) => w,
            None => 100,
        };
        let samples: i32 = match self.samples_per_pixel {
            Some(s) => s,
            None => 10,
        };
        let depth: i32 = match self.max_depth {
            Some(d) => d,
            None => 10,
        };
        let vfov: i64 = match self.vfov {
            Some(f) => f,
            None => 90_000_000,
        };
        let look_from: Point3 = match self.look_from {
            Some(p) => p,
            None => Point3::from(0, 0, -SCALE),
        };
        let look_at: Point3 = match self.look_at {
            Some(p) => p,
            None => Point3::from(0, 0, 0),
        };
        let vup: Point3 = match self.vup {
            Some(p) => p,
            None => Point3::from(0, SCALE, 0),
        };
        let defocus_angle: i64 = match self.defocus_angle {
            Some(a) => a,
            None => 0,
        };
        let focus: i64 = match self.focus_dist {
            Some(f) => f,
            None => 10_000_000,
        };
        self.aspect_ratio = Some(aspect);
        self.image_width = Some(width);
        self.samples_per_pixel = Some(samples);
        self.max_depth = Some(depth);
        self.vfov = Some(vfov);
        self.look_from = Some(look_from);
        self.look_at = Some(look_at);
        self.vup = Some(vup);
        self.defocus_angle = Some(defocus_angle);
        self.focus_dist = Some(focus);
        proof {
            assert(aspect as int == eff_aspect(c0));
            assert(width as int == eff_width(c0));
            assert(look_from@ == eff_look_from(c0));
            assert(look_at@ == eff_look_at(c0));
            assert(vup@ == eff_vup(c0));
        }

        proof {
            assert(vfov as int == eff_vfov(c0));
            assert(focus as int == eff_focus(c0));
            assert(defocus_angle as int == eff_defocus(c0));
        }

        let hgt: i32 = Self::image_height_for(width, aspect, Ghost(c0));
        self.image_height = hgt;
        self.center = look_from;

        let (viewport_height, viewport_width): (i64, i64) =
            Self::viewport_for(vfov, focus, width, hgt, Ghost(c0));

        let (bu, bv, bw): (Vec3, Vec3, Vec3) =
            Self::basis_for(look_from, look_at, vup, Ghost(c0));
        self.u = bu;
        self.v = bv;
        self.w = bw;

        let (pdu, pdv, p00): (Vec3, Vec3, Point3) = Self::pixels_for(
            look_from,
            bw,
            bu,
            bv,
            viewport_width,
            viewport_height,
            focus,
            width,
            hgt,
            Ghost(c0),
        );
        self.pixel_delta_u = pdu;
        self.pixel_delta_v = pdv;
        self.pixel00_loc = p00;

        let (ddu, ddv): (Vec3, Vec3) = Self::defocus_for(bu, bv, focus, defocus_angle, Ghost(c0));
        self.defocus_disk_u = ddu;
        self.defocus_disk_v = ddv;
    }

    /// Image height from width and aspect ratio, floored and at least one.
    fn image_height_for(width: i32, aspect: i64, Ghost(c0): Ghost<Camera>) -> (h: i32)
        requires
            width >= 1,
            aspect >= 1,
            width as int == eff_width(c0),
            aspect as int == eff_aspect(c0),
        ensures
            h as int == cam_height(c0),
            h >= 1,
    {
        let wfx: i64 = (width as i64) * SCALE;
        proof {
            assert(wfx >= SCALE) by (nonlinear_arith)
                requires wfx == (width as int) * (SCALE as int), width as int >= 1;
        }
        let hq: i64 = divi_fx(div_fx(wfx, aspect), SCALE);
        proof {
            crate::fixed::lemma_tdiv_mono(0, (wfx as int) * (SCALE as int), aspect as int);
            assert((wfx as int) * (SCALE as int) >= 0) by (nonlinear_arith)
                requires wfx as int >= 0;
            crate::fixed::lemma_tdiv_mono(0, fx_div(wfx as int, aspect as int), SCALE as int);
        }
        let hc: i32 = if hq > 0x7fff_ffff {
            0x7fff_ffff
        } else {
            hq as i32
        };
        if hc > 1 {
            hc
        } else {
            1
        }
    }

    /// Viewport height and width from the field of view, the focus distance
    /// and the pixel counts.
    fn viewport_for(vfov: i64, focus: i64, width: i32, height: i32, Ghost(c0): Ghost<Camera>) -> (vp: (
        i64,
        i64,
    ))
        requires
            width >= 1,
            height >= 1,
            vfov as int == eff_vfov(c0),
            focus as int == eff_focus(c0),
            width as int == eff_width(c0),
            height as int == cam_height(c0),
        ensures
            vp.0 as int == cam_viewport_height(c0),
            vp.1 as int == cam_viewport_width(c0),
    {
        let theta: i64 = degrees_to_radians(vfov);
        let h: i64 = tan_fx(divi_fx(theta, 2));
        let viewport_height: i64 = mul_fx(mul_fx(TWO_FX, h), focus);
        let wfx: i64 = (width as i64) * SCALE;
        let hfx: i64 = (height as i64) * SCALE;
        proof {
            assert(wfx >= SCALE) by (nonlinear_arith)
                requires wfx == (width as int) * (SCALE as int), width as int >= 1;
            assert(hfx >= SCALE) by (nonlinear_arith)
                requires hfx == (height as int) * (SCALE as int), height as int >= 1;
        }
        let viewport_width: i64 = mul_fx(viewport_height, div_fx(wfx, hfx));
        (viewport_height, viewport_width)
    }

    /// The orthonormal basis of the camera frame.
    fn basis_for(look_from: Point3, look_at: Point3, vup: Point3, Ghost(c0): Ghost<Camera>) -> (b: (
        Vec3,
        Vec3,
        Vec3,
    ))
        requires
            look_from@ == eff_look_from(c0),
            look_at@ == eff_look_at(c0),
            vup@ == eff_vup(c0),
        ensures
            b.0@ == cam_u(c0),
            b.1@ == cam_v(c0),
            b.2@ == cam_w(c0),
    {
        let w: Vec3 = unit_vector(look_from.sub(look_at));
        let u: Vec3 = unit_vector(cross(&vup, &w));
        let v: Vec3 = cross(&w, &u);
        (u, v, w)
    }

    /// The pixel-to-pixel delta vectors and the center of pixel (0, 0).
    fn pixels_for(
        center: Point3,
        w: Vec3,
        u: Vec3,
        v: Vec3,
        viewport_width: i64,
        viewport_height: i64,
        focus: i64,
        width: i32,
        height: i32,
        Ghost(c0): Ghost<Camera>,
    ) -> (px: (Vec3, Vec3, Point3))
        requires
            width >= 1,
            height >= 1,
            center@ == eff_look_from(c0),
            w@ == cam_w(c0),
            u@ == cam_u(c0),
            v@ == cam_v(c0),
            viewport_width as int == cam_viewport_width(c0),
            viewport_height as int == cam_viewport_height(c0),
            focus as int == eff_focus(c0),
            width as int == eff_width(c0),
            height as int == cam_height(c0),
        ensures
            px.0@ == cam_pixel_delta_u(c0),
            px.1@ == cam_pixel_delta_v(c0),
            px.2@ == cam_pixel00(c0),
    {
        let viewport_u: Vec3 = u.mul(viewport_width);
        let viewport_v: Vec3 = v.neg().mul(viewport_height);
        let wfx: i64 = (width as i64) * SCALE;
        let hfx: i64 = (height as i64) * SCALE;
        proof {
            assert(wfx >= SCALE) by (nonlinear_arith)
                requires wfx == (width as int) * (SCALE as int), width as int >= 1;
            assert(hfx >= SCALE) by (nonlinear_arith)
                requires hfx == (height as int) * (SCALE as int), height as int >= 1;
        }
        let pixel_delta_u: Vec3 = viewport_u.div(wfx);
        let pixel_delta_v: Vec3 = viewport_v.div(hfx);
        let viewport_upper_left: Vec3 = center
            .sub(w.mul(focus))
            .sub(viewport_u.div(TWO_FX))
            .sub(viewport_v.div(TWO_FX));
        let pixel00_loc: Point3 = viewport_upper_left.add(
            pixel_delta_u.add(pixel_delta_v).mul(HALF_FX),
        );
        (pixel_delta_u, pixel_delta_v, pixel00_loc)
    }

    /// The defocus disk basis vectors.
    fn defocus_for(u: Vec3, v: Vec3, focus: i64, defocus_angle: i64, Ghost(c0): Ghost<Camera>) -> (dd: (
        Vec3,
        Vec3,
    ))
        requires
            u@ == cam_u(c0),
            v@ == cam_v(c0),
            focus as int == eff_focus(c0),
            defocus_angle as int == eff_defocus(c0),
        ensures
            dd.0@ == cam_defocus_disk_u(c0),
            dd.1@ == cam_defocus_disk_v(c0),
    {
        let defocus_radius: i64 = mul_fx(
            focus,
            tan_fx(degrees_to_radians(div_fx(defocus_angle, TWO_FX))),
        );
        (u.mul(defocus_radius), v.mul(defocus_radius))
    }

    /// One jittered, possibly defocused ray toward pixel `(i, j)`. With a
    /// non-positive defocus angle the origin is exactly the camera center.
    pub fn get_ray(&self, i: i32, j: i32) -> (r: Ray)
        requires
            self.defocus_angle is Some,
        ensures
            exists|rx: int, ry: int, dp: Rvec|
                ray_sample_ok(rx, ry, dp) && r@ == get_ray_spec(
                    *self,
                    i as int,
                    j as int,
                    rx,
                    ry,
                    dp,
                ),
            self.defocus_angle->0 <= 0 ==> r@.orig == self.center@,
    {
        proof {
            assert(-0x8000_0000_0000_0000int <= (i as int) * (SCALE as int)
                <= 0x7fff_ffff_ffff_ffffint) by (nonlinear_arith)
                requires -0x8000_0000int <= i as int <= 0x7fff_ffffint;
            assert(-0x8000_0000_0000_0000int <= (j as int) * (SCALE as int)
                <= 0x7fff_ffff_ffff_ffffint) by (nonlinear_arith)
                requires -0x8000_0000int <= j as int <= 0x7fff_ffffint;
        }
        let ifx: i64 = (i as i64) * SCALE;
        let jfx: i64 = (j as i64) * SCALE;
        let pixel_center: Point3 = self
            .pixel00_loc
            .add(self.pixel_delta_u.mul(ifx))
            .add(self.pixel_delta_v.mul(jfx));
        let off: Vec3 = self.pixel_sample_square();
        let pixel_sample: Point3 = pixel_center.add(off);

        let ray_origin: Point3 = if self.defocus_angle.unwrap() <= 0 {
            self.center
        } else {
            self.defocus_disk_sample()
        };
        let ray_direction: Vec3 = pixel_sample.sub(ray_origin);

        let result: Ray = Ray::from(ray_origin, ray_direction);
        proof {
            let (rx, ry) = choose|rx: int, ry: int|
                0 <= rx < SCALE as int && 0 <= ry < SCALE as int && off@ == rv_add(
                    rv_scale(self.pixel_delta_u@, #[trigger] fx_add(-(HALF_FX as int), rx)),
                    rv_scale(self.pixel_delta_v@, #[trigger] fx_add(-(HALF_FX as int), ry)),
                );
            if self.defocus_angle->0 <= 0 {
                let dp = rv(0, 999_999, 0);
                assert(ray_sample_ok(rx, ry, dp));
                assert(result@ == get_ray_spec(*self, i as int, j as int, rx, ry, dp));
            } else {
                let dp = choose|dp: Rvec|
                    1 <= rv_ls(dp) < SCALE as int && dp.z == 0 && ray_origin@ == rv_add(
                        rv_add(self.center@, rv_scale(self.defocus_disk_u@, dp.x)),
                        rv_scale(self.defocus_disk_v@, dp.y),
                    );
                assert(ray_sample_ok(rx, ry, dp));
                assert(result@ == get_ray_spec(*self, i as int, j as int, rx, ry, dp));
            }
        }
        result
    }

    /// A random offset within one pixel's footprint, for antialiasing.
    fn pixel_sample_square(&self) -> (r: Vec3)
        ensures
            exists|rx: int, ry: int|
                0 <= rx < SCALE as int && 0 <= ry < SCALE as int && r@ == rv_add(
                    rv_scale(self.pixel_delta_u@, #[trigger] fx_add(-(HALF_FX as int), rx)),
                    rv_scale(self.pixel_delta_v@, #[trigger] fx_add(-(HALF_FX as int), ry)),
                ),
    {
        let rx: i64 = random();
        let ry: i64 = random();
        let px: i64 = add_fx(-HALF_FX, rx);
        let py: i64 = add_fx(-HALF_FX, ry);
        let r: Vec3 = self.pixel_delta_u.mul(px).add(self.pixel_delta_v.mul(py));
        proof {
            assert(0 <= rx as int && (rx as int) < SCALE as int && 0 <= ry as int
                && (ry as int) < SCALE as int && r@ == rv_add(
                rv_scale(self.pixel_delta_u@, fx_add(-(HALF_FX as int), rx as int)),
                rv_scale(self.pixel_delta_v@, fx_add(-(HALF_FX as int), ry as int)),
            ));
        }
        r
    }

    /// A random point of the camera's defocus disk.
    fn defocus_disk_sample(&self) -> (r: Point3)
        ensures
            exists|dp: Rvec|
                1 <= rv_ls(dp) < SCALE as int && dp.z == 0 && r@ == rv_add(
                    rv_add(self.center@, rv_scale(self.defocus_disk_u@, dp.x)),
                    rv_scale(self.defocus_disk_v@, dp.y),
                ),
    {
        let p: Vec3 = random_in_unit_disk();
        let r: Point3 = self
            .center
            .add(self.defocus_disk_u.mul(p.x()))
            .add(self.defocus_disk_v.mul(p.y()));
        proof {
            assert(1 <= rv_ls(p@) && rv_ls(p@) < SCALE as int && p@.z == 0 && r@ == rv_add(
                rv_add(self.center@, rv_scale(self.defocus_disk_u@, p@.x)),
                rv_scale(self.defocus_disk_v@, p@.y),
            ));
        }
        r
    }

    /// The color gathered along a ray: black once the bounce budget is
    /// exhausted, the material-attenuated recursion on a scatter, black on
    /// absorption, and the sky gradient where nothing is hit.
    #[verifier::rlimit(100)]
    #[verifier::spinoff_prover]
    pub fn ray_color(r: &Ray, depth: i32, world: &HittableList) -> (res: Color)
        requires
            spheres_wf(world@),
        ensures
            color_outcome(world@, r@, depth as int, res@),
            depth <= 0 ==> res@ == rv_zero(),
            depth > 0 && no_hit_spec(world@, r@) ==> res@ == sky_color(r@.dir),
        decreases depth,
    {
        // When the ray bounce limit is exceeded, no more light is gathered.
        if depth <= 0 {
            return Color::new();
        }

        match world.hit(r, Interval::from(SHADOW_ACNE_MIN, INFINITY)) {
            Some(rec) => {
                let ghost i0 = choose|i: int|
                    0 <= i < world@.len() && sphere_root(
                        #[trigger] world@[i],
                        r@.orig,
                        r@.dir,
                        SHADOW_ACNE_MIN as int,
                        INFINITY as int,
                    ) == Some(rec.t as int) && record_fields_for(
                        world@[i],
                        r@.orig,
                        r@.dir,
                        rec,
                        rec.t as int,
                    );
                proof {
                    assert(!no_hit_spec(world@, r@));
                }
                let scat: Option<(Ray, Color)> = rec.mat.scatter(r, &rec);
                proof {
                    assert(scatter_at(world@[i0], r@, rec.t as int, scatter_view(scat)));
                }
                match scat {
                    Some((scattered, attenuation)) => {
                        let inner: Color = Self::ray_color(&scattered, depth - 1, world);
                        let res: Color = attenuation.mul_vec(inner);
                        proof {
                            assert(scatter_view(scat) == Some((scattered@, attenuation@)));
                            assert(hit_root_at(world@, r@, i0, rec.t as int));
                            assert(scatter_at(
                                world@[i0],
                                r@,
                                rec.t as int,
                                Some((scattered@, attenuation@)),
                            ));
                            assert(color_outcome(world@, scattered@, depth - 1, inner@));
                            assert(res@ == rv_mulv(attenuation@, inner@));
                            assert(scattered_outcome(world@, r@, depth - 1, res@));
                            assert(color_outcome(world@, r@, depth as int, res@));
                        }
                        res
                    }
                    None => {
                        let res: Color = Color::new();
                        proof {
                            assert(scatter_view(scat) is None);
                            assert(hit_root_at(world@, r@, i0, rec.t as int));
                            assert(scatter_at(world@[i0], r@, rec.t as int, None));
                            assert(color_outcome(world@, r@, depth as int, res@));
                        }
                        res
                    }
                }
            }
            None => {
                let unit_direction: Vec3 = unit_vector(r.direction());
                let a: i64 = mul_fx(HALF_FX, add_fx(unit_direction.y(), SCALE));
                let white: Color = Color::from(SCALE, SCALE, SCALE);
                let blue: Color = Color::from(HALF_FX, 700_000, SCALE);
                white.mul(sub_fx(SCALE, a)).add(blue.mul(a))
            }
        }
    }

    /// Render the world: initialize, then for every pixel in scanline order
    /// (top to bottom, left to right) sum `samples_per_pixel` traced sample
    /// colors. The summed pixel colors come back row-major: the pixel at
    /// row j, column i stands at index `j * width + i`, ready for the color
    /// sink together with the sample count.
    pub fn render(&mut self, world: &HittableList) -> (pixels: Vec<Color>)
        requires
            spheres_wf(world@),
            old(self).aspect_ratio matches Some(a) ==> a >= 1,
            old(self).image_width matches Some(w) ==> w >= 1,
        ensures
            initialized_from(*old(self), *final(self)),
            pixels@.len() == cam_height(*old(self)) * eff_width(*old(self)),
            forall|jj: int, ii: int|
                0 <= jj < cam_height(*old(self)) && 0 <= ii < eff_width(*old(self))
                    ==> #[trigger] sample_sum_outcome(
                    world@,
                    *final(self),
                    ii,
                    jj,
                    eff_depth(*old(self)),
                    eff_samples(*old(self)),
                    pixels@[jj * eff_width(*old(self)) + ii]@,
                ),
    {
        self.initialize();
        let ghost cam = *self;
        let ghost c0 = *old(self);
        proof {
            assert(eff_width(c0) >= 1);
            assert(cam_height(c0) >= 1);
        }

        let width: i32 = self.image_width.unwrap();
        let samples: i32 = self.samples_per_pixel.unwrap();
        let depth: i32 = self.max_depth.unwrap();
        let height: i32 = self.image_height;
        proof {
            assert(depth as int == eff_depth(c0));
            assert(samples as int == eff_samples(c0));
        }

        let mut pixels: Vec<Color> = Vec::new();
        let mut j: i32 = 0;
        while j < height
            invariant
                *self == cam,
                initialized_from(c0, cam),
                spheres_wf(world@),
                0 <= j <= height,
                height == cam.image_height,
                width as int == eff_width(c0),
                1 <= width,
                depth as int == eff_depth(c0),
                samples as int == eff_samples(c0),
                pixels@.len() == (j as int) * (width as int),
                forall|jj: int, ii: int|
                    0 <= jj < j as int && 0 <= ii < width as int
                        ==> #[trigger] sample_sum_outcome(
                        world@,
                        cam,
                        ii,
                        jj,
                        depth as int,
                        samples as int,
                        pixels@[jj * (width as int) + ii]@,
                    ),
            decreases height - j,
        {
            let mut i: i32 = 0;
            while i < width
                invariant
                    *self == cam,
                    initialized_from(c0, cam),
                    spheres_wf(world@),
                    0 <= i <= width,
                    0 <= j < height,
                    height == cam.image_height,
                    width as int == eff_width(c0),
                    depth as int == eff_depth(c0),
                    samples as int == eff_samples(c0),
                    pixels@.len() == (j as int) * (width as int) + i as int,
                    forall|jj: int, ii: int|
                        (0 <= jj < j as int && 0 <= ii < width as int)
                            || (jj == j as int && 0 <= ii < i as int)
                            ==> #[trigger] sample_sum_outcome(
                            world@,
                            cam,
                            ii,
                            jj,
                            depth as int,
                            samples as int,
                            pixels@[jj * (width as int) + ii]@,
                        ),
                decreases width - i,
            {
                let mut pixel_color: Color = Color::new();
                let mut s: i32 = 0;
                while s < samples
                    invariant
                        *self == cam,
                        initialized_from(c0, cam),
                        spheres_wf(world@),
                        0 <= s,
                        s <= samples || s == 0,
                        sample_sum_outcome(
                            world@,
                            cam,
                            i as int,
                            j as int,
                            depth as int,
                            s as int,
                            pixel_color@,
                        ),
                    decreases samples - s,
                {
                    let ray: Ray = self.get_ray(i, j);
                    let sc: Color = Self::ray_color(&ray, depth, world);
                    let ghost prev = pixel_color@;
                    pixel_color.add_assign(sc);
                    proof {
                        let (rx, ry, dp) = choose|rx: int, ry: int, dp: Rvec|
                            ray_sample_ok(rx, ry, dp) && ray@ == get_ray_spec(
                                cam,
                                i as int,
                                j as int,
                                rx,
                                ry,
                                dp,
                            );
                        assert(color_outcome(
                            world@,
                            get_ray_spec(cam, i as int, j as int, rx, ry, dp),
                            depth as int,
                            sc@,
                        ));
                        assert(pixel_color@ == rv_add(prev, sc@));
                        assert(sample_sum_outcome(
                            world@,
                            cam,
                            i as int,
                            j as int,
                            depth as int,
                            s as int + 1,
                            pixel_color@,
                        ));
                    }
                    s += 1;
                }
                proof {
                    if samples <= 0 {
                        assert(s == 0);
                        assert(pixel_color@ == rv_zero());
                    } else {
                        assert(s == samples);
                    }
                    assert(sample_sum_outcome(
                        world@,
                        cam,
                        i as int,
                        j as int,
                        depth as int,
                        samples as int,
                        pixel_color@,
                    ));
                }
                let ghost old_pixels = pixels@;
                pixels.push(pixel_color);
                proof {
                    let w = width as int;
                    assert(pixels@[(j as int) * w + i as int] == pixel_color);
                    assert forall|jj: int, ii: int|
                        (0 <= jj < j as int && 0 <= ii < w)
                            || (jj == j as int && 0 <= ii < i as int + 1)
                        implies #[trigger] sample_sum_outcome(
                        world@,
                        cam,
                        ii,
                        jj,
                        depth as int,
                        samples as int,
                        pixels@[jj * w + ii]@,
                    ) by {
                        if jj == j as int && ii == i as int {
                        } else {
                            vstd::arithmetic::mul::lemma_mul_nonnegative(jj, w);
                            if jj < j as int {
                                vstd::arithmetic::mul::lemma_mul_inequality(jj + 1, j as int, w);
                                assert((jj + 1) * w == jj * w + w) by (nonlinear_arith);
                            }
                            assert(0 <= jj * w + ii < old_pixels.len());
                            assert(pixels@[jj * w + ii] == old_pixels[jj * w + ii]);
                        }
                    }
                }
                i += 1;
            }
            proof {
                assert(((j as int) + 1) * (width as int)
                    == (j as int) * (width as int) + width as int) by (nonlinear_arith);
            }
            j += 1;
        }
        pixels
    }
}

} // verus!
