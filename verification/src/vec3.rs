//! Three-component vectors over the fixed-point scalars of `crate::fixed`.
//!
//! A `Vec3` is three raw coordinates; its mathematical model (`view`) is an
//! `Rvec`, the same three coordinates as unbounded integers. Every operation
//! is pinned by its `ensures` to a spec function over `Rvec`.

use vstd::prelude::*;
use crate::fixed::{
    SCALE, FX_MAX, FX_MIN,
    fx_add, fx_sub, fx_neg, fx_mul, fx_div, fx_sqrt,
    add_fx, sub_fx, neg_fx, mul_fx, div_fx, sqrt_fx,
};
use crate::utility::{random, random_in_range};

verus! {

/// A raw magnitude below which a vector counts as degenerate: below it every
/// squared component underflows to zero raw units, so normalization stops
/// resolving. It plays the role a far smaller cutoff (such as 1e-8) plays at
/// floating-point resolution.
pub const NEAR_EPS: i64 = 1_000;

/// The mathematical model of a vector: raw coordinates as unbounded integers.
pub ghost struct Rvec {
    pub x: int,
    pub y: int,
    pub z: int,
}

pub open spec fn rv(x: int, y: int, z: int) -> Rvec {
    Rvec { x, y, z }
}

pub open spec fn rv_zero() -> Rvec {
    rv(0, 0, 0)
}

/// All coordinates lie in the representable raw range.
pub open spec fn rv_bounded(a: Rvec) -> bool {
    &&& FX_MIN as int <= a.x <= FX_MAX as int
    &&& FX_MIN as int <= a.y <= FX_MAX as int
    &&& FX_MIN as int <= a.z <= FX_MAX as int
}

pub open spec fn rv_add(a: Rvec, b: Rvec) -> Rvec {
    rv(fx_add(a.x, b.x), fx_add(a.y, b.y), fx_add(a.z, b.z))
}

pub open spec fn rv_sub(a: Rvec, b: Rvec) -> Rvec {
    rv(fx_sub(a.x, b.x), fx_sub(a.y, b.y), fx_sub(a.z, b.z))
}

pub open spec fn rv_neg(a: Rvec) -> Rvec {
    rv(fx_neg(a.x), fx_neg(a.y), fx_neg(a.z))
}

/// Scale by a raw scalar.
pub open spec fn rv_scale(a: Rvec, t: int) -> Rvec {
    rv(fx_mul(a.x, t), fx_mul(a.y, t), fx_mul(a.z, t))
}

/// Component-wise product (albedo tinting).
pub open spec fn rv_mulv(a: Rvec, b: Rvec) -> Rvec {
    rv(fx_mul(a.x, b.x), fx_mul(a.y, b.y), fx_mul(a.z, b.z))
}

/// Divide each coordinate by a nonzero raw scalar.
pub open spec fn rv_divs(a: Rvec, t: int) -> Rvec
    recommends
        t != 0,
{
    rv(fx_div(a.x, t), fx_div(a.y, t), fx_div(a.z, t))
}

pub open spec fn rv_dot(a: Rvec, b: Rvec) -> int {
    fx_add(fx_add(fx_mul(a.x, b.x), fx_mul(a.y, b.y)), fx_mul(a.z, b.z))
}

pub open spec fn rv_ls(a: Rvec) -> int {
    rv_dot(a, a)
}

pub open spec fn rv_len(a: Rvec) -> int {
    fx_sqrt(rv_ls(a))
}

pub open spec fn rv_near_zero(a: Rvec) -> bool {
    &&& -(NEAR_EPS as int) < a.x < NEAR_EPS as int
    &&& -(NEAR_EPS as int) < a.y < NEAR_EPS as int
    &&& -(NEAR_EPS as int) < a.z < NEAR_EPS as int
}

pub open spec fn rv_cross(a: Rvec, b: Rvec) -> Rvec {
    rv(
        fx_sub(fx_mul(a.y, b.z), fx_mul(a.z, b.y)),
        fx_sub(fx_mul(a.z, b.x), fx_mul(a.x, b.z)),
        fx_sub(fx_mul(a.x, b.y), fx_mul(a.y, b.x)),
    )
}

/// Normalization. A vector whose computed length is below one raw unit has no
/// meaningful direction at this scale and is returned unchanged; the interface
/// leaves that case to the caller (valid callers pass longer vectors).
pub open spec fn rv_unit(a: Rvec) -> Rvec {
    if rv_len(a) < 1 {
        a
    } else {
        rv(
            fx_div(fx_mul(a.x, SCALE as int), rv_len(a)),
            fx_div(fx_mul(a.y, SCALE as int), rv_len(a)),
            fx_div(fx_mul(a.z, SCALE as int), rv_len(a)),
        )
    }
}

#[derive(Clone, Copy, Debug, PartialEq, Eq, Structural)]
pub struct Vec3 {
    e0: i64,
    e1: i64,
    e2: i64,
}

impl View for Vec3 {
    type V = Rvec;

    closed spec fn view(&self) -> Rvec {
        rv(self.e0 as int, self.e1 as int, self.e2 as int)
    }
}

impl Vec3 {
    pub fn new() -> (r: Self)
        ensures
            r@ == rv_zero(),
    {
        Vec3 { e0: 0, e1: 0, e2: 0 }
    }

    pub fn from(e0: i64, e1: i64, e2: i64) -> (r: Self)
        ensures
            r@ == rv(e0 as int, e1 as int, e2 as int),
    {
        Vec3 { e0, e1, e2 }
    }

    pub fn x(&self) -> (r: i64)
        ensures
            r as int == self@.x,
    {
        self.e0
    }

    pub fn y(&self) -> (r: i64)
        ensures
            r as int == self@.y,
    {
        self.e1
    }

    pub fn z(&self) -> (r: i64)
        ensures
            r as int == self@.z,
    {
        self.e2
    }

    /// Indexed read: coordinates 0, 1, 2.
    pub fn get(&self, index: usize) -> (r: i64)
        requires
            index < 3,
        ensures
            index == 0 ==> r as int == self@.x,
            index == 1 ==> r as int == self@.y,
            index == 2 ==> r as int == self@.z,
    {
        if index == 0 {
            self.e0
        } else if index == 1 {
            self.e1
        } else {
            self.e2
        }
    }

    /// Indexed write: coordinates 0, 1, 2.
    pub fn set(&mut self, index: usize, value: i64)
        requires
            index < 3,
        ensures
            index == 0 ==> final(self)@ == rv(value as int, old(self)@.y, old(self)@.z),
            index == 1 ==> final(self)@ == rv(old(self)@.x, value as int, old(self)@.z),
            index == 2 ==> final(self)@ == rv(old(self)@.x, old(self)@.y, value as int),
    {
        if index == 0 {
            self.e0 = value;
        } else if index == 1 {
            self.e1 = value;
        } else {
            self.e2 = value;
        }
    }

    pub fn length_squared(&self) -> (r: i64)
        ensures
            r as int == rv_ls(self@),
    {
        add_fx(
            add_fx(mul_fx(self.e0, self.e0), mul_fx(self.e1, self.e1)),
            mul_fx(self.e2, self.e2),
        )
    }

    /// True when the vector is close to zero in every dimension.
    pub fn near_zero(&self) -> (r: bool)
        ensures
            r == rv_near_zero(self@),
    {
        -NEAR_EPS < self.e0 && self.e0 < NEAR_EPS
            && -NEAR_EPS < self.e1 && self.e1 < NEAR_EPS
            && -NEAR_EPS < self.e2 && self.e2 < NEAR_EPS
    }

    pub fn length(&self) -> (r: i64)
        ensures
            r as int == rv_len(self@),
    {
        sqrt_fx(self.length_squared())
    }

    /// A vector with uniformly random coordinates in `[0, 1)`.
    pub fn random() -> (r: Self)
        ensures
            0 <= r@.x < SCALE as int,
            0 <= r@.y < SCALE as int,
            0 <= r@.z < SCALE as int,
    {
        Vec3::from(random(), random(), random())
    }

    /// A vector with uniformly random coordinates in `[min, max)`.
    pub fn random_in_range(min: i64, max: i64) -> (r: Self)
        requires
            min < max,
        ensures
            min as int <= r@.x < max as int,
            min as int <= r@.y < max as int,
            min as int <= r@.z < max as int,
    {
        Vec3::from(
            random_in_range(min, max),
            random_in_range(min, max),
            random_in_range(min, max),
        )
    }

    pub fn add(self, rhs: Self) -> (r: Self)
        ensures
            r@ == rv_add(self@, rhs@),
    {
        Vec3::from(add_fx(self.e0, rhs.e0), add_fx(self.e1, rhs.e1), add_fx(self.e2, rhs.e2))
    }

    pub fn add_assign(&mut self, rhs: Self)
        ensures
            final(self)@ == rv_add(old(self)@, rhs@),
    {
        self.e0 = add_fx(self.e0, rhs.e0);
        self.e1 = add_fx(self.e1, rhs.e1);
        self.e2 = add_fx(self.e2, rhs.e2);
    }

    pub fn sub(self, rhs: Self) -> (r: Self)
        ensures
            r@ == rv_sub(self@, rhs@),
    {
        Vec3::from(sub_fx(self.e0, rhs.e0), sub_fx(self.e1, rhs.e1), sub_fx(self.e2, rhs.e2))
    }

    pub fn neg(self) -> (r: Self)
        ensures
            r@ == rv_neg(self@),
    {
        Vec3::from(neg_fx(self.e0), neg_fx(self.e1), neg_fx(self.e2))
    }

    /// Scale by a raw scalar.
    pub fn mul(self, rhs: i64) -> (r: Self)
        ensures
            r@ == rv_scale(self@, rhs as int),
    {
        Vec3::from(mul_fx(self.e0, rhs), mul_fx(self.e1, rhs), mul_fx(self.e2, rhs))
    }

    /// Component-wise product.
    pub fn mul_vec(self, rhs: Self) -> (r: Self)
        ensures
            r@ == rv_mulv(self@, rhs@),
    {
        Vec3::from(mul_fx(self.e0, rhs.e0), mul_fx(self.e1, rhs.e1), mul_fx(self.e2, rhs.e2))
    }

    pub fn mul_assign(&mut self, rhs: i64)
        ensures
            final(self)@ == rv_scale(old(self)@, rhs as int),
    {
        self.e0 = mul_fx(self.e0, rhs);
        self.e1 = mul_fx(self.e1, rhs);
        self.e2 = mul_fx(self.e2, rhs);
    }

    /// Divide by a nonzero raw scalar.
    pub fn div(self, rhs: i64) -> (r: Self)
        requires
            rhs != 0,
        ensures
            r@ == rv_divs(self@, rhs as int),
    {
        Vec3::from(div_fx(self.e0, rhs), div_fx(self.e1, rhs), div_fx(self.e2, rhs))
    }

    pub fn div_assign(&mut self, rhs: i64)
        requires
            rhs != 0,
        ensures
            final(self)@ == rv_divs(old(self)@, rhs as int),
    {
        self.e0 = div_fx(self.e0, rhs);
        self.e1 = div_fx(self.e1, rhs);
        self.e2 = div_fx(self.e2, rhs);
    }
}

pub fn dot(lhs: &Vec3, rhs: &Vec3) -> (r: i64)
    ensures
        r as int == rv_dot(lhs@, rhs@),
{
    add_fx(
        add_fx(mul_fx(lhs.e0, rhs.e0), mul_fx(lhs.e1, rhs.e1)),
        mul_fx(lhs.e2, rhs.e2),
    )
}

pub fn cross(lhs: &Vec3, rhs: &Vec3) -> (r: Vec3)
    ensures
        r@ == rv_cross(lhs@, rhs@),
{
    Vec3::from(
        sub_fx(mul_fx(lhs.e1, rhs.e2), mul_fx(lhs.e2, rhs.e1)),
        sub_fx(mul_fx(lhs.e2, rhs.e0), mul_fx(lhs.e0, rhs.e2)),
        sub_fx(mul_fx(lhs.e0, rhs.e1), mul_fx(lhs.e1, rhs.e0)),
    )
}

pub fn unit_vector(v: Vec3) -> (r: Vec3)
    ensures
        r@ == rv_unit(v@),
{
    let len: i64 = v.length();
    if len < 1 {
        v
    } else {
        Vec3::from(
            div_fx(mul_fx(v.e0, SCALE), len),
            div_fx(mul_fx(v.e1, SCALE), len),
            div_fx(mul_fx(v.e2, SCALE), len),
        )
    }
}

/// Rejection sampling inside the unit sphere: draw from the enclosing cube
/// until the squared length falls strictly between zero and one. The number
/// of rounds is bounded so that the loop provably ends; after that many
/// failed draws (never observed in practice) a fixed axis direction stands in.
fn random_in_unit_sphere() -> (r: Vec3)
    ensures
        1 <= rv_ls(r@) < SCALE as int,
        -(SCALE as int) <= r@.x <= SCALE as int,
        -(SCALE as int) <= r@.y <= SCALE as int,
        -(SCALE as int) <= r@.z <= SCALE as int,
{
    let mut attempts: u32 = 0;
    while attempts < 100_000
        decreases 100_000 - attempts,
    {
        let p: Vec3 = Vec3::random_in_range(-SCALE, SCALE);
        let ls: i64 = p.length_squared();
        if 1 <= ls && ls < SCALE {
            return p;
        }
        attempts += 1;
    }
    Vec3::from(0, 0, SCALE - 1)
}

/// Holds of a vector obtained by normalizing some sample of the unit sphere:
/// the form every random unit direction takes.
pub open spec fn is_unit_sample(u: Rvec) -> bool {
    exists|p: Rvec| 1 <= rv_ls(p) < SCALE as int && u == rv_unit(p)
}

/// A random vector of (approximately) unit length.
pub fn random_unit_vector() -> (r: Vec3)
    ensures
        is_unit_sample(r@),
        rv_bounded(r@),
{
    let p: Vec3 = random_in_unit_sphere();
    let u: Vec3 = unit_vector(p);
    proof {
        assert(1 <= rv_ls(p@) < SCALE as int && u@ == rv_unit(p@));
    }
    u
}

/// Rejection sampling in the unit disk of the z = 0 plane.
pub fn random_in_unit_disk() -> (r: Vec3)
    ensures
        1 <= rv_ls(r@) < SCALE as int,
        r@.z == 0,
{
    let mut attempts: u32 = 0;
    while attempts < 100_000
        decreases 100_000 - attempts,
    {
        let p: Vec3 = Vec3::from(random_in_range(-SCALE, SCALE), random_in_range(-SCALE, SCALE), 0);
        let ls: i64 = p.length_squared();
        if 1 <= ls && ls < SCALE {
            return p;
        }
        attempts += 1;
    }
    Vec3::from(0, SCALE - 1, 0)
}

/// A random unit-length vector on the hemisphere around `normal`: the sampled
/// direction, negated when it points into the surface.
pub fn random_on_hemisphere(normal: &Vec3) -> (r: Vec3)
    ensures
        exists|p: Rvec|
            1 <= rv_ls(p) < SCALE as int
                && (r@ == rv_unit(p) || r@ == rv_neg(rv_unit(p))),
        rv_dot(normal@, r@) >= 0,
{
    let on_unit_sphere: Vec3 = random_unit_vector();
    let d: i64 = dot(normal, &on_unit_sphere);
    if d > 0 {
        on_unit_sphere
    } else {
        let n: Vec3 = on_unit_sphere.neg();
        proof {
            lemma_dot_neg_right(normal@, on_unit_sphere@);
        }
        n
    }
}

/// Negating the right argument negates the saturated dot product, as long as
/// the argument's coordinates are representable.
pub proof fn lemma_dot_neg_right(a: Rvec, b: Rvec)
    requires
        rv_bounded(b),
    ensures
        rv_dot(a, rv_neg(b)) == fx_neg(rv_dot(a, b)),
{
    assert(a.x * (-b.x) == -(a.x * b.x)) by (nonlinear_arith);
    assert(a.y * (-b.y) == -(a.y * b.y)) by (nonlinear_arith);
    assert(a.z * (-b.z) == -(a.z * b.z)) by (nonlinear_arith);
}

/// The exact mathematical dot product of raw coordinates, before any
/// saturation or rescaling.
pub open spec fn dot_exact(a: Rvec, b: Rvec) -> int {
    a.x * b.x + a.y * b.y + a.z * b.z
}

pub open spec fn add_exact(a: Rvec, b: Rvec) -> Rvec {
    rv(a.x + b.x, a.y + b.y, a.z + b.z)
}

pub open spec fn scale_exact(a: Rvec, k: int) -> Rvec {
    rv(k * a.x, k * a.y, k * a.z)
}

/// Law: the computed dot product is symmetric in its arguments, saturation
/// and rounding included.
pub proof fn lemma_dot_symmetric(a: Rvec, b: Rvec)
    ensures
        rv_dot(a, b) == rv_dot(b, a),
{
}

/// Law: over the exact model (no saturation, no rescaling) the dot product is
/// linear in each argument, hence bilinear together with its symmetry.
pub proof fn lemma_dot_bilinear(a: Rvec, b: Rvec, c: Rvec, k: int)
    ensures
        dot_exact(add_exact(a, b), c) == dot_exact(a, c) + dot_exact(b, c),
        dot_exact(scale_exact(a, k), c) == k * dot_exact(a, c),
        dot_exact(a, b) == dot_exact(b, a),
{
    assert((a.x + b.x) * c.x == a.x * c.x + b.x * c.x) by (nonlinear_arith);
    assert((a.y + b.y) * c.y == a.y * c.y + b.y * c.y) by (nonlinear_arith);
    assert((a.z + b.z) * c.z == a.z * c.z + b.z * c.z) by (nonlinear_arith);
    let px = a.x * c.x;
    let py = a.y * c.y;
    let pz = a.z * c.z;
    assert((k * a.x) * c.x == k * px) by (nonlinear_arith)
        requires px == a.x * c.x;
    assert((k * a.y) * c.y == k * py) by (nonlinear_arith)
        requires py == a.y * c.y;
    assert((k * a.z) * c.z == k * pz) by (nonlinear_arith)
        requires pz == a.z * c.z;
    assert(k * px + k * py + k * pz == k * (px + py + pz)) by (nonlinear_arith);
}

/// Law: swapping the arguments of the cross product negates it exactly, even
/// in saturated arithmetic.
pub proof fn lemma_cross_antisymmetric(a: Rvec, b: Rvec)
    ensures
        rv_cross(a, b) == rv_neg(rv_cross(b, a)),
{
}

/// Law: the cross product of a vector with itself is the zero vector.
pub proof fn lemma_cross_self(a: Rvec)
    ensures
        rv_cross(a, a) == rv_zero(),
{
}

} // verus!
