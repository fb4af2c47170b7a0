//! Scalar fixed-point arithmetic.
//!
//! A real quantity is stored as a raw `i64` holding `value * SCALE`, so one
//! raw unit is a millionth. Every operation saturates into the symmetric
//! range `[FX_MIN, FX_MAX]`, which keeps the arithmetic total: no operation
//! here can overflow or panic. Each executable operation is pinned exactly,
//! by its `ensures`, to the spec function of the same shape.

use vstd::prelude::*;

verus! {

/// Raw units per 1.0.
pub const SCALE: i64 = 1_000_000;

/// Largest representable raw value.
pub const FX_MAX: i64 = i64::MAX;

/// Smallest representable raw value; the range is symmetric in order that
/// negation stays total.
pub const FX_MIN: i64 = -i64::MAX;

/// 2.0 in raw units.
pub const TWO_FX: i64 = 2_000_000;

/// 0.5 in raw units.
pub const HALF_FX: i64 = 500_000;

/// Saturate a mathematical integer into the representable raw range.
pub open spec fn fx_clamp(x: int) -> int {
    if x > FX_MAX as int {
        FX_MAX as int
    } else if x < FX_MIN as int {
        FX_MIN as int
    } else {
        x
    }
}

/// Division rounded toward zero, for a positive divisor.
pub open spec fn tdiv(a: int, b: int) -> int
    recommends
        b >= 1,
{
    if a >= 0 {
        a / b
    } else {
        -((-a) / b)
    }
}

pub open spec fn fx_add(a: int, b: int) -> int {
    fx_clamp(a + b)
}

pub open spec fn fx_sub(a: int, b: int) -> int {
    fx_clamp(a - b)
}

pub open spec fn fx_neg(a: int) -> int {
    fx_clamp(-a)
}

pub open spec fn fx_mul(a: int, b: int) -> int {
    fx_clamp(tdiv(a * b, SCALE as int))
}

pub open spec fn fx_div(a: int, b: int) -> int
    recommends
        b != 0,
{
    if b >= 0 {
        fx_clamp(tdiv(a * (SCALE as int), b))
    } else {
        fx_clamp(-tdiv(a * (SCALE as int), -b))
    }
}

/// Division of a raw value by a plain integer (not by another raw value).
pub open spec fn fx_divi(a: int, k: int) -> int
    recommends
        k >= 1,
{
    fx_clamp(tdiv(a, k))
}

/// Floor of the square root of a mathematical integer.
pub open spec fn sqrt_floor(n: int) -> int
    decreases n,
{
    if n <= 0 {
        0
    } else if (sqrt_floor(n - 1) + 1) * (sqrt_floor(n - 1) + 1) <= n {
        sqrt_floor(n - 1) + 1
    } else {
        sqrt_floor(n - 1)
    }
}

/// Square root in raw units: the root of `x / SCALE` is `sqrt(x * SCALE) / SCALE`.
/// A negative argument has no real root and is taken to 0.
pub open spec fn fx_sqrt(x: int) -> int {
    sqrt_floor(x * (SCALE as int))
}

pub proof fn lemma_sqrt_floor(n: int)
    ensures
        sqrt_floor(n) >= 0,
        n >= 0 ==> sqrt_floor(n) * sqrt_floor(n) <= n,
        n >= 0 ==> n < (sqrt_floor(n) + 1) * (sqrt_floor(n) + 1),
        n <= 0 ==> sqrt_floor(n) == 0,
    decreases n,
{
    if n <= 0 {
    } else {
        lemma_sqrt_floor(n - 1);
        let r = sqrt_floor(n - 1);
        if n - 1 == 0 {
            assert(r == 0);
        }
        assert((r + 1) * (r + 1) < (r + 2) * (r + 2)) by (nonlinear_arith)
            requires r >= 0;
    }
}

pub proof fn lemma_sqrt_floor_unique(n: int, r: int)
    requires
        0 <= r,
        r * r <= n,
        n < (r + 1) * (r + 1),
    ensures
        r == sqrt_floor(n),
{
    lemma_sqrt_floor(n);
    let s = sqrt_floor(n);
    if r < s {
        assert((r + 1) * (r + 1) <= s * s) by (nonlinear_arith)
            requires 0 <= r, r + 1 <= s;
        assert(false);
    }
    if s < r {
        assert((s + 1) * (s + 1) <= r * r) by (nonlinear_arith)
            requires 0 <= s, s + 1 <= r;
        assert(false);
    }
}

/// Sine by its Maclaurin series through the ninth power: accurate to a few
/// raw units over the half-turn range the camera uses.
#[verifier::opaque]
pub open spec fn fx_sin(x: int) -> int {
    let x2 = fx_mul(x, x);
    let x3 = fx_mul(x2, x);
    let x5 = fx_mul(x3, x2);
    let x7 = fx_mul(x5, x2);
    let x9 = fx_mul(x7, x2);
    fx_add(
        fx_sub(fx_add(fx_sub(x, fx_divi(x3, 6)), fx_divi(x5, 120)), fx_divi(x7, 5040)),
        fx_divi(x9, 362880),
    )
}

/// Cosine by its Maclaurin series through the eighth power.
#[verifier::opaque]
pub open spec fn fx_cos(x: int) -> int {
    let x2 = fx_mul(x, x);
    let x4 = fx_mul(x2, x2);
    let x6 = fx_mul(x4, x2);
    let x8 = fx_mul(x6, x2);
    fx_add(
        fx_sub(fx_add(fx_sub(SCALE as int, fx_divi(x2, 2)), fx_divi(x4, 24)), fx_divi(x6, 720)),
        fx_divi(x8, 40320),
    )
}

/// Tangent: sine over cosine. Where the cosine vanishes (or goes negative,
/// outside the quarter-turn range) the value saturates at the top of the
/// representable range.
#[verifier::opaque]
pub open spec fn fx_tan(x: int) -> int {
    if fx_cos(x) < 1 {
        FX_MAX as int
    } else {
        fx_div(fx_sin(x), fx_cos(x))
    }
}

pub fn sin_fx(x: i64) -> (r: i64)
    ensures
        r as int == fx_sin(x as int),
{
    proof {
        reveal(fx_sin);
    }
    let x2: i64 = mul_fx(x, x);
    let x3: i64 = mul_fx(x2, x);
    let x5: i64 = mul_fx(x3, x2);
    let x7: i64 = mul_fx(x5, x2);
    let x9: i64 = mul_fx(x7, x2);
    add_fx(
        sub_fx(add_fx(sub_fx(x, divi_fx(x3, 6)), divi_fx(x5, 120)), divi_fx(x7, 5040)),
        divi_fx(x9, 362880),
    )
}

pub fn cos_fx(x: i64) -> (r: i64)
    ensures
        r as int == fx_cos(x as int),
{
    proof {
        reveal(fx_cos);
    }
    let x2: i64 = mul_fx(x, x);
    let x4: i64 = mul_fx(x2, x2);
    let x6: i64 = mul_fx(x4, x2);
    let x8: i64 = mul_fx(x6, x2);
    add_fx(
        sub_fx(add_fx(sub_fx(SCALE, divi_fx(x2, 2)), divi_fx(x4, 24)), divi_fx(x6, 720)),
        divi_fx(x8, 40320),
    )
}

pub fn tan_fx(x: i64) -> (r: i64)
    ensures
        r as int == fx_tan(x as int),
{
    proof {
        reveal(fx_tan);
    }
    let c: i64 = cos_fx(x);
    if c < 1 {
        FX_MAX
    } else {
        div_fx(sin_fx(x), c)
    }
}

pub proof fn lemma_tdiv_mono(x: int, y: int, b: int)
    requires
        x <= y,
        b >= 1,
    ensures
        tdiv(x, b) <= tdiv(y, b),
{
    if x >= 0 {
        vstd::arithmetic::div_mod::lemma_div_is_ordered(x, y, b);
    } else if y >= 0 {
        vstd::arithmetic::div_mod::lemma_div_pos_is_pos(-x, b);
        vstd::arithmetic::div_mod::lemma_div_pos_is_pos(y, b);
    } else {
        vstd::arithmetic::div_mod::lemma_div_is_ordered(-y, -x, b);
    }
}

pub proof fn lemma_fx_div_mono(x: int, y: int, b: int)
    requires
        x <= y,
        b >= 1,
    ensures
        fx_div(x, b) <= fx_div(y, b),
{
    assert(x * (SCALE as int) <= y * (SCALE as int)) by (nonlinear_arith)
        requires x <= y;
    lemma_tdiv_mono(x * (SCALE as int), y * (SCALE as int), b);
}

/// The square root of a raw value is never negative.
pub proof fn lemma_fx_sqrt_nonneg(x: int)
    ensures
        fx_sqrt(x) >= 0,
{
    lemma_sqrt_floor(x * (SCALE as int));
}

/// The square root of a raw value no greater than one is itself no greater
/// than one.
pub proof fn lemma_fx_sqrt_le_one(x: int)
    requires
        x <= SCALE as int,
    ensures
        fx_sqrt(x) <= SCALE as int,
{
    let n = x * (SCALE as int);
    lemma_sqrt_floor(n);
    let s = sqrt_floor(n);
    assert(n <= (SCALE as int) * (SCALE as int)) by (nonlinear_arith)
        requires x <= SCALE as int, n == x * (SCALE as int);
    if s > SCALE as int {
        if n >= 0 {
            assert((SCALE as int) * (SCALE as int) < s * s) by (nonlinear_arith)
                requires (SCALE as int) < s;
            assert(false);
        }
    }
}

fn clamp_i128(x: i128) -> (r: i64)
    ensures
        r as int == fx_clamp(x as int),
{
    if x > FX_MAX as i128 {
        FX_MAX
    } else if x < FX_MIN as i128 {
        FX_MIN
    } else {
        x as i64
    }
}

fn tdiv_i128(a: i128, b: i128) -> (r: i128)
    requires
        1 <= b,
        i128::MIN < a,
    ensures
        r as int == tdiv(a as int, b as int),
{
    if a >= 0 {
        let q: u128 = (a as u128) / (b as u128);
        assert(q <= a as u128) by (nonlinear_arith)
            requires q == (a as u128) / (b as u128), b as u128 >= 1;
        q as i128
    } else {
        let m: u128 = ((-a) as u128) / (b as u128);
        assert(m <= (-a) as u128) by (nonlinear_arith)
            requires m == ((-a) as u128) / (b as u128), b as u128 >= 1;
        -(m as i128)
    }
}

pub fn add_fx(a: i64, b: i64) -> (r: i64)
    ensures
        r as int == fx_add(a as int, b as int),
{
    clamp_i128(a as i128 + b as i128)
}

pub fn sub_fx(a: i64, b: i64) -> (r: i64)
    ensures
        r as int == fx_sub(a as int, b as int),
{
    clamp_i128(a as i128 - b as i128)
}

pub fn neg_fx(a: i64) -> (r: i64)
    ensures
        r as int == fx_neg(a as int),
{
    clamp_i128(-(a as i128))
}

pub fn mul_fx(a: i64, b: i64) -> (r: i64)
    ensures
        r as int == fx_mul(a as int, b as int),
{
    proof {
        assert((a as int) * (b as int) <= 0x4000_0000_0000_0000_0000_0000_0000_0000int
            && (a as int) * (b as int) >= -0x4000_0000_0000_0000_0000_0000_0000_0000int)
            by (nonlinear_arith)
            requires
                -0x8000_0000_0000_0000int <= a as int <= 0x7fff_ffff_ffff_ffffint,
                -0x8000_0000_0000_0000int <= b as int <= 0x7fff_ffff_ffff_ffffint;
    }
    let p: i128 = (a as i128) * (b as i128);
    clamp_i128(tdiv_i128(p, SCALE as i128))
}

pub fn div_fx(a: i64, b: i64) -> (r: i64)
    requires
        b != 0,
    ensures
        r as int == fx_div(a as int, b as int),
{
    proof {
        assert(-0x4000_0000_0000_0000_0000_0000_0000_0000int
            <= (a as int) * (SCALE as int)
            <= 0x4000_0000_0000_0000_0000_0000_0000_0000int)
            by (nonlinear_arith)
            requires -0x8000_0000_0000_0000int <= a as int <= 0x7fff_ffff_ffff_ffffint;
    }
    let p: i128 = (a as i128) * (SCALE as i128);
    let bb: i128 = b as i128;
    if bb >= 1 {
        clamp_i128(tdiv_i128(p, bb))
    } else {
        clamp_i128(-tdiv_i128(p, -bb))
    }
}

pub fn divi_fx(a: i64, k: i64) -> (r: i64)
    requires
        k >= 1,
    ensures
        r as int == fx_divi(a as int, k as int),
{
    clamp_i128(tdiv_i128(a as i128, k as i128))
}

fn isqrt_u128(n: u128) -> (r: u128)
    ensures
        (r as int) * (r as int) <= n as int,
        (n as int) < (r as int + 1) * (r as int + 1),
{
    let mut lo: u128 = 0;
    let mut hi: u128 = 0x1_0000_0000_0000_0000;
    assert((n as int) < 0x1_0000_0000_0000_0000int * 0x1_0000_0000_0000_0000int);
    while hi - lo > 1
        invariant
            0 <= lo < hi <= 0x1_0000_0000_0000_0000,
            (lo as int) * (lo as int) <= n as int,
            (n as int) < (hi as int) * (hi as int),
        decreases hi - lo,
    {
        let mid: u128 = lo + (hi - lo) / 2;
        proof {
            assert((mid as int) * (mid as int) <= 0xffff_ffff_ffff_ffffint * 0xffff_ffff_ffff_ffffint)
                by (nonlinear_arith)
                requires 0 <= mid as int <= 0xffff_ffff_ffff_ffffint;
        }
        let sq: u128 = mid * mid;
        if sq <= n {
            lo = mid;
        } else {
            hi = mid;
        }
    }
    lo
}

pub fn sqrt_fx(x: i64) -> (r: i64)
    ensures
        r as int == fx_sqrt(x as int),
{
    if x <= 0 {
        proof {
            assert((x as int) * (SCALE as int) <= 0) by (nonlinear_arith)
                requires x as int <= 0;
            lemma_sqrt_floor((x as int) * (SCALE as int));
        }
        0
    } else {
        proof {
            assert((x as int) * (SCALE as int) <= 0x7fff_ffff_ffff_ffffint * 1_000_000int)
                by (nonlinear_arith)
                requires 0 <= x as int <= 0x7fff_ffff_ffff_ffffint;
        }
        let n: u128 = (x as u128) * (SCALE as u128);
        let r: u128 = isqrt_u128(n);
        proof {
            lemma_sqrt_floor_unique(n as int, r as int);
            assert(r as int <= 0x7fff_ffff_ffff_ffffint) by (nonlinear_arith)
                requires
                    (r as int) * (r as int) <= n as int,
                    0 <= r as int,
                    n as int <= 0x7fff_ffff_ffff_ffffint * (SCALE as int);
        }
        r as i64
    }
}

} // verus!
