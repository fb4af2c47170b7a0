//! Colors, and the conversion of a summed pixel color into sink-ready
//! channel values: averaged over the samples, gamma-corrected, clamped and
//! scaled for 8-bit quantization. The caller owns the actual writing.

use vstd::prelude::*;
use crate::fixed::{SCALE, fx_mul, fx_div, fx_sqrt, mul_fx, div_fx, sqrt_fx};
use crate::utility::{Interval, interval_clamp};

verus! {

pub type Color = crate::vec3::Vec3;

/// Channel ceiling just below one, so that quantization never reaches 256.
pub const INTENSITY_MAX: i64 = 999_000;

/// 255.99 in raw units.
pub const QUANT_SCALE: i64 = 255_990_000;

/// Gamma correction: the square root of the linear value. A negative channel
/// has no real root and goes to zero.
pub open spec fn gamma_of(linear_component: int) -> int {
    fx_sqrt(linear_component)
}

fn linear_to_gamma(linear_component: i64) -> (r: i64)
    ensures
        r as int == gamma_of(linear_component as int),
{
    sqrt_fx(linear_component)
}

/// One channel of the sink-ready value: average, gamma, clamp, scale.
pub open spec fn channel_out(c: int, samples_per_pixel: int) -> int
    recommends
        samples_per_pixel >= 1,
{
    let scale = fx_div(SCALE as int, samples_per_pixel * (SCALE as int));
    fx_mul(
        QUANT_SCALE as int,
        interval_clamp(0, INTENSITY_MAX as int, gamma_of(fx_mul(c, scale))),
    )
}

/// Turn a summed pixel color into the three channel values handed to the
/// color sink, in red, green, blue order.
pub fn write_color(pixel_color: Color, samples_per_pixel: i32) -> (r: (i64, i64, i64))
    requires
        samples_per_pixel >= 1,
    ensures
        r.0 as int == channel_out(pixel_color@.x, samples_per_pixel as int),
        r.1 as int == channel_out(pixel_color@.y, samples_per_pixel as int),
        r.2 as int == channel_out(pixel_color@.z, samples_per_pixel as int),
{
    proof {
        assert((samples_per_pixel as int) * (SCALE as int) >= SCALE as int) by (nonlinear_arith)
            requires samples_per_pixel as int >= 1;
        assert((samples_per_pixel as int) * (SCALE as int) <= 0x8000_0000int * (SCALE as int))
            by (nonlinear_arith)
            requires samples_per_pixel as int <= 0x8000_0000int;
    }
    let spp: i64 = (samples_per_pixel as i64) * (SCALE as i64);
    let scale: i64 = div_fx(SCALE, spp);

    let r: i64 = linear_to_gamma(mul_fx(pixel_color.x(), scale));
    let g: i64 = linear_to_gamma(mul_fx(pixel_color.y(), scale));
    let b: i64 = linear_to_gamma(mul_fx(pixel_color.z(), scale));

    let intensity: Interval = Interval::from(0, INTENSITY_MAX);
    (
        mul_fx(QUANT_SCALE, intensity.clamp(r)),
        mul_fx(QUANT_SCALE, intensity.clamp(g)),
        mul_fx(QUANT_SCALE, intensity.clamp(b)),
    )
}

} // verus!
