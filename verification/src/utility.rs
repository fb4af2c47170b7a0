//! Support pieces: random raw scalars, angle conversion, and closed ranges.

use vstd::prelude::*;
use crate::fixed::{SCALE, FX_MAX, fx_mul, fx_div, mul_fx, div_fx};

verus! {

/// The far bound for hit distances: no representable distance reaches it.
pub const INFINITY: i64 = FX_MAX;

/// 3.141593 in raw units.
pub const PI_FX: i64 = 3_141_593;

/// 180 in raw units.
pub const DEG_HALF_TURN: i64 = 180_000_000;

pub open spec fn deg_to_rad(degrees: int) -> int {
    fx_div(fx_mul(degrees, PI_FX as int), DEG_HALF_TURN as int)
}

pub fn degrees_to_radians(degrees: i64) -> (r: i64)
    ensures
        r as int == deg_to_rad(degrees as int),
{
    div_fx(mul_fx(degrees, PI_FX), DEG_HALF_TURN)
}

/// Relies on rand::Rng::gen_range over `0..SCALE`: a uniformly random value
/// of the half-open range, so a raw scalar in `[0, 1)`.
#[verifier::external_body]
pub fn random() -> (r: i64)
    ensures
        0 <= r < SCALE,
{
    let mut rng = rand::thread_rng();
    rand::Rng::gen_range(&mut rng, 0..SCALE)
}

/// Relies on rand::Rng::gen_range over `min..max`: a uniformly random value
/// of the half-open range; it panics on an empty range, which the
/// precondition rules out.
#[verifier::external_body]
pub fn random_in_range(min: i64, max: i64) -> (r: i64)
    requires
        min < max,
    ensures
        min <= r < max,
{
    let mut rng = rand::thread_rng();
    rand::Rng::gen_range(&mut rng, min..max)
}

/// A closed range of raw values.
#[derive(Clone, Copy, Debug, PartialEq, Eq, Structural)]
pub struct Interval {
    pub min: i64,
    pub max: i64,
}

pub open spec fn interval_clamp(min: int, max: int, x: int) -> int {
    if x < min {
        min
    } else if x > max {
        max
    } else {
        x
    }
}

impl Interval {
    /// The empty range: no value at all lies inside it. (The source rules
    /// here keep structured values out of `const` items, so the range
    /// constants are constructors instead.)
    pub fn empty() -> (r: Self)
        ensures
            r.min == INFINITY,
            r.max == -INFINITY,
    {
        Interval { min: INFINITY, max: -INFINITY }
    }

    /// The universal range: every representable value lies inside it.
    pub fn universe() -> (r: Self)
        ensures
            r.min == -INFINITY,
            r.max == INFINITY,
    {
        Interval { min: -INFINITY, max: INFINITY }
    }

    pub fn from(min: i64, max: i64) -> (r: Self)
        ensures
            r.min == min,
            r.max == max,
    {
        Interval { min, max }
    }

    /// Containment, inclusive at both ends.
    pub fn contains(&self, x: i64) -> (r: bool)
        ensures
            r == (self.min <= x <= self.max),
    {
        self.min <= x && x <= self.max
    }

    /// Strict containment, exclusive at both ends.
    pub fn surrounds(&self, x: i64) -> (r: bool)
        ensures
            r == (self.min < x < self.max),
    {
        self.min < x && x < self.max
    }

    pub fn clamp(&self, x: i64) -> (r: i64)
        ensures
            r as int == interval_clamp(self.min as int, self.max as int, x as int),
            self.min <= self.max ==> self.min <= r <= self.max,
    {
        if x < self.min {
            return self.min;
        }
        if x > self.max {
            return self.max;
        }
        x
    }
}

/// Law: clamping is idempotent on any non-empty interval, and its result
/// always lies between the bounds.
pub proof fn lemma_clamp_idempotent(min: int, max: int, x: int)
    requires
        min <= max,
    ensures
        interval_clamp(min, max, interval_clamp(min, max, x)) == interval_clamp(min, max, x),
        min <= interval_clamp(min, max, x) <= max,
{
}

} // verus!
