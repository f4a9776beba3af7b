//! A small ray tracer whose arithmetic is exact fixed-point: every scalar is
//! an integer count of millionths, so each operation has a precise
//! mathematical contract instead of a floating-point approximation.
//!
//! Rays are cast from a camera through every pixel, intersected against a
//! scene of spheres, and scattered off materials until they escape to the sky
//! or the bounce budget runs out. The resulting colors are gamma corrected,
//! quantized, and written to a pixel buffer.

pub mod buffer;
pub mod camera;
pub mod color;
pub mod fixed;
pub mod hittable;
pub mod hittable_list;
pub mod interval;
pub mod material;
pub mod ray;
pub mod rng;
pub mod sphere;
pub mod vec3;

use vstd::prelude::*;

verus! {

use crate::fixed::{Fx, fmul, fdiv};
use crate::rng::Rng64;

/// The number of millionths in the six-decimal approximation of pi.
pub const PI_MICROS: i64 = 3_141_593;

/// Converts an angle in degrees to radians: `degrees * pi / 180`.
pub fn degrees_to_radians(degrees: Fx) -> (r: Fx)
    ensures
        r@ == fdiv(fmul(degrees@, PI_MICROS as int), 180_000_000int),
{
    degrees.mul(Fx::from_micros(PI_MICROS)).div(Fx::from_int(180))
}

/// Draws a scalar uniformly from `[0, 1)`, advancing the generator one step.
pub fn random_float(rng: &mut Rng64) -> (r: Fx)
    ensures
        final(rng)@ == crate::rng::next64(old(rng)@),
        r@ == crate::rng::unit_micros(final(rng)@),
        0 <= r@ < 1_000_000,
{
    rng.next_unit()
}

/// Draws a scalar from `[min, min + (max - min))` as `min + u * (max - min)`
/// for a unit sample `u`, advancing the generator one step.
pub fn random_range(min: Fx, max: Fx, rng: &mut Rng64) -> (r: Fx)
    ensures
        final(rng)@ == crate::rng::next64(old(rng)@),
        r@ == crate::fixed::fadd(
            min@,
            fmul(crate::rng::unit_micros(final(rng)@), crate::fixed::fsub(max@, min@)),
        ),
{
    let range = max.sub(min);
    let u = rng.next_unit();
    min.add(u.mul(range))
}

} // verus!
