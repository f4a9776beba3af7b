//! Colors and their conversion from linear light to display bytes.
//!
//! A color is a vector whose channels are linear-space red, green and blue in
//! `[0, 1]`. Before a pixel is written the channels are gamma corrected by a
//! square root, clamped into `[0, 0.999]`, and quantized to a byte by
//! truncating `256 * channel`.

use vstd::prelude::*;

verus! {

use crate::fixed::{Fx, fsqrt, tdiv, SCALE};
use crate::interval::{Interval, sclamp};
use crate::vec3::Vec3;

/// A color: channels are linear red, green, blue in `[0, 1]`.
pub type Color = Vec3;

/// Gamma correction of one linear channel: square root, with nonpositive
/// inputs mapped to zero.
pub open spec fn sgamma(c: int) -> int {
    if c > 0 {
        fsqrt(c)
    } else {
        0
    }
}

/// The intensity interval channels are clamped into before quantization.
pub open spec fn intensity_interval() -> Interval {
    Interval { min: Fx { raw: 0 }, max: Fx { raw: 999_000 } }
}

/// The byte a gamma-corrected linear channel quantizes to.
pub open spec fn schannel_byte(c: int) -> int {
    tdiv(sclamp(intensity_interval(), sgamma(c)) * 256, SCALE as int)
}

/// The four display bytes (red, green, blue, opaque alpha) of a linear color.
pub open spec fn scolor_bytes(color: Color) -> (u8, u8, u8, u8) {
    (
        schannel_byte(color.x@) as u8,
        schannel_byte(color.y@) as u8,
        schannel_byte(color.z@) as u8,
        255u8,
    )
}

/// Converts one linear color component to gamma space by a square root;
/// nonpositive components map to zero.
pub fn linear_to_gamma(linear_component: Fx) -> (r: Fx)
    ensures
        r@ == sgamma(linear_component@),
        r@ >= 0,
{
    if linear_component.gt(Fx::zero()) {
        return linear_component.sqrt();
    }
    Fx::zero()
}

/// Quantizes one gamma-corrected, clamped channel to a byte: `256 * c`
/// truncated to its integer part.
fn channel_byte(c: Fx) -> (r: u8)
    ensures
        r as int == tdiv(sclamp(intensity_interval(), c@) * 256, SCALE as int),
{
    let intensity: Interval = Interval::with_bounds(Fx::zero(), Fx::from_micros(999_000));
    let clamped = intensity.clamp(c);
    let scaled: u64 = (clamped.raw as u64) * 256;
    proof {
        assert(tdiv(clamped@ * 256, SCALE as int) == (clamped@ * 256) / (SCALE as int)) by {
            assert(clamped@ >= 0);
            assert(clamped@ * 256 >= 0) by (nonlinear_arith)
                requires
                    clamped@ >= 0,
            ;
        }
    }
    let b: u64 = scaled / 1_000_000;
    proof {
        assert(scaled <= 255_744_000);
        vstd::arithmetic::div_mod::lemma_div_is_ordered(
            scaled as int,
            255_744_000int,
            1_000_000int,
        );
        assert(255_744_000int / 1_000_000int == 255) by (nonlinear_arith);
    }
    b as u8
}

/// Writes one pixel of the output buffer: the color's display bytes at
/// `(x, y)`, with full opacity.
pub fn write_color(x: u32, y: u32, img_buffer: &mut crate::buffer::PixelBuffer, color: &Color)
    requires
        (x as int) < crate::buffer::image_dims(*old(img_buffer)).0,
        (y as int) < crate::buffer::image_dims(*old(img_buffer)).1,
    ensures
        crate::buffer::image_dims(*final(img_buffer)) == crate::buffer::image_dims(
            *old(img_buffer),
        ),
        crate::buffer::image_pixels(*final(img_buffer)) == crate::buffer::image_pixels(
            *old(img_buffer),
        ).insert((x as int, y as int), scolor_bytes(*color)),
{
    let bytes = color_bytes(color);
    img_buffer.put_pixel(x, y, bytes);
}

/// The display bytes of a linear color: each channel gamma corrected,
/// clamped into `[0, 0.999]`, and quantized, with alpha fully opaque.
pub fn color_bytes(color: &Color) -> (r: (u8, u8, u8, u8))
    ensures
        r == scolor_bytes(*color),
{
    let r = linear_to_gamma(color.x);
    let g = linear_to_gamma(color.y);
    let b = linear_to_gamma(color.z);
    (channel_byte(r), channel_byte(g), channel_byte(b), 255)
}

} // verus!
