//! The output pixel buffer: an RGBA8 image buffer of the `image` crate,
//! modeled for verification as a map from in-range coordinates to channel
//! bytes plus a pair of dimensions.
//!
//! The buffer is held in an opaque wrapper struct (the crate's buffer type
//! cannot be declared to the verifier directly because of its `Pixel` trait
//! bound). The handful of calls the render loop and its callers make are the
//! trusted boundary to that crate; every byte written into the buffer is
//! computed by verified code.

use vstd::prelude::*;

verus! {

/// An RGBA8 image: width x height pixels of four bytes each, row major.
#[verifier::external_body]
pub struct PixelBuffer {
    buf: image::ImageBuffer<image::Rgba<u8>, Vec<u8>>,
}

/// What the buffer holds: the (red, green, blue, alpha) bytes of each
/// in-range coordinate.
pub uninterp spec fn image_pixels(img: PixelBuffer) -> Map<(int, int), (u8, u8, u8, u8)>;

/// The buffer's width and height.
pub uninterp spec fn image_dims(img: PixelBuffer) -> (int, int);

impl PixelBuffer {
    /// Relies on image::ImageBuffer::new: a width x height buffer whose
    /// pixels are all zero. It panics when the byte length overflows usize,
    /// so that is excluded up front.
    #[verifier::external_body]
    pub fn new(width: u32, height: u32) -> (r: PixelBuffer)
        requires
            4 * (width as int) * (height as int) <= usize::MAX as int,
        ensures
            image_dims(r) == (width as int, height as int),
            image_pixels(r) == Map::new(
                |p: (int, int)| 0 <= p.0 < width as int && 0 <= p.1 < height as int,
                |p: (int, int)| (0u8, 0u8, 0u8, 0u8),
            ),
    {
        PixelBuffer { buf: image::ImageBuffer::new(width, height) }
    }

    /// Relies on image::ImageBuffer::put_pixel: overwrites one pixel and
    /// nothing else. It panics out of bounds, so in-range coordinates are
    /// required.
    #[verifier::external_body]
    pub fn put_pixel(&mut self, x: u32, y: u32, px: (u8, u8, u8, u8))
        requires
            (x as int) < image_dims(*old(self)).0,
            (y as int) < image_dims(*old(self)).1,
        ensures
            image_dims(*final(self)) == image_dims(*old(self)),
            image_pixels(*final(self)) == image_pixels(*old(self)).insert(
                (x as int, y as int),
                px,
            ),
    {
        self.buf.put_pixel(x, y, image::Rgba([px.0, px.1, px.2, px.3]));
    }

    /// Relies on image::ImageBuffer::get_pixel: reads one in-bounds pixel.
    #[verifier::external_body]
    pub fn get_pixel(&self, x: u32, y: u32) -> (r: (u8, u8, u8, u8))
        requires
            (x as int) < image_dims(*self).0,
            (y as int) < image_dims(*self).1,
            0 <= image_dims(*self).0,
            0 <= image_dims(*self).1,
        ensures
            image_pixels(*self).contains_key((x as int, y as int)) ==> r == image_pixels(
                *self,
            )[(x as int, y as int)],
    {
        let p = self.buf.get_pixel(x, y);
        (p.0[0], p.0[1], p.0[2], p.0[3])
    }

    /// Relies on image::ImageBuffer::width.
    #[verifier::external_body]
    pub fn width(&self) -> (r: u32)
        ensures
            r as int == image_dims(*self).0,
    {
        self.buf.width()
    }

    /// Relies on image::ImageBuffer::height.
    #[verifier::external_body]
    pub fn height(&self) -> (r: u32)
        ensures
            r as int == image_dims(*self).1,
    {
        self.buf.height()
    }

    /// Relies on image::ImageBuffer::into_raw: the backing container, four
    /// bytes per pixel, row major, top to bottom and left to right.
    #[verifier::external_body]
    pub fn into_raw(self) -> (r: Vec<u8>)
        ensures
            r@.len() == 4 * image_dims(self).0 * image_dims(self).1,
    {
        self.buf.into_raw()
    }
}

} // verus!
