//! The image crate's RGB8 buffer, as the framebuffer uses it.

use vstd::prelude::*;

verus! {

/// An RGB8 image buffer of the image crate. Its contents are known to the
/// verifier only through `raster_of` and `raster_width`.
#[verifier::external_body]
pub struct Raster {
    buf: image::ImageBuffer<image::Rgb<u8>, Vec<u8>>,
}

/// The bytes that the buffer holds: three per pixel, row by row.
pub uninterp spec fn raster_of(r: Raster) -> Seq<u8>;

/// The width, in pixels, that the buffer was made with.
pub uninterp spec fn raster_width(r: Raster) -> nat;

/// Relies on `ImageBuffer::new`: a zero-filled buffer of
/// `width * height * 3` bytes; it panics when that size overflows `usize`.
#[verifier::external_body]
pub(crate) fn new_raster(width: u16, height: u16) -> (r: Raster)
    requires
        3 * (width * height) <= usize::MAX,
    ensures
        raster_of(r) == Seq::new((3 * (width * height)) as nat, |i: int| 0u8),
        raster_width(r) == width,
{
    Raster { buf: image::ImageBuffer::new(width as u32, height as u32) }
}

/// Relies on `ImageBuffer::put_pixel`: the pixel's three bytes stand at
/// `(y * width + x) * 3`; it panics when (x, y) lies outside the buffer.
#[verifier::external_body]
pub(crate) fn put_rgb(img: &mut Raster, x: u16, y: u16, r: u8, g: u8, b: u8)
    requires
        x < raster_width(*old(img)),
        3 * (y * raster_width(*old(img)) + x) + 2 < raster_of(*old(img)).len(),
    ensures
        raster_width(*final(img)) == raster_width(*old(img)),
        raster_of(*final(img)) == raster_of(*old(img)).update(
            3 * (y * raster_width(*old(img)) + x),
            r,
        ).update(3 * (y * raster_width(*old(img)) + x) + 1, g).update(
            3 * (y * raster_width(*old(img)) + x) + 2,
            b,
        ),
{
    img.buf.put_pixel(x as u32, y as u32, image::Rgb([r, g, b]))
}

/// Relies on `ImageBuffer::into_raw`: the buffer's bytes, as held.
#[verifier::external_body]
pub(crate) fn raster_bytes(img: Raster) -> (r: Vec<u8>)
    ensures
        r@ == raster_of(img),
{
    img.buf.into_raw()
}

} // verus!
