//! The framebuffer that one capture session assembles from decoded
//! rectangles of pixels.

use vstd::prelude::*;
use crate::raster::{new_raster, put_rgb, raster_bytes, raster_of, raster_width, Raster};
use crate::pixel::{
    bytes_per_pixel, decode_at, decode_spec, is_supported, DecodeError, PixelFormat, Colour,
};

verus! {

/// A rectangle of the remote screen, in pixels.
#[derive(Copy, Clone, PartialEq, Eq, Structural, Debug)]
pub struct Rect {
    pub left: u16,
    pub top: u16,
    pub width: u16,
    pub height: u16,
}

/// Whether the pixel (x, y) lies inside `r`.
pub open spec fn in_rect(r: Rect, x: int, y: int) -> bool {
    r.left <= x < r.left + r.width && r.top <= y < r.top + r.height
}

/// The bytes of the sample for the pixel (x, y) of `r` in a buffer that
/// holds the rectangle's samples row by row.
pub open spec fn sample_of(r: Rect, pixels: Seq<u8>, bpp: nat, x: int, y: int) -> Seq<u8> {
    let k = (y - r.top) * r.width + (x - r.left);
    pixels.subrange(k * bpp, k * bpp + bpp)
}

/// The colour stored for pixel (x, y) of a raster `w` pixels wide, three
/// bytes per pixel, rows top to bottom.
pub open spec fn pixel_at(data: Seq<u8>, w: int, x: int, y: int) -> Colour {
    let i = 3 * (y * w + x);
    (data[i], data[i + 1], data[i + 2])
}

/// Every sample of the rectangle decodes.
pub open spec fn rect_decodes(f: PixelFormat, r: Rect, pixels: Seq<u8>) -> bool {
    forall|x: int, y: int|
        in_rect(r, x, y) ==> (#[trigger] decode_spec(
            f,
            sample_of(r, pixels, bytes_per_pixel(f.bits_per_pixel), x, y),
        )) is Ok
}

/// `after` is `before` with the rectangle's decoded samples written in,
/// and every pixel outside the rectangle kept.
pub open spec fn rect_written(before: Image, after: Image, r: Rect, pixels: Seq<u8>) -> bool {
    let f = before.format;
    forall|x: int, y: int|
        0 <= x < before.width && 0 <= y < before.height ==> #[trigger] after.pixel(x, y) == if in_rect(r, x, y) {
            decode_spec(f, sample_of(r, pixels, bytes_per_pixel(f.bits_per_pixel), x, y))->Ok_0
        } else {
            before.pixel(x, y)
        }
}

/// The result of writing the rectangle `r`, whose samples are `pixels`,
/// into a raster of `w` by `h` pixels in format `f`: the checks come in
/// this order, bits per pixel, place, length, then the samples themselves.
pub open spec fn put_outcome(f: PixelFormat, w: int, h: int, r: Rect, pixels: Seq<u8>) -> Result<
    (),
    DecodeError,
> {
    if !(f.bits_per_pixel == 16 || f.bits_per_pixel == 32) {
        Err(DecodeError::InvalidBitsPerPixel)
    } else if !(r.left + r.width <= w && r.top + r.height <= h) {
        Err(DecodeError::RectOutOfBounds)
    } else if pixels.len() < r.width * r.height * bytes_per_pixel(f.bits_per_pixel) {
        Err(DecodeError::ShortBuffer)
    } else if rect_decodes(f, r, pixels) {
        Ok(())
    } else if is_supported(f.bits_per_pixel, f.depth) {
        Err(DecodeError::ChannelRange)
    } else {
        Err(DecodeError::UnsupportedFormat)
    }
}

/// An RGB8 raster of fixed size, with the pixel format its samples come in.
pub struct Image {
    pub format: PixelFormat,
    pub width: u16,
    pub height: u16,
    pub raster: Raster,
}

proof fn lemma_index_bound(x: int, y: int, w: int, h: int)
    requires
        0 <= x < w,
        0 <= y < h,
    ensures
        0 <= y * w + x < w * h,
{
    assert(y * w + x < w * h) by (nonlinear_arith)
        requires
            0 <= x < w,
            0 <= y < h,
    ;
    assert(0 <= y * w) by (nonlinear_arith)
        requires
            0 <= y,
            0 <= w,
    ;
}

proof fn lemma_index_unique(x1: int, y1: int, x2: int, y2: int, w: int)
    requires
        0 <= x1 < w,
        0 <= x2 < w,
        0 <= y1,
        0 <= y2,
    ensures
        y1 * w + x1 == y2 * w + x2 ==> x1 == x2 && y1 == y2,
{
    if y1 < y2 {
        assert(y1 * w + w <= y2 * w) by (nonlinear_arith)
            requires
                y1 < y2,
                0 <= w,
        ;
    } else if y2 < y1 {
        assert(y2 * w + w <= y1 * w) by (nonlinear_arith)
            requires
                y2 < y1,
                0 <= w,
        ;
    }
}

/// Pixel (x, y) of `r` comes before position (i, j) of `r` in row order.
pub open spec fn done_before(r: Rect, i: int, j: int, x: int, y: int) -> bool {
    y - r.top < j || (y - r.top == j && x - r.left < i)
}

proof fn lemma_sample_in_range(i: int, j: int, rw: int, rh: int, bpb: int)
    requires
        0 <= i < rw,
        0 <= j < rh,
        0 < bpb,
    ensures
        0 <= (j * rw + i) * bpb,
        (j * rw + i) * bpb + bpb <= rw * rh * bpb,
{
    lemma_index_bound(i, j, rw, rh);
    assert((j * rw + i) * bpb + bpb <= rw * rh * bpb) by (nonlinear_arith)
        requires
            j * rw + i < rw * rh,
            0 < bpb,
    ;
    assert(0 <= (j * rw + i) * bpb) by (nonlinear_arith)
        requires
            0 <= j * rw + i,
            0 < bpb,
    ;
}

impl Image {
    /// The raster holds three bytes for each of its pixels.
    pub open spec fn wf(&self) -> bool {
        &&& raster_of(self.raster).len() == 3 * (self.width * self.height)
        &&& raster_width(self.raster) == self.width
    }

    /// The colour of pixel (x, y).
    pub open spec fn pixel(&self, x: int, y: int) -> Colour {
        pixel_at(raster_of(self.raster), self.width as int, x, y)
    }

    /// A black raster of `width` by `height` pixels.
    pub fn new(format: PixelFormat, width: u16, height: u16) -> (r: Self)
        requires
            3 * (width * height) <= usize::MAX,
        ensures
            r.wf(),
            r.format == format,
            r.width == width,
            r.height == height,
            forall|x: int, y: int|
                0 <= x < width && 0 <= y < height ==> #[trigger] r.pixel(x, y) == (0u8, 0u8, 0u8),
    {
        let r = Image { format, width, height, raster: new_raster(width, height) };
        assert forall|x: int, y: int| 0 <= x < width && 0 <= y < height implies #[trigger] r.pixel(
            x,
            y,
        ) == (0u8, 0u8, 0u8) by {
            lemma_index_bound(x, y, width as int, height as int);
        }
        r
    }

    /// Decodes the rectangle's samples, held row by row in `pixels`, and
    /// writes them into the raster at the rectangle's place. Nothing is
    /// written unless every sample decodes.
    pub fn put_pixels(&mut self, rect: Rect, pixels: &[u8]) -> (res: Result<(), DecodeError>)
        requires
            old(self).wf(),
        ensures
            final(self).wf(),
            final(self).format == old(self).format,
            final(self).width == old(self).width,
            final(self).height == old(self).height,
            res == put_outcome(
                old(self).format,
                old(self).width as int,
                old(self).height as int,
                rect,
                pixels@,
            ),
            ({
                let f = old(self).format;
                let bpp_ok = f.bits_per_pixel == 16 || f.bits_per_pixel == 32;
                let fits = rect.left + rect.width <= old(self).width && rect.top + rect.height
                    <= old(self).height;
                let long_enough = pixels@.len() >= rect.width * rect.height * bytes_per_pixel(
                    f.bits_per_pixel,
                );
                &&& (res == Err::<(), DecodeError>(DecodeError::InvalidBitsPerPixel) <==> !bpp_ok)
                &&& (res == Err::<(), DecodeError>(DecodeError::RectOutOfBounds) <==> bpp_ok
                    && !fits)
                &&& (res == Err::<(), DecodeError>(DecodeError::ShortBuffer) <==> bpp_ok && fits
                    && !long_enough)
                &&& (res is Ok <==> bpp_ok && fits && long_enough && rect_decodes(
                    f,
                    rect,
                    pixels@,
                ))
                &&& (bpp_ok && fits && long_enough && !rect_decodes(f, rect, pixels@) ==> (
                if is_supported(f.bits_per_pixel, f.depth) {
                    res == Err::<(), DecodeError>(DecodeError::ChannelRange)
                } else {
                    res == Err::<(), DecodeError>(DecodeError::UnsupportedFormat)
                }))
                &&& (res is Err ==> *final(self) == *old(self))
                &&& (res is Ok ==> rect_written(*old(self), *final(self), rect, pixels@))
            }),
    {
        let bpb: usize = match self.format.bits_per_pixel {
            16 => 2,
            32 => 4,
            _ => {
                return Err(DecodeError::InvalidBitsPerPixel);
            },
        };
        if rect.left as usize + rect.width as usize > self.width as usize || rect.top as usize
            + rect.height as usize > self.height as usize {
            return Err(DecodeError::RectOutOfBounds);
        }
        let plen: usize = pixels.len();
        let rw = rect.width as usize;
        let rh = rect.height as usize;
        proof {
            assert(rw * rh <= self.width * self.height) by (nonlinear_arith)
                requires
                    rw <= self.width,
                    rh <= self.height,
            ;
            assert(rw * rh <= 0xffff * 0xffff) by (nonlinear_arith)
                requires
                    rw <= 0xffff,
                    rh <= 0xffff,
            ;
        }
        let n: usize = rw * rh;
        if (pixels.len() as u64) < (n as u64) * (bpb as u64) {
            return Err(DecodeError::ShortBuffer);
        }
        let ghost f = self.format;
        if !((self.format.bits_per_pixel == 16 && (self.format.depth == 16 || self.format.depth
            == 15)) || (self.format.bits_per_pixel == 32 && self.format.depth == 24)) {
            if n == 0 {
                proof {
                    assert(rw == 0 || rh == 0) by (nonlinear_arith)
                        requires
                            rw * rh == 0,
                    ;
                }
                return Ok(());
            }
            proof {
                assert(rw > 0 && rh > 0) by (nonlinear_arith)
                    requires
                        rw * rh != 0,
                        rw >= 0,
                        rh >= 0,
                ;
                let x0 = rect.left as int;
                let y0 = rect.top as int;
                assert(in_rect(rect, x0, y0));
                assert(decode_spec(f, sample_of(rect, pixels@, bpb as nat, x0, y0)) is Err);
            }
            return Err(DecodeError::UnsupportedFormat);
        }
        // Every sample is decoded before any pixel is written.
        let mut j: usize = 0;
        while j < rh
            invariant
                self.format == f,
                *self == *old(self),
                self.wf(),
                is_supported(f.bits_per_pixel, f.depth),
                bpb == bytes_per_pixel(f.bits_per_pixel),
                rw == rect.width,
                rect.left + rect.width <= self.width,
                rect.top + rect.height <= self.height,
                rh == rect.height,
                n == rw * rh,
                n * bpb <= pixels@.len(),
                plen == pixels@.len(),
                j <= rh,
                forall|x: int, y: int|
                    in_rect(rect, x, y) && done_before(rect, 0, j as int, x, y) ==> (
                    #[trigger] decode_spec(f, sample_of(rect, pixels@, bpb as nat, x, y))) is Ok,
            decreases rh - j,
        {
            let mut i: usize = 0;
            while i < rw
                invariant
                    self.format == f,
                    *self == *old(self),
                    self.wf(),
                    is_supported(f.bits_per_pixel, f.depth),
                    bpb == bytes_per_pixel(f.bits_per_pixel),
                    rw == rect.width,
                    rect.left + rect.width <= self.width,
                    rect.top + rect.height <= self.height,
                    rh == rect.height,
                    n == rw * rh,
                    n * bpb <= pixels@.len(),
                    plen == pixels@.len(),
                    j < rh,
                    i <= rw,
                    forall|x: int, y: int|
                        in_rect(rect, x, y) && done_before(rect, i as int, j as int, x, y) ==> (
                        #[trigger] decode_spec(f, sample_of(rect, pixels@, bpb as nat, x, y))) is Ok,
                decreases rw - i,
            {
                proof {
                    lemma_sample_in_range(i as int, j as int, rw as int, rh as int, bpb as int);
                }
                proof {
                    lemma_index_bound(i as int, j as int, rw as int, rh as int);
                }
                let k: usize = j * rw + i;
                let start: usize = k * bpb;
                let c = decode_at(&self.format, pixels, start);
                let ghost x0 = rect.left + i;
                let ghost y0 = rect.top + j;
                assert(sample_of(rect, pixels@, bpb as nat, x0, y0) == pixels@.subrange(
                    start as int,
                    start + bpb,
                ));
                if c.is_err() {
                    assert(in_rect(rect, x0, y0));
                    assert(decode_spec(f, sample_of(rect, pixels@, bpb as nat, x0, y0)) is Err);
                    return match c {
                        Ok(_) => Ok(()),
                        Err(e) => Err(e),
                    };
                }
                i = i + 1;
            }
            j = j + 1;
        }
        assert(rect_decodes(f, rect, pixels@));
        let w = self.width as usize;
        let mut j: usize = 0;
        while j < rh
            invariant
                self.format == f,
                self.width == old(self).width,
                self.height == old(self).height,
                self.format == old(self).format,
                self.wf(),
                w == self.width,
                is_supported(f.bits_per_pixel, f.depth),
                bpb == bytes_per_pixel(f.bits_per_pixel),
                rw == rect.width,
                rh == rect.height,
                rect.left + rect.width <= self.width,
                rect.top + rect.height <= self.height,
                n == rw * rh,
                n * bpb <= pixels@.len(),
                plen == pixels@.len(),
                j <= rh,
                rect_decodes(f, rect, pixels@),
                forall|x: int, y: int|
                    0 <= x < self.width && 0 <= y < self.height ==> #[trigger] self.pixel(x, y)
                        == if in_rect(rect, x, y) && done_before(rect, 0, j as int, x, y) {
                        decode_spec(f, sample_of(rect, pixels@, bpb as nat, x, y))->Ok_0
                    } else {
                        old(self).pixel(x, y)
                    },
            decreases rh - j,
        {
            let mut i: usize = 0;
            while i < rw
                invariant
                    self.format == f,
                    self.width == old(self).width,
                    self.height == old(self).height,
                    self.format == old(self).format,
                    self.wf(),
                    w == self.width,
                    is_supported(f.bits_per_pixel, f.depth),
                    bpb == bytes_per_pixel(f.bits_per_pixel),
                    rw == rect.width,
                    rh == rect.height,
                    rect.left + rect.width <= self.width,
                    rect.top + rect.height <= self.height,
                    n == rw * rh,
                    n * bpb <= pixels@.len(),
                    plen == pixels@.len(),
                    j < rh,
                    i <= rw,
                    rect_decodes(f, rect, pixels@),
                    forall|x: int, y: int|
                        0 <= x < self.width && 0 <= y < self.height ==> #[trigger] self.pixel(x, y)
                            == if in_rect(rect, x, y) && done_before(
                            rect,
                            i as int,
                            j as int,
                            x,
                            y,
                        ) {
                            decode_spec(f, sample_of(rect, pixels@, bpb as nat, x, y))->Ok_0
                        } else {
                            old(self).pixel(x, y)
                        },
                decreases rw - i,
            {
                proof {
                    lemma_sample_in_range(i as int, j as int, rw as int, rh as int, bpb as int);
                    lemma_index_bound(i as int, j as int, rw as int, rh as int);
                }
                let k: usize = j * rw + i;
                let start: usize = k * bpb;
                let x0: usize = rect.left as usize + i;
                let y0: usize = rect.top as usize + j;
                proof {
                    lemma_index_bound(x0 as int, y0 as int, self.width as int, self.height as int);
                    assert(in_rect(rect, x0 as int, y0 as int));
                    assert(sample_of(rect, pixels@, bpb as nat, x0 as int, y0 as int)
                        == pixels@.subrange(start as int, start + bpb));
                }
                let c = match decode_at(&self.format, pixels, start) {
                    Ok(c) => c,
                    Err(e) => {
                        return Err(e);
                    },
                };
                let ghost before = *self;
                put_rgb(&mut self.raster, x0 as u16, y0 as u16, c.0, c.1, c.2);
                proof {
                    assert forall|x: int, y: int|
                        0 <= x < self.width && 0 <= y < self.height implies #[trigger] self.pixel(
                            x,
                            y,
                        ) == if in_rect(rect, x, y) && done_before(
                            rect,
                            i + 1,
                            j as int,
                            x,
                            y,
                        ) {
                            decode_spec(f, sample_of(rect, pixels@, bpb as nat, x, y))->Ok_0
                        } else {
                            old(self).pixel(x, y)
                        } by {
                        lemma_index_unique(x, y, x0 as int, y0 as int, w as int);
                        lemma_index_bound(x, y, self.width as int, self.height as int);
                        if x == x0 && y == y0 {
                            assert(self.pixel(x, y) == c);
                        } else {
                            assert(self.pixel(x, y) == before.pixel(x, y));
                        }
                    }
                }
                i = i + 1;
            }
            j = j + 1;
        }
        Ok(())
    }
}

/// Only the rectangle's `width * height` samples are read: bytes after
/// them change neither the outcome nor any sample that is written.
pub proof fn lemma_extra_bytes_ignored(
    f: PixelFormat,
    w: int,
    h: int,
    r: Rect,
    p: Seq<u8>,
    extra: Seq<u8>,
)
    requires
        f.bits_per_pixel == 16 || f.bits_per_pixel == 32,
        p.len() == r.width * r.height * bytes_per_pixel(f.bits_per_pixel),
    ensures
        put_outcome(f, w, h, r, p + extra) == put_outcome(f, w, h, r, p),
        forall|x: int, y: int|
            in_rect(r, x, y) ==> #[trigger] sample_of(
                r,
                p + extra,
                bytes_per_pixel(f.bits_per_pixel),
                x,
                y,
            ) == sample_of(r, p, bytes_per_pixel(f.bits_per_pixel), x, y),
{
    let bpb = bytes_per_pixel(f.bits_per_pixel);
    assert forall|x: int, y: int| in_rect(r, x, y) implies #[trigger] sample_of(
        r,
        p + extra,
        bpb,
        x,
        y,
    ) == sample_of(r, p, bpb, x, y) by {
        lemma_sample_in_range(x - r.left, y - r.top, r.width as int, r.height as int, bpb as int);
        let k = (y - r.top) * r.width + (x - r.left);
        assert((p + extra).subrange(k * bpb, k * bpb + bpb) =~= p.subrange(k * bpb, k * bpb + bpb));
    }
    assert(rect_decodes(f, r, p + extra) == rect_decodes(f, r, p)) by {
        if rect_decodes(f, r, p) {
            assert forall|x: int, y: int| in_rect(r, x, y) implies (#[trigger] decode_spec(
                f,
                sample_of(r, p + extra, bpb, x, y),
            )) is Ok by {
                assert(sample_of(r, p + extra, bpb, x, y) == sample_of(r, p, bpb, x, y));
                assert(decode_spec(f, sample_of(r, p, bpb, x, y)) is Ok);
            }
        }
        if rect_decodes(f, r, p + extra) {
            assert forall|x: int, y: int| in_rect(r, x, y) implies (#[trigger] decode_spec(
                f,
                sample_of(r, p, bpb, x, y),
            )) is Ok by {
                assert(sample_of(r, p + extra, bpb, x, y) == sample_of(r, p, bpb, x, y));
                assert(decode_spec(f, sample_of(r, p + extra, bpb, x, y)) is Ok);
            }
        }
    }
}

/// A rectangle of width or height zero that lies in the raster is
/// accepted, and writing it leaves every pixel as it was.
pub proof fn lemma_empty_rect(before: Image, after: Image, r: Rect, p: Seq<u8>)
    requires
        r.width == 0 || r.height == 0,
    ensures
        (before.format.bits_per_pixel == 16 || before.format.bits_per_pixel == 32) && r.left
            + r.width <= before.width && r.top + r.height <= before.height ==> put_outcome(
            before.format,
            before.width as int,
            before.height as int,
            r,
            p,
        ) == Ok::<(), DecodeError>(()),
        rect_written(before, after, r, p) ==> forall|x: int, y: int|
            0 <= x < before.width && 0 <= y < before.height ==> #[trigger] after.pixel(x, y)
                == before.pixel(x, y),
{
    assert(r.width * r.height * bytes_per_pixel(before.format.bits_per_pixel) == 0) by (
    nonlinear_arith)
        requires
            r.width == 0 || r.height == 0,
    ;
    if rect_written(before, after, r, p) {
        assert forall|x: int, y: int|
            0 <= x < before.width && 0 <= y < before.height implies #[trigger] after.pixel(x, y)
                == before.pixel(x, y) by {
            assert(!in_rect(r, x, y));
        }
    }
}

impl Image {
    /// The raster's bytes, three per pixel, rows top to bottom, ready for
    /// encoding as an image of `width` by `height`.
    pub fn extract(self) -> (r: Vec<u8>)
        requires
            self.wf(),
        ensures
            r@.len() == 3 * (self.width * self.height),
            forall|x: int, y: int|
                0 <= x < self.width && 0 <= y < self.height ==> #[trigger] pixel_at(
                    r@,
                    self.width as int,
                    x,
                    y,
                ) == self.pixel(x, y),
    {
        raster_bytes(self.raster)
    }
}

} // verus!
