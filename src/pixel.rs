//! Decoding of true-colour pixel samples, as a remote-framebuffer server
//! packs them, into 8-bit red, green and blue.

use vstd::prelude::*;
use vstd::arithmetic::power2::{pow2, lemma2_to64};
use vstd::bits::lemma_u32_shl_is_mul;

verus! {

/// How each pixel sample is bit-packed, as the server declares it.
#[derive(Copy, Clone, PartialEq, Eq, Structural, Debug)]
pub struct PixelFormat {
    pub bits_per_pixel: u8,
    pub depth: u8,
    pub big_endian: bool,
    pub true_colour: bool,
    pub red_max: u16,
    pub green_max: u16,
    pub blue_max: u16,
    pub red_shift: u8,
    pub green_shift: u8,
    pub blue_shift: u8,
}

/// Why a sample or a rectangle of samples could not be decoded.
#[derive(Copy, Clone, PartialEq, Eq, Structural, Debug)]
pub enum DecodeError {
    /// The bits-per-pixel / depth pair is not one of 16/16, 16/15, 32/24.
    UnsupportedFormat,
    /// The sample does not hold exactly bits-per-pixel / 8 bytes.
    SampleLength,
    /// A channel's shift is not below the sample's width, or its promoted
    /// value does not fit in a byte.
    ChannelRange,
    /// Bits per pixel is neither 16 nor 32.
    InvalidBitsPerPixel,
    /// The rectangle does not lie inside the framebuffer.
    RectOutOfBounds,
    /// Fewer bytes than the rectangle's pixels need.
    ShortBuffer,
}

/// An 8-bit red, green, blue triple.
pub type Colour = (u8, u8, u8);

/// The pairs (bits per pixel, depth) that the decoder understands.
pub open spec fn is_supported(bits_per_pixel: u8, depth: u8) -> bool {
    (bits_per_pixel == 16 && (depth == 16 || depth == 15)) || (bits_per_pixel == 32 && depth
        == 24)
}

/// Bytes per sample for a bits-per-pixel value of 16 or 32.
pub open spec fn bytes_per_pixel(bits_per_pixel: u8) -> nat {
    if bits_per_pixel == 16 {
        2
    } else {
        4
    }
}

/// The unsigned integer that a 2- or 4-byte sample encodes.
pub open spec fn sample_value(b: Seq<u8>, big_endian: bool) -> int {
    if b.len() == 2 {
        if big_endian {
            b[0] * 256 + b[1]
        } else {
            b[1] * 256 + b[0]
        }
    } else if big_endian {
        ((b[0] * 256 + b[1]) * 256 + b[2]) * 256 + b[3]
    } else {
        ((b[3] * 256 + b[2]) * 256 + b[1]) * 256 + b[0]
    }
}

/// Number of set bits.
pub open spec fn popcount(m: u16) -> nat
    decreases m,
{
    if m == 0 {
        0
    } else {
        (m % 2) as nat + popcount(m / 2)
    }
}

/// The channel's bits: `(px >> shift) & max`.
pub open spec fn channel_bits(px: u32, shift: u8, max: u16) -> u32 {
    (px >> shift) & (max as u32)
}

/// A channel narrower than 8 bits is moved to the top of the byte.
pub open spec fn promoted(v: u32, max: u16) -> int {
    if popcount(max) < 8 {
        v * pow2((8 - popcount(max)) as nat)
    } else {
        v as int
    }
}

/// One channel of a sample of `width` bits, or `None` when the shift is
/// out of range or the promoted value does not fit in a byte.
pub open spec fn channel_of(px: u32, width: nat, shift: u8, max: u16) -> Option<u8> {
    if shift >= width {
        None
    } else {
        let v = promoted(channel_bits(px, shift, max), max);
        if v <= 255 {
            Some(v as u8)
        } else {
            None
        }
    }
}

/// The colour that a sample of the right length decodes to.
pub open spec fn rgb_of_value(f: PixelFormat, px: u32) -> Result<Colour, DecodeError> {
    let w = f.bits_per_pixel as nat;
    let r = channel_of(px, w, f.red_shift, f.red_max);
    let g = channel_of(px, w, f.green_shift, f.green_max);
    let b = channel_of(px, w, f.blue_shift, f.blue_max);
    if r is Some && g is Some && b is Some {
        Ok((r->0, g->0, b->0))
    } else {
        Err(DecodeError::ChannelRange)
    }
}

/// What decoding the sample `bytes` under `f` gives.
pub open spec fn decode_spec(f: PixelFormat, bytes: Seq<u8>) -> Result<Colour, DecodeError> {
    if !is_supported(f.bits_per_pixel, f.depth) {
        Err(DecodeError::UnsupportedFormat)
    } else if bytes.len() != bytes_per_pixel(f.bits_per_pixel) {
        Err(DecodeError::SampleLength)
    } else {
        rgb_of_value(f, sample_value(bytes, f.big_endian) as u32)
    }
}

/// Counts the set bits of `m`.
fn count_ones(m: u16) -> (r: u32)
    ensures
        r == popcount(m),
        r <= 16,
{
    proof {
        lemma_popcount_bound(m);
    }
    let mut c: u32 = 0;
    let mut x: u16 = m;
    while x > 0
        invariant
            c + popcount(x) == popcount(m),
            popcount(m) <= 16,
        decreases x,
    {
        c = c + (x % 2) as u32;
        x = x / 2;
    }
    c
}

proof fn lemma_popcount_bound(m: u16)
    ensures
        popcount(m) <= 16,
{
    lemma2_to64();
    lemma_popcount_le(m, 16);
}

proof fn lemma_popcount_le(m: u16, n: nat)
    requires
        m < pow2(n),
    ensures
        popcount(m) <= n,
    decreases m,
{
    lemma2_to64();
    if m != 0 {
        if n == 0 {
            assert(false);
        } else {
            vstd::arithmetic::power2::lemma_pow2_unfold(n);
            lemma_popcount_le(m / 2, (n - 1) as nat);
        }
    }
}

/// One channel of the sample `px`, which is `width` bits wide.
fn channel(px: u32, width: u8, shift: u8, max: u16) -> (r: Option<u8>)
    requires
        width == 16 || width == 32,
    ensures
        r == channel_of(px, width as nat, shift, max),
{
    if shift >= width {
        return None;
    }
    let v: u32 = (px >> shift) & (max as u32);
    assert(v <= 0xffff) by (bit_vector)
        requires
            v == (px >> shift) & (max as u32),
            max <= 0xffff,
    ;
    let ones = count_ones(max);
    let out: u32 = if ones < 8 {
        let k: u32 = 8 - ones;
        proof {
            lemma2_to64();
            assert(pow2(k as nat) <= 256) by {
                assert(1 <= k <= 8);
            }
            assert(v * pow2(k as nat) <= 0xffff * 256) by (nonlinear_arith)
                requires
                    v <= 0xffff,
                    pow2(k as nat) <= 256,
            ;
            lemma_u32_shl_is_mul(v, k);
        }
        v << k
    } else {
        v
    };
    if out > 255 {
        None
    } else {
        Some(out as u8)
    }
}

/// Decodes the integer sample `px` of a supported format.
fn rgb_from_value(format: &PixelFormat, px: u32) -> (r: Result<Colour, DecodeError>)
    requires
        is_supported(format.bits_per_pixel, format.depth),
    ensures
        r == rgb_of_value(*format, px),
{
    let w = format.bits_per_pixel;
    let red = channel(px, w, format.red_shift, format.red_max);
    let green = channel(px, w, format.green_shift, format.green_max);
    let blue = channel(px, w, format.blue_shift, format.blue_max);
    match (red, green, blue) {
        (Some(r), Some(g), Some(b)) => Ok((r, g, b)),
        _ => Err(DecodeError::ChannelRange),
    }
}

/// The integer held by `len` bytes of `bytes` from `start`, `len` being 2 or 4.
fn read_sample(bytes: &[u8], start: usize, len: usize, big_endian: bool) -> (r: u32)
    requires
        len == 2 || len == 4,
        start + len <= bytes@.len(),
    ensures
        r == sample_value(bytes@.subrange(start as int, start + len), big_endian),
{
    if len == 2 {
        let b0 = bytes[start] as u32;
        let b1 = bytes[start + 1] as u32;
        if big_endian {
            b0 * 256 + b1
        } else {
            b1 * 256 + b0
        }
    } else {
        let b0 = bytes[start] as u32;
        let b1 = bytes[start + 1] as u32;
        let b2 = bytes[start + 2] as u32;
        let b3 = bytes[start + 3] as u32;
        if big_endian {
            ((b0 * 256 + b1) * 256 + b2) * 256 + b3
        } else {
            ((b3 * 256 + b2) * 256 + b1) * 256 + b0
        }
    }
}

/// Decodes one sample of a supported format, taken from `pixels` at `start`.
pub(crate) fn decode_at(format: &PixelFormat, pixels: &[u8], start: usize) -> (r: Result<
    Colour,
    DecodeError,
>)
    requires
        is_supported(format.bits_per_pixel, format.depth),
        start + bytes_per_pixel(format.bits_per_pixel) <= pixels@.len(),
    ensures
        r == decode_spec(
            *format,
            pixels@.subrange(start as int, start + bytes_per_pixel(format.bits_per_pixel)),
        ),
{
    let len: usize = if format.bits_per_pixel == 16 {
        2
    } else {
        4
    };
    let px = read_sample(pixels, start, len, format.big_endian);
    rgb_from_value(format, px)
}

/// Converts one wire-encoded pixel sample into its red, green and blue
/// bytes; any format other than 16/16, 16/15 and 32/24 is an error.
pub fn pixel_to_rgb(format: &PixelFormat, bytes: &[u8]) -> (r: Result<Colour, DecodeError>)
    ensures
        r == decode_spec(*format, bytes@),
{
    if !((format.bits_per_pixel == 16 && (format.depth == 16 || format.depth == 15)) || (
    format.bits_per_pixel == 32 && format.depth == 24)) {
        return Err(DecodeError::UnsupportedFormat);
    }
    let len: usize = if format.bits_per_pixel == 16 {
        2
    } else {
        4
    };
    if bytes.len() != len {
        return Err(DecodeError::SampleLength);
    }
    let r = decode_at(format, bytes, 0);
    assert(bytes@.subrange(0, len as int) =~= bytes@);
    r
}

/// A channel of `n` bits, `max == 2^n - 1`, moved to the top of a byte.
pub open spec fn top_of_byte(px: u32, shift: u8, max: u16, n: nat) -> u8 {
    (channel_bits(px, shift, max) * pow2((8 - n) as nat)) as u8
}

proof fn lemma_popcount_low_mask(n: nat)
    requires
        1 <= n <= 8,
    ensures
        popcount((pow2(n) - 1) as u16) == n,
{
    lemma2_to64();
    reveal_with_fuel(popcount, 9);
    assert(popcount(0u16) == 0);
    assert(popcount(1u16) == 1);
    assert(popcount(3u16) == 2);
    assert(popcount(7u16) == 3);
    assert(popcount(15u16) == 4);
    assert(popcount(31u16) == 5);
    assert(popcount(63u16) == 6);
    assert(popcount(127u16) == 7);
    assert(popcount(255u16) == 8);
}

proof fn lemma_channel_low_mask(px: u32, width: nat, shift: u8, max: u16, n: nat)
    requires
        shift < width,
        1 <= n <= 8,
        max == pow2(n) - 1,
    ensures
        channel_of(px, width, shift, max) == Some(top_of_byte(px, shift, max, n)),
{
    lemma2_to64();
    lemma_popcount_low_mask(n);
    let v = channel_bits(px, shift, max);
    assert(v <= max as u32) by (bit_vector)
        requires
            v == (px >> shift) & (max as u32),
    ;
    vstd::arithmetic::power2::lemma_pow2_adds(n, (8 - n) as nat);
    let p = pow2((8 - n) as nat);
    assert(v * p <= max * p) by (nonlinear_arith)
        requires
            v <= max,
            p >= 0,
    ;
    assert(max * p == pow2(n) * p - p) by (nonlinear_arith)
        requires
            max == pow2(n) - 1,
    ;
    assert(p >= 1) by {
        vstd::arithmetic::power2::lemma_pow2_pos((8 - n) as nat);
    }
    if n == 8 {
        assert(p == 1);
    }
}

/// For a supported format whose channel maxima are `2^n - 1` with
/// `1 <= n <= 8` and whose shifts lie inside the sample, every sample of
/// the right length decodes, each channel being its masked bits moved to
/// the top of the byte.
pub proof fn lemma_decode_low_masks(f: PixelFormat, bytes: Seq<u8>, nr: nat, ng: nat, nb: nat)
    requires
        is_supported(f.bits_per_pixel, f.depth),
        bytes.len() == bytes_per_pixel(f.bits_per_pixel),
        1 <= nr <= 8,
        1 <= ng <= 8,
        1 <= nb <= 8,
        f.red_max == pow2(nr) - 1,
        f.green_max == pow2(ng) - 1,
        f.blue_max == pow2(nb) - 1,
        f.red_shift < f.bits_per_pixel,
        f.green_shift < f.bits_per_pixel,
        f.blue_shift < f.bits_per_pixel,
    ensures
        ({
            let px = sample_value(bytes, f.big_endian) as u32;
            decode_spec(f, bytes) == Ok::<Colour, DecodeError>(
                (
                    top_of_byte(px, f.red_shift, f.red_max, nr),
                    top_of_byte(px, f.green_shift, f.green_max, ng),
                    top_of_byte(px, f.blue_shift, f.blue_max, nb),
                ),
            )
        }),
{
    let px = sample_value(bytes, f.big_endian) as u32;
    let w = f.bits_per_pixel as nat;
    lemma_channel_low_mask(px, w, f.red_shift, f.red_max, nr);
    lemma_channel_low_mask(px, w, f.green_shift, f.green_max, ng);
    lemma_channel_low_mask(px, w, f.blue_shift, f.blue_max, nb);
}

/// A sample of a format outside 16/16, 16/15 and 32/24 never decodes to
/// a colour, whatever its bytes: it is always the format error.
pub proof fn lemma_unsupported_never_decodes(f: PixelFormat, bytes: Seq<u8>)
    requires
        !is_supported(f.bits_per_pixel, f.depth),
    ensures
        decode_spec(f, bytes) == Err::<Colour, DecodeError>(DecodeError::UnsupportedFormat),
{
}

} // verus!
