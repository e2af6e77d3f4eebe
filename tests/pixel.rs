use scrying::pixel::{pixel_to_rgb, DecodeError, PixelFormat};

fn rgb565() -> PixelFormat {
    PixelFormat {
        bits_per_pixel: 16,
        depth: 16,
        big_endian: false,
        true_colour: true,
        red_max: 31,
        green_max: 63,
        blue_max: 31,
        red_shift: 11,
        green_shift: 5,
        blue_shift: 0,
    }
}

fn rgb555() -> PixelFormat {
    PixelFormat { depth: 15, green_max: 31, red_shift: 10, ..rgb565() }
}

fn rgb888() -> PixelFormat {
    PixelFormat {
        bits_per_pixel: 32,
        depth: 24,
        big_endian: false,
        true_colour: true,
        red_max: 255,
        green_max: 255,
        blue_max: 255,
        red_shift: 16,
        green_shift: 8,
        blue_shift: 0,
    }
}

#[test]
fn rgb565_all_bits_set() {
    assert_eq!(pixel_to_rgb(&rgb565(), &[0xFF, 0xFF]), Ok((248, 252, 248)));
}

#[test]
fn rgb565_zero() {
    assert_eq!(pixel_to_rgb(&rgb565(), &[0x00, 0x00]), Ok((0, 0, 0)));
}

#[test]
fn rgb565_channels() {
    // red = 0b10000 (top bit), green = 0, blue = 1: 0x8001
    assert_eq!(pixel_to_rgb(&rgb565(), &[0x01, 0x80]), Ok((128, 0, 8)));
    let be = PixelFormat { big_endian: true, ..rgb565() };
    assert_eq!(pixel_to_rgb(&be, &[0x80, 0x01]), Ok((128, 0, 8)));
}

#[test]
fn rgb555_channels() {
    // green = 0b11111 at shift 5: 0x03E0
    assert_eq!(pixel_to_rgb(&rgb555(), &[0xE0, 0x03]), Ok((0, 248, 0)));
    assert_eq!(pixel_to_rgb(&rgb555(), &[0xFF, 0x7F]), Ok((248, 248, 248)));
}

#[test]
fn rgb888_channels() {
    assert_eq!(pixel_to_rgb(&rgb888(), &[0x11, 0x22, 0x33, 0x00]), Ok((0x33, 0x22, 0x11)));
    let be = PixelFormat { big_endian: true, ..rgb888() };
    assert_eq!(pixel_to_rgb(&be, &[0x00, 0x33, 0x22, 0x11]), Ok((0x33, 0x22, 0x11)));
}

#[test]
fn unsupported_depth_is_error() {
    let f = PixelFormat { bits_per_pixel: 8, depth: 8, true_colour: false, ..rgb565() };
    assert_eq!(pixel_to_rgb(&f, &[0x00]), Err(DecodeError::UnsupportedFormat));
    let f = PixelFormat { depth: 24, ..rgb565() };
    assert_eq!(pixel_to_rgb(&f, &[0x00, 0x00]), Err(DecodeError::UnsupportedFormat));
}

#[test]
fn wrong_sample_length_is_error() {
    assert_eq!(pixel_to_rgb(&rgb565(), &[0x00]), Err(DecodeError::SampleLength));
    assert_eq!(pixel_to_rgb(&rgb888(), &[0, 0]), Err(DecodeError::SampleLength));
}

#[test]
fn channel_out_of_range_is_error() {
    let f = PixelFormat { red_shift: 16, ..rgb565() };
    assert_eq!(pixel_to_rgb(&f, &[0xFF, 0xFF]), Err(DecodeError::ChannelRange));
    let f = PixelFormat { red_max: 0x1FF, ..rgb888() };
    assert_eq!(pixel_to_rgb(&f, &[0x00, 0x00, 0xFF, 0x01]), Err(DecodeError::ChannelRange));
}
