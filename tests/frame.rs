use scrying::frame::{Image, Rect};
use scrying::pixel::{DecodeError, PixelFormat};

fn rgb565() -> PixelFormat {
    PixelFormat {
        bits_per_pixel: 16,
        depth: 16,
        big_endian: false,
        true_colour: true,
        red_max: 31,
        green_max: 63,
        blue_max: 31,
        red_shift: 11,
        green_shift: 5,
        blue_shift: 0,
    }
}

fn px(data: &[u8], width: usize, x: usize, y: usize) -> (u8, u8, u8) {
    let i = 3 * (y * width + x);
    (data[i], data[i + 1], data[i + 2])
}

#[test]
fn new_image_is_black() {
    let img = Image::new(rgb565(), 4, 3);
    let data = img.extract();
    assert_eq!(data.len(), 36);
    assert!(data.iter().all(|b| *b == 0));
}

#[test]
fn rectangle_at_offset_keeps_outside() {
    let mut img = Image::new(rgb565(), 4, 3);
    let rect = Rect { left: 1, top: 1, width: 2, height: 2 };
    let pixels = [0xFF, 0xFF, 0x00, 0xF8, 0xE0, 0x07, 0x1F, 0x00];
    assert_eq!(img.put_pixels(rect, &pixels), Ok(()));
    let data = img.extract();
    assert_eq!(px(&data, 4, 1, 1), (248, 252, 248));
    assert_eq!(px(&data, 4, 2, 1), (248, 0, 0));
    assert_eq!(px(&data, 4, 1, 2), (0, 252, 0));
    assert_eq!(px(&data, 4, 2, 2), (0, 0, 248));
    let mut written = 0;
    for y in 0..3 {
        for x in 0..4 {
            let inside = (1..3).contains(&x) && (1..3).contains(&y);
            if inside {
                written += 1;
            } else {
                assert_eq!(px(&data, 4, x, y), (0, 0, 0));
            }
        }
    }
    assert_eq!(written, 4);
}

#[test]
fn rectangle_errors() {
    let mut img = Image::new(rgb565(), 4, 3);
    let rect = Rect { left: 3, top: 0, width: 2, height: 1 };
    assert_eq!(img.put_pixels(rect, &[0; 4]), Err(DecodeError::RectOutOfBounds));
    let rect = Rect { left: 0, top: 0, width: 2, height: 1 };
    assert_eq!(img.put_pixels(rect, &[0xFF; 3]), Err(DecodeError::ShortBuffer));
    assert!(img.extract().iter().all(|b| *b == 0));

    let mut bad = Image::new(PixelFormat { bits_per_pixel: 8, depth: 8, ..rgb565() }, 2, 2);
    assert_eq!(bad.put_pixels(rect, &[0; 4]), Err(DecodeError::InvalidBitsPerPixel));
    let mut unsupported = Image::new(PixelFormat { depth: 24, ..rgb565() }, 2, 2);
    assert_eq!(unsupported.put_pixels(rect, &[0; 4]), Err(DecodeError::UnsupportedFormat));
}

#[test]
fn failing_sample_writes_nothing() {
    let mut img = Image::new(PixelFormat { red_shift: 20, ..rgb565() }, 2, 1);
    let rect = Rect { left: 0, top: 0, width: 2, height: 1 };
    assert_eq!(img.put_pixels(rect, &[0xFF; 4]), Err(DecodeError::ChannelRange));
    assert!(img.extract().iter().all(|b| *b == 0));
}

#[test]
fn extra_bytes_and_empty_rectangle() {
    let rect = Rect { left: 0, top: 0, width: 1, height: 1 };
    let mut a = Image::new(rgb565(), 2, 1);
    let mut b = Image::new(rgb565(), 2, 1);
    assert_eq!(a.put_pixels(rect, &[0xFF, 0xFF]), Ok(()));
    assert_eq!(b.put_pixels(rect, &[0xFF, 0xFF, 0x12, 0x34, 0x56]), Ok(()));
    assert_eq!(a.extract(), b.extract());

    let mut c = Image::new(rgb565(), 2, 1);
    let empty = Rect { left: 1, top: 0, width: 0, height: 1 };
    assert_eq!(c.put_pixels(empty, &[]), Ok(()));
    assert_eq!(c.extract(), vec![0; 6]);
}
