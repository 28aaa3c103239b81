//! Tests for the byte-level entry point, run against the real image codec.

use eidolon::convert::SkinError;
use eidolon::codec::single2double_bytes;

/// Encode an RGBA pixel function as a PNG byte vector.
fn png_bytes(width: u32, height: u32, f: impl Fn(u32, u32) -> [u8; 4]) -> Vec<u8> {
    let img = image::RgbaImage::from_fn(width, height, |x, y| image::Rgba(f(x, y)));
    let mut out = Vec::new();
    image::write_buffer_with_format(
        &mut std::io::Cursor::new(&mut out),
        img.as_raw(),
        width,
        height,
        image::ExtendedColorType::Rgba8,
        image::ImageFormat::Png,
    )
    .unwrap();
    out
}

#[test]
fn garbage_bytes_fail_with_decode_failure() {
    let r = single2double_bytes(b"certainly not an image");
    assert!(matches!(r, Err(SkinError::DecodeFailure { .. })));
}

#[test]
fn square_png_fails_with_invalid_layout_and_yields_no_bytes() {
    let bytes = png_bytes(10, 10, |_, _| [1, 2, 3, 255]);
    match single2double_bytes(&bytes) {
        Err(SkinError::InvalidLayout { width, height }) => {
            assert_eq!(width, 10);
            assert_eq!(height, 10);
        }
        _ => panic!("expected InvalidLayout"),
    }
}

#[test]
fn png_roundtrip_converts_and_mirrors() {
    // single-layer input: unique color per pixel
    let bytes = png_bytes(64, 32, |x, y| [x as u8, y as u8, 9, 255]);
    let out_bytes = single2double_bytes(&bytes).unwrap();
    let out = image::load_from_memory(&out_bytes).unwrap().to_rgba8();
    assert_eq!(out.width(), 64);
    assert_eq!(out.height(), 64);
    // base preservation
    for y in 0..32 {
        for x in 0..64 {
            assert_eq!(out.get_pixel(x, y).0, [x as u8, y as u8, 9, 255]);
        }
    }
    // the left-arm outside patch mirrors the right-arm outside source
    for j in 0..12u32 {
        for i in 0..4u32 {
            assert_eq!(
                out.get_pixel(40 + (3 - i), 52 + j).0,
                [(40 + i) as u8, (20 + j) as u8, 9, 255]
            );
        }
    }
    // unmapped lower-half pixels are transparent black
    assert_eq!(out.get_pixel(0, 40).0, [0, 0, 0, 0]);
}

#[test]
fn hd_png_roundtrip_scales_rectangles() {
    let bytes = png_bytes(128, 64, |x, y| {
        if (80..88).contains(&x) && (40..64).contains(&y) {
            [255, 0, 0, 255]
        } else {
            [0, 0, 0, 0]
        }
    });
    let out_bytes = single2double_bytes(&bytes).unwrap();
    let out = image::load_from_memory(&out_bytes).unwrap().to_rgba8();
    assert_eq!(out.width(), 128);
    assert_eq!(out.height(), 128);
    for y in 104..128 {
        for x in 80..88 {
            assert_eq!(out.get_pixel(x, y).0, [255, 0, 0, 255]);
        }
    }
}
