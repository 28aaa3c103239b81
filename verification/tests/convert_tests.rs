//! Tests for the conversion engine: shape, validation, base preservation,
//! mirroring and scaling behaviour.

use eidolon::atlas::Atlas;
use eidolon::convert::{single2double_image, validate_single_layer, SkinError};
use eidolon::rect::scale_rect;
use eidolon::regions::{dest_rect, paste_order, source_rect};

const RED: (u8, u8, u8, u8) = (255, 0, 0, 255);

/// A single-layer atlas, transparent black except one solid rectangle.
fn atlas_with_rect(
    width: usize,
    height: usize,
    x0: usize,
    y0: usize,
    x1: usize,
    y1: usize,
    p: (u8, u8, u8, u8),
) -> Atlas {
    let mut a = Atlas::new(width, height);
    for y in y0..y1 {
        for x in x0..x1 {
            a.put_pixel(x, y, p);
        }
    }
    a
}

#[test]
fn output_is_square_with_the_input_width() {
    let a = Atlas::new(64, 32);
    let out = single2double_image(&a).unwrap();
    assert_eq!(out.width, 64);
    assert_eq!(out.height, 64);

    let b = Atlas::new(128, 64);
    let out = single2double_image(&b).unwrap();
    assert_eq!(out.width, 128);
    assert_eq!(out.height, 128);
}

#[test]
fn square_input_fails_invalid_layout() {
    let a = Atlas::new(10, 10);
    match single2double_image(&a) {
        Err(SkinError::InvalidLayout { width, height }) => {
            assert_eq!(width, 10);
            assert_eq!(height, 10);
        }
        _ => panic!("expected InvalidLayout"),
    }
}

#[test]
fn double_layer_input_is_rejected_not_reconverted() {
    // a 64x64 atlas is already double-layer; conversion is single-shot
    let a = Atlas::new(64, 64);
    assert!(matches!(
        single2double_image(&a),
        Err(SkinError::InvalidLayout { width: 64, height: 64 })
    ));
}

#[test]
fn validator_accepts_two_to_one_and_nothing_else() {
    assert!(validate_single_layer(&Atlas::new(64, 32)).is_ok());
    assert!(validate_single_layer(&Atlas::new(2, 1)).is_ok());
    assert!(matches!(
        validate_single_layer(&Atlas::new(64, 33)),
        Err(SkinError::InvalidLayout { width: 64, height: 33 })
    ));
    assert!(matches!(
        validate_single_layer(&Atlas::new(10, 10)),
        Err(SkinError::InvalidLayout { width: 10, height: 10 })
    ));
}

#[test]
fn base_scale_scenario_red_right_arm_outside() {
    // right-arm outside region (40,20)-(44,32) solid red, all else transparent
    let a = atlas_with_rect(64, 32, 40, 20, 44, 32, RED);
    let out = single2double_image(&a).unwrap();
    assert_eq!(out.width, 64);
    assert_eq!(out.height, 64);
    // the original right-arm inside region (20,20)-(24,32) is still transparent
    for y in 20..32 {
        for x in 20..24 {
            assert_eq!(out.get_pixel(x, y), (0, 0, 0, 0));
        }
    }
    // the left-arm outside destination (40,52)-(44,64) is solid red
    for y in 52..64 {
        for x in 40..44 {
            assert_eq!(out.get_pixel(x, y), RED);
        }
    }
    // rows 0..32 are exactly the input everywhere
    for y in 0..32 {
        for x in 0..64 {
            assert_eq!(out.get_pixel(x, y), a.get_pixel(x, y));
        }
    }
}

#[test]
fn hd_scenario_doubles_every_rectangle() {
    // the same scenario at 128x64: every rectangle is doubled
    let a = atlas_with_rect(128, 64, 80, 40, 88, 64, RED);
    let out = single2double_image(&a).unwrap();
    assert_eq!(out.width, 128);
    assert_eq!(out.height, 128);
    for y in 104..128 {
        for x in 80..88 {
            assert_eq!(out.get_pixel(x, y), RED);
        }
    }
    for y in 0..64 {
        for x in 0..128 {
            assert_eq!(out.get_pixel(x, y), a.get_pixel(x, y));
        }
    }
}

#[test]
fn mirrored_patch_reverses_columns_and_keeps_rows() {
    // paint each column of the right-arm outside source with its own color
    let mut a = Atlas::new(64, 32);
    for j in 0..12usize {
        for i in 0..4usize {
            a.put_pixel(40 + i, 20 + j, (10 * i as u8, j as u8, 0, 255));
        }
    }
    let out = single2double_image(&a).unwrap();
    // destination (40,52)-(44,64): column order reversed, row order kept
    for j in 0..12usize {
        for i in 0..4usize {
            assert_eq!(out.get_pixel(40 + (3 - i), 52 + j), a.get_pixel(40 + i, 20 + j));
        }
    }
}

#[test]
fn every_limb_subface_is_mirrored() {
    // give every input pixel a unique color
    let mut a = Atlas::new(64, 32);
    for y in 0..32usize {
        for x in 0..64usize {
            a.put_pixel(x, y, (x as u8, y as u8, 7, 255));
        }
    }
    let out = single2double_image(&a).unwrap();
    for (l, f) in paste_order() {
        let s = scale_rect(&source_rect(l, f).unwrap(), 64);
        let d = scale_rect(&dest_rect(l, f).unwrap(), 64);
        let n = s.x1 - s.x0;
        for j in 0..(s.y1 - s.y0) {
            for i in 0..n {
                assert_eq!(
                    out.get_pixel(d.x0 + (n - 1 - i), d.y0 + j),
                    a.get_pixel(s.x0 + i, s.y0 + j)
                );
            }
        }
    }
}

#[test]
fn uncovered_lower_half_stays_transparent() {
    // a fully opaque white input still leaves the unmapped parts of the
    // lower half transparent black
    let a = atlas_with_rect(64, 32, 0, 0, 64, 32, (255, 255, 255, 255));
    let out = single2double_image(&a).unwrap();
    // (0,32) is below the base copy and left of every destination rectangle
    assert_eq!(out.get_pixel(0, 32), (0, 0, 0, 0));
    assert_eq!(out.get_pixel(63, 63), (0, 0, 0, 0));
    assert_eq!(out.get_pixel(10, 40), (0, 0, 0, 0));
}
