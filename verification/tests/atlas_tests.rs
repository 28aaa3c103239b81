//! Tests for the atlas buffer operations: allocation, pixel access, crop,
//! mirror and overlay.

use eidolon::atlas::Atlas;
use eidolon::rect::ScaledRect;

fn checkerboard(width: usize, height: usize) -> Atlas {
    let mut a = Atlas::new(width, height);
    for y in 0..height {
        for x in 0..width {
            a.put_pixel(x, y, (x as u8, y as u8, (x + y) as u8, 255));
        }
    }
    a
}

#[test]
fn new_atlas_is_transparent_black() {
    let a = Atlas::new(4, 3);
    assert_eq!(a.width, 4);
    assert_eq!(a.height, 3);
    assert_eq!(a.data.len(), 48);
    for y in 0..3 {
        for x in 0..4 {
            assert_eq!(a.get_pixel(x, y), (0, 0, 0, 0));
        }
    }
}

#[test]
fn put_then_get_roundtrips() {
    let mut a = Atlas::new(4, 4);
    a.put_pixel(2, 1, (10, 20, 30, 40));
    assert_eq!(a.get_pixel(2, 1), (10, 20, 30, 40));
    assert_eq!(a.get_pixel(1, 2), (0, 0, 0, 0));
}

#[test]
fn crop_copies_the_subrectangle() {
    let a = checkerboard(4, 4);
    let r = ScaledRect { x0: 1, y0: 1, x1: 3, y1: 4 };
    let c = a.crop(&r);
    assert_eq!(c.width, 2);
    assert_eq!(c.height, 3);
    for j in 0..3 {
        for i in 0..2 {
            assert_eq!(c.get_pixel(i, j), a.get_pixel(1 + i, 1 + j));
        }
    }
}

#[test]
fn crop_is_an_independent_copy() {
    let a = checkerboard(4, 4);
    let r = ScaledRect { x0: 0, y0: 0, x1: 2, y1: 2 };
    let mut c = a.crop(&r);
    c.put_pixel(0, 0, (99, 99, 99, 99));
    // the source is untouched by writes to the crop
    assert_eq!(a.get_pixel(0, 0), (0, 0, 0, 255));
}

#[test]
fn mirror_reverses_columns_and_keeps_rows() {
    let a = checkerboard(3, 2);
    let m = a.mirror();
    assert_eq!(m.width, 3);
    assert_eq!(m.height, 2);
    for j in 0..2 {
        for i in 0..3 {
            assert_eq!(m.get_pixel(i, j), a.get_pixel(2 - i, j));
        }
    }
}

#[test]
fn overlay_replaces_covered_pixels_and_keeps_the_rest() {
    let mut base = checkerboard(4, 4);
    let mut patch = Atlas::new(2, 2);
    patch.put_pixel(0, 0, (1, 2, 3, 4));
    // (1, 1) of the patch stays transparent black on purpose: overlay must
    // fully replace, not blend
    base.overlay(&patch, 1, 2);
    assert_eq!(base.get_pixel(1, 2), (1, 2, 3, 4));
    assert_eq!(base.get_pixel(2, 3), (0, 0, 0, 0));
    // outside the patch rectangle nothing changed
    assert_eq!(base.get_pixel(0, 0), (0, 0, 0, 255));
    assert_eq!(base.get_pixel(3, 3), (3, 3, 6, 255));
    assert_eq!(base.get_pixel(0, 2), (0, 2, 2, 255));
}
