//! Tests for the scaler and the region table.

use eidolon::rect::{scale_rect, CanonRect};
use eidolon::regions::{dest_rect, paste_order, source_rect, Limb, SubFace};

#[test]
fn scale_rect_identity_at_base_resolution() {
    let r = CanonRect { x0: 40, y0: 20, x1: 44, y1: 32 };
    let s = scale_rect(&r, 64);
    assert_eq!((s.x0, s.y0, s.x1, s.y1), (40, 20, 44, 32));
}

#[test]
fn scale_rect_doubles_at_hd_resolution() {
    let r = CanonRect { x0: 40, y0: 20, x1: 44, y1: 32 };
    let s = scale_rect(&r, 128);
    assert_eq!((s.x0, s.y0, s.x1, s.y1), (80, 40, 88, 64));
}

#[test]
fn scale_rect_scales_proportionally_at_any_multiple() {
    let r = CanonRect { x0: 4, y0: 16, x1: 8, y1: 32 };
    for k in 1..5usize {
        let s = scale_rect(&r, 64 * k);
        assert_eq!(s.x1 - s.x0, 4 * k);
        assert_eq!(s.y1 - s.y0, 16 * k);
        assert_eq!(s.x0, 4 * k);
        assert_eq!(s.y0, 16 * k);
    }
}

#[test]
fn scale_rect_truncates_at_non_multiples() {
    // width 10 has ratio 10/64; every coordinate is floored
    let r = CanonRect { x0: 0, y0: 20, x1: 4, y1: 32 };
    let s = scale_rect(&r, 10);
    assert_eq!((s.x0, s.y0, s.x1, s.y1), (0, 3, 0, 5));
}

#[test]
fn region_table_arm_outside() {
    let s = source_rect(Limb::Arm, SubFace::Outside).unwrap();
    assert_eq!((s.x0, s.y0, s.x1, s.y1), (40, 20, 44, 32));
    let d = dest_rect(Limb::Arm, SubFace::Outside).unwrap();
    assert_eq!((d.x0, d.y0, d.x1, d.y1), (40, 52, 44, 64));
}

#[test]
fn region_table_leg_top_front_is_combined() {
    let s = source_rect(Limb::Leg, SubFace::TopFront).unwrap();
    assert_eq!((s.x0, s.y0, s.x1, s.y1), (4, 16, 8, 32));
    assert!(source_rect(Limb::Leg, SubFace::Top).is_none());
    assert!(source_rect(Limb::Leg, SubFace::Front).is_none());
    assert!(dest_rect(Limb::Arm, SubFace::TopFront).is_none());
}

#[test]
fn region_table_sizes_match_between_source_and_dest() {
    let entries = paste_order();
    assert_eq!(entries.len(), 11);
    for (l, f) in entries {
        let s = source_rect(l, f).unwrap();
        let d = dest_rect(l, f).unwrap();
        assert_eq!(s.x1 - s.x0, d.x1 - d.x0);
        assert_eq!(s.y1 - s.y0, d.y1 - d.y0);
    }
}
