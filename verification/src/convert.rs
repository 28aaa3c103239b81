//! The atlas conversion engine.
//!
//! Conversion of a validated single-layer skin produces a fresh square
//! atlas: the input is copied into the top-left corner, then for every
//! region-table entry the scaled source rectangle is cropped from the
//! input, mirrored horizontally, and written over the scaled destination
//! origin, in a fixed paste order.  `converted_pix` is the complete
//! mathematical description of the output, pixel by pixel.

use vstd::prelude::*;

verus! {

use vstd::arithmetic::div_mod::{
    lemma_div_is_ordered,
    lemma_div_multiples_vanish,
    lemma_div_pos_is_pos,
    lemma_fundamental_div_mod,
    lemma_mod_bound,
};
use vstd::arithmetic::mul::lemma_mul_inequality;
use crate::atlas::{lemma_offset_in_bounds, Atlas, AtlasView, Pixel};
use crate::rect::{
    lemma_scale_coord_lower_half,
    lemma_scale_coord_proportional,
    lemma_scale_coord_top_half,
    lemma_scale_sum_bound,
    scale_coord,
    scale_rect,
};
use crate::regions::{
    dest_rect,
    entry_at,
    entry_index,
    face_defined,
    lemma_entry_at_defined,
    lemma_entry_index_at,
    lemma_table_geometry,
    num_entries,
    paste_order,
    source_rect,
    spec_dest_rect,
    spec_source_rect,
    Limb,
    SubFace,
};

/// Why a conversion failed.  Each failure is terminal for the call and is
/// reported as a distinct, inspectable value.
#[derive(Debug, Clone)]
pub enum SkinError {
    /// The input is not a single-layer skin: its width is not twice its
    /// height.  Carries the actual dimensions.
    InvalidLayout { width: usize, height: usize },
    /// The input bytes could not be decoded as a supported image.
    DecodeFailure { message: String },
    /// The output atlas could not be encoded.
    EncodeFailure { message: String },
}

/// The result is an `InvalidLayout` error carrying exactly these dimensions.
pub open spec fn is_invalid_layout(r: Result<Atlas, SkinError>, w: int, h: int) -> bool {
    r matches Err(SkinError::InvalidLayout { width, height }) && width == w && height == h
}

/// The pixel the output holds before any overlay is pasted: the input's
/// pixel inside the top-left copy of the input, transparent black
/// elsewhere on the fresh square canvas.
pub open spec fn base_pix(src: AtlasView, x: int, y: int) -> Pixel {
    if src.in_bounds(x, y) {
        src.pix(x, y)
    } else {
        (0u8, 0u8, 0u8, 0u8)
    }
}

/// Scaled source-rectangle origin (column) of a region-table entry.
pub open spec fn src_x(l: Limb, f: SubFace, w: int) -> int {
    scale_coord(spec_source_rect(l, f).x0 as int, w)
}

/// Scaled source-rectangle origin (row) of a region-table entry.
pub open spec fn src_y(l: Limb, f: SubFace, w: int) -> int {
    scale_coord(spec_source_rect(l, f).y0 as int, w)
}

/// Width of the scaled source patch of a region-table entry.
pub open spec fn patch_w(l: Limb, f: SubFace, w: int) -> int {
    scale_coord(spec_source_rect(l, f).x1 as int, w) - scale_coord(spec_source_rect(l, f).x0 as int, w)
}

/// Height of the scaled source patch of a region-table entry.
pub open spec fn patch_h(l: Limb, f: SubFace, w: int) -> int {
    scale_coord(spec_source_rect(l, f).y1 as int, w) - scale_coord(spec_source_rect(l, f).y0 as int, w)
}

/// Scaled destination origin (column) of a region-table entry.
pub open spec fn dest_x(l: Limb, f: SubFace, w: int) -> int {
    scale_coord(spec_dest_rect(l, f).x0 as int, w)
}

/// Scaled destination origin (row) of a region-table entry.
pub open spec fn dest_y(l: Limb, f: SubFace, w: int) -> int {
    scale_coord(spec_dest_rect(l, f).y0 as int, w)
}

/// Whether the overlay written for this entry, at atlas width `w`, covers
/// the output pixel (x, y): the patch spans the scaled destination origin
/// plus the scaled source extent.
pub open spec fn covers(l: Limb, f: SubFace, w: int, x: int, y: int) -> bool {
    dest_x(l, f, w) <= x < dest_x(l, f, w) + patch_w(l, f, w)
        && dest_y(l, f, w) <= y < dest_y(l, f, w) + patch_h(l, f, w)
}

/// The source pixel that this entry's mirrored overlay writes at output
/// position (x, y): columns are reversed within the patch, rows preserved.
pub open spec fn mirrored_pix(src: AtlasView, l: Limb, f: SubFace, x: int, y: int) -> Pixel {
    let w = src.width as int;
    src.pix(
        src_x(l, f, w) + (patch_w(l, f, w) - 1 - (x - dest_x(l, f, w))),
        src_y(l, f, w) + (y - dest_y(l, f, w)),
    )
}

/// The output pixel at (x, y) after the base copy and the first `k`
/// overlays of the paste order have been written: the latest overlay
/// covering the pixel wins, and uncovered pixels keep the base value.
pub open spec fn paste_upto(src: AtlasView, k: int, x: int, y: int) -> Pixel
    decreases k,
{
    if k <= 0 {
        base_pix(src, x, y)
    } else {
        let e = entry_at(k - 1);
        if covers(e.0, e.1, src.width as int, x, y) {
            mirrored_pix(src, e.0, e.1, x, y)
        } else {
            paste_upto(src, k - 1, x, y)
        }
    }
}

/// The complete conversion, pixel by pixel: what the double-layer output
/// holds at (x, y) for a single-layer input `src`.
pub open spec fn converted_pix(src: AtlasView, x: int, y: int) -> Pixel {
    paste_upto(src, num_entries(), x, y)
}

/// The format validator: accepts exactly the single-layer shape (width
/// twice the height) and rejects everything else with `InvalidLayout`
/// carrying the actual dimensions.  It must run before any scaling or
/// cropping, and has no side effects.
pub fn validate_single_layer(img: &Atlas) -> (r: Result<(), SkinError>)
    ensures
        img@.single_layer() ==> r is Ok,
        !img@.single_layer() ==> (r matches Err(e)
            && e matches SkinError::InvalidLayout { width, height }
            && width == img@.width && height == img@.height),
{
    let w: usize = img.width;
    let h: usize = img.height;
    if h <= usize::MAX / 2 && w == 2 * h {
        Ok(())
    } else {
        proof {
            lemma_fundamental_div_mod(usize::MAX as int, 2);
            lemma_mod_bound(usize::MAX as int, 2);
        }
        Err(SkinError::InvalidLayout { width: w, height: h })
    }
}

/// Convert a single-layer skin atlas into a double-layer atlas.
///
/// On a single-layer input of width `w` the result is the fresh `w x w`
/// atlas described by `converted_pix`: the input copied to the top-left,
/// and every region-table sub-face cropped from the right limb, mirrored,
/// and pasted onto the left limb.  Any other input is rejected with
/// `InvalidLayout` carrying the offending dimensions.
pub fn single2double_image(img: &Atlas) -> (r: Result<Atlas, SkinError>)
    requires
        img@.wf(),
        4 * img@.width * img@.width <= usize::MAX,
    ensures
        img@.single_layer() ==> (r matches Ok(out) && out@.wf() && out@.width == img@.width
            && out@.height == img@.width
            && (forall|x: int, y: int|
                0 <= x < img@.width && 0 <= y < img@.width
                    ==> out@.pix(x, y) == converted_pix(img@, x, y))),
        !img@.single_layer() ==> is_invalid_layout(r, img@.width as int, img@.height as int),
{
    let w: usize = img.width;
    let h: usize = img.height;
    match validate_single_layer(img) {
        Ok(()) => {}
        Err(e) => {
            return Err(e);
        }
    }
    proof {
        // a width whose square canvas fits in the address space also keeps
        // every scaled coordinate product in range
        if w >= 16 {
            assert(64 * w <= 4 * w * w) by (nonlinear_arith)
                requires w >= 16;
        }
        lemma_div_is_ordered(64 * w as int, usize::MAX as int, 64);
        lemma_div_multiples_vanish(w as int, 64);
        assert(w <= usize::MAX / 64);
    }

    let mut out = Atlas::new(w, w);
    proof {
        assert forall|a: int, b: int| 0 <= a < w && 0 <= b < w
            implies out@.pix(a, b) == (0u8, 0u8, 0u8, 0u8) by {
            lemma_offset_in_bounds(out@, a, b);
        }
    }

    // Base copy: the whole input lands in the top-left corner.
    let mut y: usize = 0;
    while y < h
        invariant
            img@.wf(),
            out@.wf(),
            out@.width == w,
            out@.height == w,
            w == img@.width,
            h == img@.height,
            w == 2 * h,
            y <= h,
            forall|a: int, b: int|
                0 <= a < w && 0 <= b < y ==> out@.pix(a, b) == img@.pix(a, b),
            forall|a: int, b: int|
                0 <= a < w && y <= b < w ==> out@.pix(a, b) == (0u8, 0u8, 0u8, 0u8),
        decreases h - y,
    {
        let mut x: usize = 0;
        while x < w
            invariant
                img@.wf(),
                out@.wf(),
                out@.width == w,
                out@.height == w,
                w == img@.width,
                h == img@.height,
                w == 2 * h,
                y < h,
                x <= w,
                forall|a: int, b: int|
                    0 <= a < w && 0 <= b < y ==> out@.pix(a, b) == img@.pix(a, b),
                forall|a: int| 0 <= a < x ==> out@.pix(a, y as int) == img@.pix(a, y as int),
                forall|a: int, b: int|
                    0 <= a < w && y < b < w ==> out@.pix(a, b) == (0u8, 0u8, 0u8, 0u8),
                forall|a: int|
                    x <= a < w ==> out@.pix(a, y as int) == (0u8, 0u8, 0u8, 0u8),
            decreases w - x,
        {
            let p = img.get_pixel(x, y);
            out.put_pixel(x, y, p);
            x = x + 1;
        }
        y = y + 1;
    }
    // Overlay pass: crop, mirror and paste every region-table entry.
    let entries = paste_order();
    let mut k: usize = 0;
    while k < entries.len()
        invariant
            img@.wf(),
            out@.wf(),
            out@.width == w,
            out@.height == w,
            w == img@.width,
            h == img@.height,
            w == 2 * h,
            w <= usize::MAX / 64,
            entries@.len() == num_entries(),
            forall|m: int| 0 <= m < num_entries() ==> #[trigger] entries@[m] == entry_at(m),
            k <= num_entries(),
            forall|a: int, b: int|
                0 <= a < w && 0 <= b < w
                    ==> out@.pix(a, b) == paste_upto(img@, k as int, a, b),
        decreases entries@.len() - k,
    {
        let pair = entries[k];
        let l = pair.0;
        let f = pair.1;
        proof {
            lemma_entry_at_defined(k as int);
            lemma_table_geometry(l, f);
        }
        let sr = source_rect(l, f).unwrap();
        let dr = dest_rect(l, f).unwrap();
        let s = scale_rect(&sr, w);
        let d = scale_rect(&dr, w);
        proof {
            // the scaled source rectangle sits in the top half of the input
            lemma_scale_coord_top_half(sr.y1 as int, h as int);
            // the pasted patch stays inside the square canvas
            lemma_scale_sum_bound(dr.x0 as int, sr.x1 as int, sr.x0 as int, w as int);
            lemma_scale_sum_bound(dr.y0 as int, sr.y1 as int, sr.y0 as int, w as int);
        }
        let cropped = img.crop(&s);
        let flipped = cropped.mirror();
        out.overlay(&flipped, d.x0, d.y0);
        proof {
            let wi = w as int;
            assert forall|a: int, b: int| 0 <= a < w && 0 <= b < w
                implies out@.pix(a, b) == paste_upto(img@, k + 1, a, b) by {
                if covers(l, f, wi, a, b) {
                    let pi = a - dest_x(l, f, wi);
                    let pj = b - dest_y(l, f, wi);
                    assert(out@.pix(a, b) == flipped@.pix(pi, pj));
                    assert(flipped@.pix(pi, pj) == cropped@.pix(patch_w(l, f, wi) - 1 - pi, pj));
                    assert(cropped@.pix(patch_w(l, f, wi) - 1 - pi, pj)
                        == img@.pix(s.x0 + (patch_w(l, f, wi) - 1 - pi), s.y0 + pj));
                }
            }
        }
        k = k + 1;
    }
    Ok(out)
}

/// Base preservation, below any overlay: every pixel of the input survives
/// unchanged in the top-left copy, because every destination patch lies in
/// the lower half of the square output.
proof fn lemma_paste_upto_top(src: AtlasView, k: int, x: int, y: int)
    requires
        src.wf(),
        src.single_layer(),
        0 <= x < src.width,
        0 <= y < src.height,
        0 <= k <= num_entries(),
    ensures
        paste_upto(src, k, x, y) == src.pix(x, y),
    decreases k,
{
    if k > 0 {
        let e = entry_at(k - 1);
        lemma_entry_at_defined(k - 1);
        lemma_table_geometry(e.0, e.1);
        lemma_scale_coord_lower_half(spec_dest_rect(e.0, e.1).y0 as int, src.height as int);
        assert(!covers(e.0, e.1, src.width as int, x, y));
        lemma_paste_upto_top(src, k - 1, x, y);
    }
}

/// Base preservation: for every valid single-layer input, the top-left
/// `width x height` region of the converted output is pixel-identical to
/// the whole input.
pub proof fn lemma_base_preserved(src: AtlasView, x: int, y: int)
    requires
        src.wf(),
        src.single_layer(),
        0 <= x < src.width,
        0 <= y < src.height,
    ensures
        converted_pix(src, x, y) == src.pix(x, y),
{
    lemma_paste_upto_top(src, num_entries(), x, y);
}

/// Canonical destination rectangles of distinct region-table entries are
/// disjoint: they are separated along the x axis or along the y axis.
proof fn lemma_dest_rects_disjoint(l: Limb, f: SubFace, l2: Limb, f2: SubFace)
    requires
        face_defined(l, f),
        face_defined(l2, f2),
        !(l == l2 && f == f2),
    ensures
        ({
            let d = spec_dest_rect(l, f);
            let d2 = spec_dest_rect(l2, f2);
            d.x1 <= d2.x0 || d2.x1 <= d.x0 || d.y1 <= d2.y0 || d2.y1 <= d.y0
        }),
{
}

/// At a resolution that is an exact multiple of the canonical size, the
/// overlay patches of two distinct region-table entries never touch the
/// same output pixel: the destination rectangles are disjoint by
/// construction of the table, so the order of the overlay writes cannot
/// matter there.
pub proof fn lemma_covers_disjoint(w: int, l: Limb, f: SubFace, l2: Limb, f2: SubFace, x: int, y: int)
    requires
        0 <= w,
        w % 64 == 0,
        face_defined(l, f),
        face_defined(l2, f2),
        !(l == l2 && f == f2),
        covers(l, f, w, x, y),
    ensures
        !covers(l2, f2, w, x, y),
{
    let r = w / 64;
    lemma_fundamental_div_mod(w, 64);
    lemma_div_pos_is_pos(w, 64);
    lemma_table_geometry(l, f);
    lemma_table_geometry(l2, f2);
    lemma_dest_rects_disjoint(l, f, l2, f2);
    let s = spec_source_rect(l, f);
    let d = spec_dest_rect(l, f);
    let s2 = spec_source_rect(l2, f2);
    let d2 = spec_dest_rect(l2, f2);
    lemma_scale_coord_proportional(s.x0 as int, r);
    lemma_scale_coord_proportional(s.x1 as int, r);
    lemma_scale_coord_proportional(s.y0 as int, r);
    lemma_scale_coord_proportional(s.y1 as int, r);
    lemma_scale_coord_proportional(d.x0 as int, r);
    lemma_scale_coord_proportional(d.y0 as int, r);
    lemma_scale_coord_proportional(s2.x0 as int, r);
    lemma_scale_coord_proportional(s2.x1 as int, r);
    lemma_scale_coord_proportional(s2.y0 as int, r);
    lemma_scale_coord_proportional(s2.y1 as int, r);
    lemma_scale_coord_proportional(d2.x0 as int, r);
    lemma_scale_coord_proportional(d2.y0 as int, r);
    // the patch of each entry is exactly its scaled destination rectangle
    assert(dest_x(l, f, w) + patch_w(l, f, w) == d.x1 as int * r) by (nonlinear_arith)
        requires
            dest_x(l, f, w) == d.x0 as int * r,
            patch_w(l, f, w) == s.x1 as int * r - s.x0 as int * r,
            d.x1 == d.x0 + s.x1 - s.x0;
    assert(dest_y(l, f, w) + patch_h(l, f, w) == d.y1 as int * r) by (nonlinear_arith)
        requires
            dest_y(l, f, w) == d.y0 as int * r,
            patch_h(l, f, w) == s.y1 as int * r - s.y0 as int * r,
            d.y1 == d.y0 + s.y1 - s.y0;
    assert(dest_x(l2, f2, w) + patch_w(l2, f2, w) == d2.x1 as int * r) by (nonlinear_arith)
        requires
            dest_x(l2, f2, w) == d2.x0 as int * r,
            patch_w(l2, f2, w) == s2.x1 as int * r - s2.x0 as int * r,
            d2.x1 == d2.x0 + s2.x1 - s2.x0;
    assert(dest_y(l2, f2, w) + patch_h(l2, f2, w) == d2.y1 as int * r) by (nonlinear_arith)
        requires
            dest_y(l2, f2, w) == d2.y0 as int * r,
            patch_h(l2, f2, w) == s2.y1 as int * r - s2.y0 as int * r,
            d2.y1 == d2.y0 + s2.y1 - s2.y0;
    // a separating edge in canonical coordinates separates at scale r too
    if d.x1 <= d2.x0 {
        lemma_mul_inequality(d.x1 as int, d2.x0 as int, r);
    } else if d2.x1 <= d.x0 {
        lemma_mul_inequality(d2.x1 as int, d.x0 as int, r);
    } else if d.y1 <= d2.y0 {
        lemma_mul_inequality(d.y1 as int, d2.y0 as int, r);
    } else {
        lemma_mul_inequality(d2.y1 as int, d.y0 as int, r);
    }
}

/// After the entry at paste position `m` covers (x, y) and no later entry
/// does, the final output pixel is that entry's mirrored source pixel.
proof fn lemma_paste_upto_unique(src: AtlasView, m: int, k: int, x: int, y: int)
    requires
        0 <= m < k <= num_entries(),
        covers(entry_at(m).0, entry_at(m).1, src.width as int, x, y),
        forall|kk: int|
            #![trigger entry_at(kk)]
            m < kk < k ==> !covers(entry_at(kk).0, entry_at(kk).1, src.width as int, x, y),
    ensures
        paste_upto(src, k, x, y) == mirrored_pix(src, entry_at(m).0, entry_at(m).1, x, y),
    decreases k,
{
    if k > m + 1 {
        lemma_paste_upto_unique(src, m, k - 1, x, y);
    }
}

/// Mirror symmetry: at a resolution that is an exact integer multiple of
/// the canonical size, for every defined sub-face with scaled patch width
/// `n`, the output pixel at destination column `dest + (n - 1 - i)` equals
/// the input pixel at source column `src + i`, with rows preserved.
pub proof fn lemma_mirror_symmetry(src: AtlasView, l: Limb, f: SubFace, i: int, j: int)
    requires
        src.wf(),
        src.single_layer(),
        src.width % 64 == 0,
        face_defined(l, f),
        0 <= i < patch_w(l, f, src.width as int),
        0 <= j < patch_h(l, f, src.width as int),
    ensures
        converted_pix(
            src,
            dest_x(l, f, src.width as int) + (patch_w(l, f, src.width as int) - 1 - i),
            dest_y(l, f, src.width as int) + j,
        ) == src.pix(src_x(l, f, src.width as int) + i, src_y(l, f, src.width as int) + j),
{
    let w = src.width as int;
    let x = dest_x(l, f, w) + (patch_w(l, f, w) - 1 - i);
    let y = dest_y(l, f, w) + j;
    assert(covers(l, f, w, x, y));
    let m = entry_index(l, f);
    lemma_entry_index_at(l, f);
    assert forall|kk: int|
        #![trigger entry_at(kk)]
        m < kk < num_entries()
            implies !covers(entry_at(kk).0, entry_at(kk).1, w, x, y) by {
        lemma_entry_at_defined(kk);
        lemma_covers_disjoint(w, l, f, entry_at(kk).0, entry_at(kk).1, x, y);
    }
    lemma_paste_upto_unique(src, m, num_entries(), x, y);
}

/// Conversion is single-shot: a non-empty atlas that is already square
/// (the double-layer shape) is not single-layer, so conversion rejects it
/// with `InvalidLayout` instead of mirroring a second time.
pub proof fn lemma_double_layer_rejected(a: AtlasView)
    requires
        a.width == a.height,
        a.width > 0,
    ensures
        !a.single_layer(),
{
}

} // verus!
