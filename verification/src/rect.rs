//! Rectangles in the two coordinate systems of a skin atlas: canonical
//! coordinates, expressed against the 64x64 reference layout, and scaled
//! coordinates, expressed against a concrete input resolution.
//!
//! A canonical rectangle must be scaled before it can be used against a real
//! pixel buffer.  Scaling truncates (`floor(c * width / 64)`), so that
//! canonical rectangles sharing an edge still share it after scaling.

use vstd::prelude::*;

verus! {

use vstd::arithmetic::div_mod::{
    lemma_div_is_ordered,
    lemma_div_multiples_vanish,
    lemma_fundamental_div_mod,
    lemma_mod_bound,
};
use vstd::arithmetic::mul::lemma_mul_inequality;

/// An axis-aligned rectangle in canonical reference coordinates, half-open
/// on its high edges: the pixel columns are `x0..x1` and the rows `y0..y1`.
#[derive(Debug, Clone, Copy, PartialEq, Eq, Structural)]
pub struct CanonRect {
    pub x0: usize,
    pub y0: usize,
    pub x1: usize,
    pub y1: usize,
}

impl CanonRect {
    /// A canonical rectangle is non-empty and lies inside the reference atlas.
    pub open spec fn valid(self) -> bool {
        self.x0 < self.x1 <= 64 && self.y0 < self.y1 <= 64
    }

    pub open spec fn width(self) -> int {
        self.x1 - self.x0
    }

    pub open spec fn height(self) -> int {
        self.y1 - self.y0
    }
}

/// An axis-aligned rectangle in the pixel space of a concrete atlas,
/// half-open on its high edges.  Truncated scaling can collapse a rectangle
/// to an empty one, so only `x0 <= x1` and `y0 <= y1` hold here.
#[derive(Debug, Clone, Copy, PartialEq, Eq, Structural)]
pub struct ScaledRect {
    pub x0: usize,
    pub y0: usize,
    pub x1: usize,
    pub y1: usize,
}

impl ScaledRect {
    pub open spec fn width(self) -> int {
        self.x1 - self.x0
    }

    pub open spec fn height(self) -> int {
        self.y1 - self.y0
    }
}

/// One canonical coordinate mapped to an atlas `w` pixels wide: the exact
/// rational `c * w / 64`, truncated.
pub open spec fn scale_coord(c: int, w: int) -> int {
    (c * w) / 64
}

/// Scaled coordinates are monotone in the canonical coordinate.
pub proof fn lemma_scale_coord_ordered(c0: int, c1: int, w: int)
    requires
        c0 <= c1,
        0 <= w,
    ensures
        scale_coord(c0, w) <= scale_coord(c1, w),
{
    lemma_mul_inequality(c0, c1, w);
    lemma_div_is_ordered(c0 * w, c1 * w, 64);
}

/// A canonical coordinate of at most 64 never scales past the atlas width.
pub proof fn lemma_scale_coord_le_width(c: int, w: int)
    requires
        0 <= c <= 64,
        0 <= w,
    ensures
        0 <= scale_coord(c, w) <= w,
{
    lemma_mul_inequality(c, 64, w);
    lemma_div_is_ordered(c * w, 64 * w, 64);
    lemma_div_multiples_vanish(w, 64);
    lemma_mul_inequality(0, c, w);
    lemma_div_is_ordered(0, c * w, 64);
}

/// A canonical coordinate in the top half (at most 32) scales to at most the
/// height of a single-layer atlas of width `2 * h`.
pub proof fn lemma_scale_coord_top_half(c: int, h: int)
    requires
        0 <= c <= 32,
        0 <= h,
    ensures
        scale_coord(c, 2 * h) <= h,
{
    lemma_mul_inequality(c, 32, 2 * h);
    assert(32 * (2 * h) == 64 * h) by (nonlinear_arith);
    lemma_div_is_ordered(c * (2 * h), 64 * h, 64);
    lemma_div_multiples_vanish(h, 64);
}

/// A canonical coordinate in the lower overlay band (at least 48) scales to
/// at least the height of a single-layer atlas of width `2 * h`.
pub proof fn lemma_scale_coord_lower_half(c: int, h: int)
    requires
        48 <= c,
        0 <= h,
    ensures
        h <= scale_coord(c, 2 * h),
{
    lemma_mul_inequality(48, c, 2 * h);
    assert(48 * (2 * h) >= 64 * h) by (nonlinear_arith)
        requires 0 <= h;
    lemma_div_is_ordered(64 * h, c * (2 * h), 64);
    lemma_div_multiples_vanish(h, 64);
}

/// A destination origin plus a source extent stays inside the atlas: if the
/// canonical sum `a + (b - c)` fits in the reference atlas, the scaled sum
/// fits in an atlas of width `w`.
pub proof fn lemma_scale_sum_bound(a: int, b: int, c: int, w: int)
    requires
        0 <= a,
        0 <= c <= b,
        a + b - c <= 64,
        0 <= w,
    ensures
        scale_coord(a, w) + (scale_coord(b, w) - scale_coord(c, w)) <= w,
{
    let qa = (a * w) / 64;
    let qb = (b * w) / 64;
    let qc = (c * w) / 64;
    lemma_fundamental_div_mod(a * w, 64);
    lemma_fundamental_div_mod(b * w, 64);
    lemma_fundamental_div_mod(c * w, 64);
    lemma_mod_bound(a * w, 64);
    lemma_mod_bound(b * w, 64);
    lemma_mod_bound(c * w, 64);
    assert(a * w + b * w - c * w == (a + b - c) * w) by (nonlinear_arith);
    lemma_mul_inequality(a + b - c, 64, w);
    assert(64 * (qa + qb - qc) <= 64 * w + 63);
}

/// Map a canonical rectangle to the coordinate space of an atlas `width`
/// pixels wide, truncating each coordinate.  Truncation, rather than
/// rounding, keeps canonical rectangles that share an edge sharing it after
/// scaling.
pub fn scale_rect(r: &CanonRect, width: usize) -> (s: ScaledRect)
    requires
        r.valid(),
        width <= usize::MAX / 64,
    ensures
        s.x0 == scale_coord(r.x0 as int, width as int),
        s.y0 == scale_coord(r.y0 as int, width as int),
        s.x1 == scale_coord(r.x1 as int, width as int),
        s.y1 == scale_coord(r.y1 as int, width as int),
        s.x0 <= s.x1 <= width,
        s.y0 <= s.y1 <= width,
{
    proof {
        lemma_fundamental_div_mod(usize::MAX as int, 64);
        lemma_mod_bound(usize::MAX as int, 64);
        lemma_mul_inequality(r.x0 as int, 64, width as int);
        lemma_mul_inequality(r.y0 as int, 64, width as int);
        lemma_mul_inequality(r.x1 as int, 64, width as int);
        lemma_mul_inequality(r.y1 as int, 64, width as int);
        lemma_scale_coord_ordered(r.x0 as int, r.x1 as int, width as int);
        lemma_scale_coord_ordered(r.y0 as int, r.y1 as int, width as int);
        lemma_scale_coord_le_width(r.x1 as int, width as int);
        lemma_scale_coord_le_width(r.y1 as int, width as int);
    }
    ScaledRect {
        x0: (r.x0 * width) / 64,
        y0: (r.y0 * width) / 64,
        x1: (r.x1 * width) / 64,
        y1: (r.y1 * width) / 64,
    }
}

/// Scaling proportionality: at a resolution that is an exact integer
/// multiple `k` of the canonical size, every coordinate scales to exactly
/// `k` times itself, so a scaled rectangle's width and height are exactly
/// `k` times the canonical ones.
pub proof fn lemma_scale_coord_proportional(c: int, k: int)
    requires
        0 <= c,
        0 <= k,
    ensures
        scale_coord(c, 64 * k) == c * k,
{
    assert(c * (64 * k) == 64 * (c * k)) by (nonlinear_arith);
    lemma_div_multiples_vanish(c * k, 64);
}

/// Scaling proportionality for a whole rectangle: at width `64 * k` the
/// scaled width and height are `k` times the canonical width and height.
pub proof fn lemma_scale_rect_proportional(r: CanonRect, k: int)
    requires
        r.valid(),
        0 <= k,
    ensures
        scale_coord(r.x1 as int, 64 * k) - scale_coord(r.x0 as int, 64 * k) == k * r.width(),
        scale_coord(r.y1 as int, 64 * k) - scale_coord(r.y0 as int, 64 * k) == k * r.height(),
{
    lemma_scale_coord_proportional(r.x0 as int, k);
    lemma_scale_coord_proportional(r.x1 as int, k);
    lemma_scale_coord_proportional(r.y0 as int, k);
    lemma_scale_coord_proportional(r.y1 as int, k);
    assert(r.x1 as int * k - r.x0 as int * k == k * (r.x1 - r.x0)) by (nonlinear_arith);
    assert(r.y1 as int * k - r.y0 as int * k == k * (r.y1 - r.y0)) by (nonlinear_arith);
}

} // verus!
