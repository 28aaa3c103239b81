//! The pixel buffer a skin lives in.
//!
//! An `Atlas` owns a flat RGBA buffer, four bytes per pixel, row-major.  Its
//! mathematical view is an `AtlasView`: unbounded dimensions over a byte
//! sequence, with `pix` reading one pixel as a four-byte tuple.  Crops are
//! always independent copies, never aliases of the source buffer.

use vstd::prelude::*;

verus! {

use vstd::arithmetic::mul::{lemma_mul_inequality, lemma_mul_nonnegative};
use vstd::pervasive::VecAdditionalExecFns;
use crate::rect::ScaledRect;

/// One RGBA pixel: red, green, blue, alpha.
pub type Pixel = (u8, u8, u8, u8);

/// The mathematical model of an atlas: its dimensions and its raw bytes.
pub struct AtlasView {
    pub width: nat,
    pub height: nat,
    pub data: Seq<u8>,
}

impl AtlasView {
    /// Well-formed: the buffer holds exactly four bytes per pixel, and the
    /// dimensions fit the 32-bit range image containers use.
    pub open spec fn wf(self) -> bool {
        self.data.len() == 4 * self.width * self.height
            && self.width <= u32::MAX
            && self.height <= u32::MAX
    }

    pub open spec fn in_bounds(self, x: int, y: int) -> bool {
        0 <= x < self.width && 0 <= y < self.height
    }

    /// Byte offset of the pixel at column `x`, row `y`.
    pub open spec fn offset(self, x: int, y: int) -> int {
        4 * (y * self.width + x)
    }

    /// The pixel at column `x`, row `y`.
    pub open spec fn pix(self, x: int, y: int) -> Pixel {
        (
            self.data[self.offset(x, y)],
            self.data[self.offset(x, y) + 1],
            self.data[self.offset(x, y) + 2],
            self.data[self.offset(x, y) + 3],
        )
    }

    /// A single-layer (legacy) skin is twice as wide as it is high.
    pub open spec fn single_layer(self) -> bool {
        self.width == 2 * self.height
    }
}

/// An owned RGBA pixel buffer.
pub struct Atlas {
    pub width: usize,
    pub height: usize,
    pub data: Vec<u8>,
}

impl View for Atlas {
    type V = AtlasView;

    open spec fn view(&self) -> AtlasView {
        AtlasView { width: self.width as nat, height: self.height as nat, data: self.data@ }
    }
}

/// A pixel offset is within the buffer: pixel (x, y) of a well-formed atlas
/// occupies bytes `offset .. offset + 4`.
pub proof fn lemma_offset_in_bounds(a: AtlasView, x: int, y: int)
    requires
        a.wf(),
        a.in_bounds(x, y),
    ensures
        0 <= a.offset(x, y),
        a.offset(x, y) + 4 <= a.data.len(),
{
    lemma_mul_nonnegative(y, a.width as int);
    lemma_mul_inequality(y + 1, a.height as int, a.width as int);
    assert((y + 1) * a.width == y * a.width + a.width) by (nonlinear_arith);
    assert(4 * (a.height as int * a.width as int) == 4 * a.width * a.height) by (nonlinear_arith);
}

/// Two distinct in-bounds pixels have disjoint byte ranges.
pub proof fn lemma_offset_injective(a: AtlasView, x: int, y: int, i: int, j: int)
    requires
        a.wf(),
        a.in_bounds(x, y),
        a.in_bounds(i, j),
        !(i == x && j == y),
    ensures
        a.offset(i, j) + 4 <= a.offset(x, y) || a.offset(x, y) + 4 <= a.offset(i, j),
{
    let w = a.width as int;
    if j == y {
        assert(4 * (j * w + i) + 4 <= 4 * (y * w + x) || 4 * (y * w + x) + 4 <= 4 * (j * w + i));
    } else if j < y {
        assert(j * w + i + 1 <= y * w + x) by (nonlinear_arith)
            requires j < y, 0 <= i < w, 0 <= x;
    } else {
        assert(y * w + x + 1 <= j * w + i) by (nonlinear_arith)
            requires y < j, 0 <= x < w, 0 <= i;
    }
}

impl Atlas {
    /// A freshly allocated atlas of the given dimensions, all bytes zero
    /// (every pixel transparent black).
    pub fn new(width: usize, height: usize) -> (a: Atlas)
        requires
            width <= u32::MAX,
            height <= u32::MAX,
            4 * width * height <= usize::MAX,
        ensures
            a@.wf(),
            a@.width == width,
            a@.height == height,
            forall|i: int| 0 <= i < a@.data.len() ==> a@.data[i] == 0u8,
    {
        proof {
            lemma_mul_nonnegative(width as int, height as int);
            assert(width * height <= 4 * width * height && 4 * (width as int * height as int)
                == 4 * width * height) by (nonlinear_arith)
                requires 0 <= width, 0 <= height;
        }
        let n: usize = width * height;
        let total: usize = 4 * n;
        let mut data: Vec<u8> = Vec::new();
        while data.len() < total
            invariant
                data@.len() <= total,
                forall|i: int| 0 <= i < data@.len() ==> data@[i] == 0u8,
            decreases total - data@.len(),
        {
            data.push(0u8);
        }
        Atlas { width, height, data }
    }

    /// Read the pixel at column `x`, row `y`.
    pub fn get_pixel(&self, x: usize, y: usize) -> (p: Pixel)
        requires
            self@.wf(),
            x < self@.width,
            y < self@.height,
        ensures
            p == self@.pix(x as int, y as int),
    {
        proof {
            lemma_offset_in_bounds(self@, x as int, y as int);
        }
        let len: usize = self.data.len();
        let off: usize = 4 * (y * self.width + x);
        (self.data[off], self.data[off + 1], self.data[off + 2], self.data[off + 3])
    }

    /// Write the pixel at column `x`, row `y`, leaving every other pixel
    /// unchanged.
    pub fn put_pixel(&mut self, x: usize, y: usize, p: Pixel)
        requires
            old(self)@.wf(),
            x < old(self)@.width,
            y < old(self)@.height,
        ensures
            final(self)@.wf(),
            final(self)@.width == old(self)@.width,
            final(self)@.height == old(self)@.height,
            final(self)@.pix(x as int, y as int) == p,
            forall|i: int, j: int|
                old(self)@.in_bounds(i, j) && !(i == x && j == y)
                    ==> final(self)@.pix(i, j) == old(self)@.pix(i, j),
    {
        proof {
            lemma_offset_in_bounds(self@, x as int, y as int);
        }
        let len: usize = self.data.len();
        let off: usize = 4 * (y * self.width + x);
        self.data.set(off, p.0);
        self.data.set(off + 1, p.1);
        self.data.set(off + 2, p.2);
        self.data.set(off + 3, p.3);
        proof {
            assert forall|i: int, j: int|
                old(self)@.in_bounds(i, j) && !(i == x && j == y)
                    implies self@.pix(i, j) == old(self)@.pix(i, j) by {
                lemma_offset_in_bounds(old(self)@, i, j);
                lemma_offset_injective(old(self)@, x as int, y as int, i, j);
            }
        }
    }

    /// Copy the sub-rectangle `r` of this atlas into a fresh, independently
    /// owned patch; the source atlas is never written.
    pub fn crop(&self, r: &ScaledRect) -> (out: Atlas)
        requires
            self@.wf(),
            r.x0 <= r.x1 <= self@.width,
            r.y0 <= r.y1 <= self@.height,
        ensures
            out@.wf(),
            out@.width == r.width(),
            out@.height == r.height(),
            forall|i: int, j: int|
                0 <= i < r.width() && 0 <= j < r.height()
                    ==> out@.pix(i, j) == self@.pix(r.x0 + i, r.y0 + j),
    {
        let pw: usize = r.x1 - r.x0;
        let ph: usize = r.y1 - r.y0;
        let len: usize = self.data.len();
        proof {
            assert(4 * pw as int * ph as int <= 4 * self@.width as int * self@.height as int)
                by (nonlinear_arith)
                requires 0 <= pw <= self@.width, 0 <= ph <= self@.height;
        }
        let mut out = Atlas::new(pw, ph);
        let mut j: usize = 0;
        while j < ph
            invariant
                self@.wf(),
                out@.wf(),
                out@.width == pw,
                out@.height == ph,
                r.x0 + pw <= self@.width,
                r.y0 + ph <= self@.height,
                j <= ph,
                forall|a: int, b: int|
                    0 <= a < pw && 0 <= b < j
                        ==> out@.pix(a, b) == self@.pix(r.x0 + a, r.y0 + b),
            decreases ph - j,
        {
            let mut i: usize = 0;
            while i < pw
                invariant
                    self@.wf(),
                    out@.wf(),
                    out@.width == pw,
                    out@.height == ph,
                    r.x0 + pw <= self@.width,
                    r.y0 + ph <= self@.height,
                    i <= pw,
                    j < ph,
                    forall|a: int, b: int|
                        0 <= a < pw && 0 <= b < j
                            ==> out@.pix(a, b) == self@.pix(r.x0 + a, r.y0 + b),
                    forall|a: int| 0 <= a < i ==> out@.pix(a, j as int) == self@.pix(r.x0 + a, r.y0 + j),
                decreases pw - i,
            {
                let p = self.get_pixel(r.x0 + i, r.y0 + j);
                out.put_pixel(i, j, p);
                i = i + 1;
            }
            j = j + 1;
        }
        out
    }

    /// A horizontally mirrored copy of this atlas: column order reversed,
    /// row order unchanged.
    pub fn mirror(&self) -> (out: Atlas)
        requires
            self@.wf(),
        ensures
            out@.wf(),
            out@.width == self@.width,
            out@.height == self@.height,
            forall|i: int, j: int|
                self@.in_bounds(i, j)
                    ==> out@.pix(i, j) == self@.pix(self@.width - 1 - i, j),
    {
        let w: usize = self.width;
        let h: usize = self.height;
        let len: usize = self.data.len();
        let mut out = Atlas::new(w, h);
        let mut j: usize = 0;
        while j < h
            invariant
                self@.wf(),
                out@.wf(),
                out@.width == w,
                out@.height == h,
                w == self@.width,
                h == self@.height,
                j <= h,
                forall|a: int, b: int|
                    0 <= a < w && 0 <= b < j ==> out@.pix(a, b) == self@.pix(w - 1 - a, b),
            decreases h - j,
        {
            let mut i: usize = 0;
            while i < w
                invariant
                    self@.wf(),
                    out@.wf(),
                    out@.width == w,
                    out@.height == h,
                    w == self@.width,
                    h == self@.height,
                    i <= w,
                    j < h,
                    forall|a: int, b: int|
                        0 <= a < w && 0 <= b < j ==> out@.pix(a, b) == self@.pix(w - 1 - a, b),
                    forall|a: int| 0 <= a < i ==> out@.pix(a, j as int) == self@.pix(w - 1 - a, j as int),
                decreases w - i,
            {
                let p = self.get_pixel(w - 1 - i, j);
                out.put_pixel(i, j, p);
                i = i + 1;
            }
            j = j + 1;
        }
        out
    }

    /// Write `patch` over this atlas with its top-left corner at `(x, y)`,
    /// fully replacing the pixels underneath; pixels outside the patch
    /// rectangle are unchanged.
    pub fn overlay(&mut self, patch: &Atlas, x: usize, y: usize)
        requires
            old(self)@.wf(),
            patch@.wf(),
            x + patch@.width <= old(self)@.width,
            y + patch@.height <= old(self)@.height,
        ensures
            final(self)@.wf(),
            final(self)@.width == old(self)@.width,
            final(self)@.height == old(self)@.height,
            forall|i: int, j: int|
                0 <= i < patch@.width && 0 <= j < patch@.height
                    ==> final(self)@.pix(x + i, y + j) == patch@.pix(i, j),
            forall|i: int, j: int|
                old(self)@.in_bounds(i, j)
                    && !(x <= i < x + patch@.width && y <= j < y + patch@.height)
                    ==> final(self)@.pix(i, j) == old(self)@.pix(i, j),
    {
        let pw: usize = patch.width;
        let ph: usize = patch.height;
        let mut j: usize = 0;
        while j < ph
            invariant
                self@.wf(),
                patch@.wf(),
                self@.width == old(self)@.width,
                self@.height == old(self)@.height,
                pw == patch@.width,
                ph == patch@.height,
                x + pw <= self@.width,
                y + ph <= self@.height,
                j <= ph,
                forall|a: int, b: int|
                    0 <= a < pw && 0 <= b < j ==> self@.pix(x + a, y + b) == patch@.pix(a, b),
                forall|a: int, b: int|
                    old(self)@.in_bounds(a, b) && !(x <= a < x + pw && y <= b < y + j)
                        ==> self@.pix(a, b) == old(self)@.pix(a, b),
            decreases ph - j,
        {
            let mut i: usize = 0;
            while i < pw
                invariant
                    self@.wf(),
                    patch@.wf(),
                    self@.width == old(self)@.width,
                    self@.height == old(self)@.height,
                    pw == patch@.width,
                    ph == patch@.height,
                    x + pw <= self@.width,
                    y + ph <= self@.height,
                    i <= pw,
                    j < ph,
                    forall|a: int, b: int|
                        0 <= a < pw && 0 <= b < j ==> self@.pix(x + a, y + b) == patch@.pix(a, b),
                    forall|a: int| 0 <= a < i ==> self@.pix(x + a, y + j) == patch@.pix(a, j as int),
                    forall|a: int, b: int|
                        old(self)@.in_bounds(a, b)
                            && !(x <= a < x + pw && y <= b < y + j)
                            && !(x <= a < x + i && b == y + j)
                            ==> self@.pix(a, b) == old(self)@.pix(a, b),
                decreases pw - i,
            {
                let p = patch.get_pixel(i, j);
                self.put_pixel(x + i, y + j, p);
                i = i + 1;
            }
            j = j + 1;
        }
    }
}

} // verus!
