//! The region table: canonical geometry of the limb sub-faces.
//!
//! Each defined (limb, sub-face) pair maps to a source rectangle on the
//! right-side limb of a single-layer skin and a destination rectangle on the
//! synthesized left-side limb of the double-layer layout, both expressed in
//! canonical 64x64 reference coordinates.  Legs have no separate top and
//! front sub-faces; they share a single combined top-front sub-face.

use vstd::prelude::*;

verus! {

use crate::rect::CanonRect;

/// A limb whose left side is synthesized from its right side.
#[derive(Debug, Clone, Copy, PartialEq, Eq, Structural)]
pub enum Limb {
    Arm,
    Leg,
}

/// One face of a limb's box geometry.
#[derive(Debug, Clone, Copy, PartialEq, Eq, Structural)]
pub enum SubFace {
    Outside,
    Top,
    Front,
    /// The combined top and front band used by legs.
    TopFront,
    Bottom,
    Inside,
    Back,
}

/// Whether the region table has an entry for this (limb, sub-face) pair.
pub open spec fn face_defined(l: Limb, f: SubFace) -> bool {
    match (l, f) {
        (Limb::Arm, SubFace::TopFront) => false,
        (Limb::Arm, _) => true,
        (Limb::Leg, SubFace::Top) => false,
        (Limb::Leg, SubFace::Front) => false,
        (Limb::Leg, _) => true,
    }
}

/// Canonical source rectangle on the right-side limb for a defined pair.
/// The result for undefined pairs is an arbitrary placeholder; callers gate
/// on `face_defined`.
pub open spec fn spec_source_rect(l: Limb, f: SubFace) -> CanonRect {
    match (l, f) {
        (Limb::Leg, SubFace::Outside) => CanonRect { x0: 0, y0: 20, x1: 4, y1: 32 },
        (Limb::Leg, SubFace::TopFront) => CanonRect { x0: 4, y0: 16, x1: 8, y1: 32 },
        (Limb::Leg, SubFace::Bottom) => CanonRect { x0: 8, y0: 16, x1: 12, y1: 20 },
        (Limb::Leg, SubFace::Inside) => CanonRect { x0: 8, y0: 20, x1: 12, y1: 32 },
        (Limb::Leg, SubFace::Back) => CanonRect { x0: 12, y0: 20, x1: 16, y1: 32 },
        (Limb::Arm, SubFace::Outside) => CanonRect { x0: 40, y0: 20, x1: 44, y1: 32 },
        (Limb::Arm, SubFace::Top) => CanonRect { x0: 44, y0: 16, x1: 48, y1: 20 },
        (Limb::Arm, SubFace::Front) => CanonRect { x0: 44, y0: 20, x1: 48, y1: 32 },
        (Limb::Arm, SubFace::Bottom) => CanonRect { x0: 48, y0: 16, x1: 52, y1: 20 },
        (Limb::Arm, SubFace::Inside) => CanonRect { x0: 48, y0: 20, x1: 52, y1: 32 },
        (Limb::Arm, SubFace::Back) => CanonRect { x0: 52, y0: 20, x1: 56, y1: 32 },
        _ => CanonRect { x0: 0, y0: 0, x1: 1, y1: 1 },
    }
}

/// Canonical destination rectangle on the synthesized left-side limb for a
/// defined pair.  Reflection swaps the face order, so for instance the arm's
/// inside face lands where a naive copy would put its outside face.
pub open spec fn spec_dest_rect(l: Limb, f: SubFace) -> CanonRect {
    match (l, f) {
        (Limb::Leg, SubFace::Outside) => CanonRect { x0: 24, y0: 52, x1: 28, y1: 64 },
        (Limb::Leg, SubFace::TopFront) => CanonRect { x0: 20, y0: 48, x1: 24, y1: 64 },
        (Limb::Leg, SubFace::Bottom) => CanonRect { x0: 24, y0: 48, x1: 28, y1: 52 },
        (Limb::Leg, SubFace::Inside) => CanonRect { x0: 16, y0: 52, x1: 20, y1: 64 },
        (Limb::Leg, SubFace::Back) => CanonRect { x0: 28, y0: 52, x1: 32, y1: 64 },
        (Limb::Arm, SubFace::Outside) => CanonRect { x0: 40, y0: 52, x1: 44, y1: 64 },
        (Limb::Arm, SubFace::Top) => CanonRect { x0: 36, y0: 48, x1: 40, y1: 52 },
        (Limb::Arm, SubFace::Front) => CanonRect { x0: 36, y0: 52, x1: 40, y1: 64 },
        (Limb::Arm, SubFace::Bottom) => CanonRect { x0: 40, y0: 48, x1: 44, y1: 52 },
        (Limb::Arm, SubFace::Inside) => CanonRect { x0: 32, y0: 52, x1: 36, y1: 64 },
        (Limb::Arm, SubFace::Back) => CanonRect { x0: 44, y0: 52, x1: 48, y1: 64 },
        _ => CanonRect { x0: 0, y0: 0, x1: 1, y1: 1 },
    }
}

/// Geometry facts that hold for every defined pair: both rectangles are
/// valid, the source sits in the top half of a single-layer atlas, the
/// destination starts in the lower overlay band, the destination fits the
/// source extent, and source and destination have identical size.
pub proof fn lemma_table_geometry(l: Limb, f: SubFace)
    requires
        face_defined(l, f),
    ensures
        ({
            let s = spec_source_rect(l, f);
            let d = spec_dest_rect(l, f);
            s.valid() && d.valid() && s.y1 <= 32 && d.y0 >= 48
                && d.x0 + s.x1 - s.x0 <= 64 && d.y0 + s.y1 - s.y0 <= 64
                && d.width() == s.width() && d.height() == s.height()
        }),
{
}

/// Look up the canonical source rectangle for a (limb, sub-face) pair.
pub fn source_rect(l: Limb, f: SubFace) -> (r: Option<CanonRect>)
    ensures
        face_defined(l, f) ==> r == Some(spec_source_rect(l, f)),
        !face_defined(l, f) ==> r is None,
{
    match (l, f) {
        (Limb::Leg, SubFace::Outside) => Some(CanonRect { x0: 0, y0: 20, x1: 4, y1: 32 }),
        (Limb::Leg, SubFace::TopFront) => Some(CanonRect { x0: 4, y0: 16, x1: 8, y1: 32 }),
        (Limb::Leg, SubFace::Bottom) => Some(CanonRect { x0: 8, y0: 16, x1: 12, y1: 20 }),
        (Limb::Leg, SubFace::Inside) => Some(CanonRect { x0: 8, y0: 20, x1: 12, y1: 32 }),
        (Limb::Leg, SubFace::Back) => Some(CanonRect { x0: 12, y0: 20, x1: 16, y1: 32 }),
        (Limb::Arm, SubFace::Outside) => Some(CanonRect { x0: 40, y0: 20, x1: 44, y1: 32 }),
        (Limb::Arm, SubFace::Top) => Some(CanonRect { x0: 44, y0: 16, x1: 48, y1: 20 }),
        (Limb::Arm, SubFace::Front) => Some(CanonRect { x0: 44, y0: 20, x1: 48, y1: 32 }),
        (Limb::Arm, SubFace::Bottom) => Some(CanonRect { x0: 48, y0: 16, x1: 52, y1: 20 }),
        (Limb::Arm, SubFace::Inside) => Some(CanonRect { x0: 48, y0: 20, x1: 52, y1: 32 }),
        (Limb::Arm, SubFace::Back) => Some(CanonRect { x0: 52, y0: 20, x1: 56, y1: 32 }),
        _ => None,
    }
}

/// Look up the canonical destination rectangle for a (limb, sub-face) pair.
pub fn dest_rect(l: Limb, f: SubFace) -> (r: Option<CanonRect>)
    ensures
        face_defined(l, f) ==> r == Some(spec_dest_rect(l, f)),
        !face_defined(l, f) ==> r is None,
{
    match (l, f) {
        (Limb::Leg, SubFace::Outside) => Some(CanonRect { x0: 24, y0: 52, x1: 28, y1: 64 }),
        (Limb::Leg, SubFace::TopFront) => Some(CanonRect { x0: 20, y0: 48, x1: 24, y1: 64 }),
        (Limb::Leg, SubFace::Bottom) => Some(CanonRect { x0: 24, y0: 48, x1: 28, y1: 52 }),
        (Limb::Leg, SubFace::Inside) => Some(CanonRect { x0: 16, y0: 52, x1: 20, y1: 64 }),
        (Limb::Leg, SubFace::Back) => Some(CanonRect { x0: 28, y0: 52, x1: 32, y1: 64 }),
        (Limb::Arm, SubFace::Outside) => Some(CanonRect { x0: 40, y0: 52, x1: 44, y1: 64 }),
        (Limb::Arm, SubFace::Top) => Some(CanonRect { x0: 36, y0: 48, x1: 40, y1: 52 }),
        (Limb::Arm, SubFace::Front) => Some(CanonRect { x0: 36, y0: 52, x1: 40, y1: 64 }),
        (Limb::Arm, SubFace::Bottom) => Some(CanonRect { x0: 40, y0: 48, x1: 44, y1: 52 }),
        (Limb::Arm, SubFace::Inside) => Some(CanonRect { x0: 32, y0: 52, x1: 36, y1: 64 }),
        (Limb::Arm, SubFace::Back) => Some(CanonRect { x0: 44, y0: 52, x1: 48, y1: 64 }),
        _ => None,
    }
}

/// Number of entries in the region table: six arm sub-faces and five leg
/// sub-faces.
pub open spec fn num_entries() -> int {
    11
}

/// The paste order of the conversion engine: arm sub-faces first, then leg
/// sub-faces, each in the order the overlays are composited.
pub open spec fn entry_at(k: int) -> (Limb, SubFace) {
    if k == 0 {
        (Limb::Arm, SubFace::Outside)
    } else if k == 1 {
        (Limb::Arm, SubFace::Top)
    } else if k == 2 {
        (Limb::Arm, SubFace::Front)
    } else if k == 3 {
        (Limb::Arm, SubFace::Bottom)
    } else if k == 4 {
        (Limb::Arm, SubFace::Inside)
    } else if k == 5 {
        (Limb::Arm, SubFace::Back)
    } else if k == 6 {
        (Limb::Leg, SubFace::TopFront)
    } else if k == 7 {
        (Limb::Leg, SubFace::Bottom)
    } else if k == 8 {
        (Limb::Leg, SubFace::Inside)
    } else if k == 9 {
        (Limb::Leg, SubFace::Back)
    } else {
        (Limb::Leg, SubFace::Outside)
    }
}

/// Position of a defined pair in the paste order.
pub open spec fn entry_index(l: Limb, f: SubFace) -> int {
    match (l, f) {
        (Limb::Arm, SubFace::Outside) => 0,
        (Limb::Arm, SubFace::Top) => 1,
        (Limb::Arm, SubFace::Front) => 2,
        (Limb::Arm, SubFace::Bottom) => 3,
        (Limb::Arm, SubFace::Inside) => 4,
        (Limb::Arm, SubFace::Back) => 5,
        (Limb::Leg, SubFace::TopFront) => 6,
        (Limb::Leg, SubFace::Bottom) => 7,
        (Limb::Leg, SubFace::Inside) => 8,
        (Limb::Leg, SubFace::Back) => 9,
        _ => 10,
    }
}

/// Every paste-order position holds a defined pair, and `entry_index`
/// inverts `entry_at`.
pub proof fn lemma_entry_at_defined(k: int)
    requires
        0 <= k < num_entries(),
    ensures
        face_defined(entry_at(k).0, entry_at(k).1),
        entry_index(entry_at(k).0, entry_at(k).1) == k,
{
}

/// `entry_at` inverts `entry_index` on defined pairs.
pub proof fn lemma_entry_index_at(l: Limb, f: SubFace)
    requires
        face_defined(l, f),
    ensures
        0 <= entry_index(l, f) < num_entries(),
        entry_at(entry_index(l, f)) == (l, f),
{
}

/// The region table's entries in paste order.
pub fn paste_order() -> (r: Vec<(Limb, SubFace)>)
    ensures
        r@.len() == num_entries(),
        forall|k: int| 0 <= k < num_entries() ==> #[trigger] r@[k] == entry_at(k),
{
    let mut v: Vec<(Limb, SubFace)> = Vec::new();
    v.push((Limb::Arm, SubFace::Outside));
    v.push((Limb::Arm, SubFace::Top));
    v.push((Limb::Arm, SubFace::Front));
    v.push((Limb::Arm, SubFace::Bottom));
    v.push((Limb::Arm, SubFace::Inside));
    v.push((Limb::Arm, SubFace::Back));
    v.push((Limb::Leg, SubFace::TopFront));
    v.push((Limb::Leg, SubFace::Bottom));
    v.push((Limb::Leg, SubFace::Inside));
    v.push((Limb::Leg, SubFace::Back));
    v.push((Limb::Leg, SubFace::Outside));
    v
}

} // verus!
