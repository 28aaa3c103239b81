//! Skin texture variants.

use vstd::prelude::*;

verus! {

/// A skin texture is either the classic wide-arm variant or the slim one.
#[derive(Debug, Clone, Copy, PartialEq, Eq, Structural)]
pub enum SkinType {
    /// Default skin variant (Steve-style arms).
    Classic,
    /// Slim-arm skin variant (Alex-style arms).
    Slim,
}

} // verus!
