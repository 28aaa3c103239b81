//! Conversion of legacy single-layer Minecraft skin atlases into the modern
//! double-layer layout.
//!
//! A single-layer skin is twice as wide as it is high and carries only
//! right-side limb geometry.  Conversion allocates a fresh square atlas,
//! copies the input into its top-left corner, and synthesizes the missing
//! left-limb regions by cropping each right-limb sub-face, mirroring it
//! horizontally, and pasting it at the destination the region table gives.
//!
//! The geometry lives in [`regions`], the scaler in [`rect`], the pixel
//! buffer in [`atlas`], the engine in [`convert`], and the byte-level entry
//! point with the trusted image codec in [`codec`].

pub mod atlas;
pub mod codec;
pub mod convert;
pub mod rect;
pub mod regions;
pub mod skin;

pub use atlas::Atlas;
pub use codec::{single2double_bytes, OutputFormat};
pub use convert::{single2double_image, validate_single_layer, SkinError};
pub use skin::SkinType;
