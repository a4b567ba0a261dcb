//! Plain data shared with the renderers: images and symbol placeholders.
use vstd::prelude::*;

verus! {

/// A morph-shape symbol; morph shapes are not rendered yet and carry nothing.
pub struct GfxMorphShapeSymbol {}

/// Image metadata, format is always standard RGB with alpha (8 bits per channel).
pub struct ImageMetadata {
    /// Width in pixels
    pub width: usize,
    /// Height in pixels
    pub height: usize,
    /// Bytes per row (stride >= width * bytes_per_pixel)
    pub stride: usize,
}

/// Pixel rows of `meta.stride` bytes each, top row first.
pub struct Image {
    pub meta: ImageMetadata,
    pub data: Vec<u8>,
}

} // verus!
