//! Thumbnail generator — produces small preview images for media assets.
//!
//! Thumbnail generation is not implemented yet; only the generator itself
//! can be created.

use vstd::prelude::*;

verus! {

/// Generates thumbnail images for media assets.
pub struct ThumbnailGenerator {
    _private: (),
}

impl ThumbnailGenerator {
    /// Create a new generator.
    pub fn new() -> Self {
        Self { _private: () }
    }
}

impl Default for ThumbnailGenerator {
    fn default() -> Self {
        Self::new()
    }
}

} // verus!
