//! Frame cache — a cache for decoded video frames, keyed by asset id and
//! frame index.
//!
//! Not implemented yet: only the cache itself, with its capacity, can be
//! created.

use vstd::prelude::*;

verus! {

/// A bounded cache for decoded RGBA video frames.
pub struct FrameCache {
    /// Maximum number of frames to keep in memory.
    capacity: usize,
}

impl FrameCache {
    /// The maximum number of frames the cache keeps.
    pub closed spec fn capacity(&self) -> usize {
        self.capacity
    }

    /// Create a new cache with the given `capacity` (number of frames).
    pub fn new(capacity: usize) -> (c: Self)
        ensures
            c.capacity() == capacity,
    {
        Self { capacity }
    }
}

} // verus!
