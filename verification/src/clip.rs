//! Clip — a segment of a media asset placed on a timeline track.
//!
//! A [`Clip`] records both *where* it sits on the timeline
//! (`timeline_start` / `timeline_end`) and *which portion* of the source
//! asset it plays (`source_start` / `source_end`), enabling non-destructive
//! trimming.

use vstd::prelude::*;

verus! {

/// A trimmed region of a media asset placed at a specific position on a track.
///
/// All time values are in ticks (see [`crate::time::TICKS_PER_SECOND`]).
#[derive(Debug, Clone, Copy, PartialEq, Eq, Structural)]
pub struct Clip {
    /// Unique identifier for this clip instance.
    pub id: u128,
    /// The media asset this clip references (by asset id).
    pub asset_id: u128,
    /// The track this clip belongs to (by track id).
    pub track_id: u128,
    /// Start position on the timeline.
    pub timeline_start: i64,
    /// End position on the timeline.
    pub timeline_end: i64,
    /// Start position within the source file.
    pub source_start: i64,
    /// End position within the source file.
    pub source_end: i64,
}

impl Clip {
    /// Duration of this clip as it appears on the timeline.
    pub fn duration(&self) -> (d: i64)
        requires
            i64::MIN <= self.timeline_end - self.timeline_start <= i64::MAX,
        ensures
            d == self.timeline_end - self.timeline_start,
    {
        self.timeline_end - self.timeline_start
    }
}

} // verus!
