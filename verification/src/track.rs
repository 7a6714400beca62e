//! Track — a single row on the timeline (video or audio).
//!
//! Each track contains an ordered list of [`Clip`]s. Tracks can be muted
//! or locked to prevent accidental edits.

use vstd::prelude::*;

use crate::clip::Clip;
use crate::ids::{is_v4_layout, new_id};

verus! {

/// Discriminates between video and audio tracks.
#[derive(Debug, Clone, Copy, PartialEq, Eq, Structural)]
pub enum TrackType {
    /// Carries video frames (and optionally embedded audio).
    Video,
    /// Carries audio-only content.
    Audio,
}

/// A single timeline row containing ordered clips.
#[derive(Debug)]
pub struct Track {
    /// Unique identifier for this track.
    pub id: u128,
    /// Display name shown in the track header.
    pub name: String,
    /// Whether this track carries video or audio content.
    pub track_type: TrackType,
    /// Clips placed on this track, kept ordered by `timeline_start` by the
    /// editing commands that add, delete or move clips.
    pub clips: Vec<Clip>,
    /// When `true`, this track produces silence / black during playback.
    pub muted: bool,
    /// When `true`, edits to this track are blocked in the UI.
    pub locked: bool,
}

/// The mathematical value of a [`Track`].
#[verifier::ext_equal]
pub struct TrackView {
    pub id: u128,
    pub name: Seq<char>,
    pub track_type: TrackType,
    pub clips: Seq<Clip>,
    pub muted: bool,
    pub locked: bool,
}

impl View for Track {
    type V = TrackView;

    open spec fn view(&self) -> TrackView {
        TrackView {
            id: self.id,
            name: self.name@,
            track_type: self.track_type,
            clips: self.clips@,
            muted: self.muted,
            locked: self.locked,
        }
    }
}

impl Track {
    /// Create a new empty track of the given type, with a fresh random id.
    pub fn new(name: String, track_type: TrackType) -> (t: Track)
        ensures
            t@.name == name@,
            t@.track_type == track_type,
            t@.clips == Seq::<Clip>::empty(),
            !t@.muted,
            !t@.locked,
            is_v4_layout(t@.id),
    {
        Track {
            id: new_id(),
            name,
            track_type,
            clips: Vec::new(),
            muted: false,
            locked: false,
        }
    }
}

} // verus!
