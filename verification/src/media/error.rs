//! Errors of the media layer.

use vstd::prelude::*;

verus! {

/// Why a media operation failed.
#[derive(Debug, Clone, Copy, PartialEq, Eq, Structural)]
pub enum MediaError {
    /// An export was asked for a timeline without clips.
    EmptyTimeline,
    /// ffmpeg produced no frame data.
    NoFrameData,
    /// The frame data is not a whole number of rows of the requested width.
    FrameLengthMismatch { len: usize, stride: usize, width: u32 },
}

} // verus!
