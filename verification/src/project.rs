//! Project — top-level container for a VidCut editing session.
//!
//! A [`Project`] holds all tracks, clips, and media assets.  It is written
//! to and read from a `.vidcut` JSON file by the application.

use vstd::prelude::*;

use crate::media_asset::{MediaAsset, MediaAssetView};
use crate::timeline::{Timeline, TimelineView};
use crate::track::TrackView;

verus! {

/// Output settings for a VidCut project (resolution, frame-rate, audio).
#[derive(Debug, Clone, Copy, PartialEq, Eq, Structural)]
pub struct ProjectSettings {
    /// Output frame-rate (frames per second). Default: 30.
    pub fps: u32,
    /// Output width in pixels. Default: 1920.
    pub width: u32,
    /// Output height in pixels. Default: 1080.
    pub height: u32,
    /// Audio sample rate in Hz. Default: 48 000.
    pub sample_rate: u32,
}

impl Default for ProjectSettings {
    fn default() -> (s: Self)
        ensures
            s.fps == 30,
            s.width == 1920,
            s.height == 1080,
            s.sample_rate == 48_000,
    {
        Self { fps: 30, width: 1920, height: 1080, sample_rate: 48_000 }
    }
}

/// A VidCut project: the root of the editing session.
#[derive(Debug)]
pub struct Project {
    /// Human-readable project name.
    pub name: String,
    /// Output / composition settings.
    pub settings: ProjectSettings,
    /// The master timeline containing all tracks and clips.
    pub timeline: Timeline,
    /// Media pool: all assets imported into this project.
    pub media_pool: Vec<MediaAsset>,
}

/// The mathematical value of a [`Project`].
#[verifier::ext_equal]
pub struct ProjectView {
    pub name: Seq<char>,
    pub settings: ProjectSettings,
    pub timeline: TimelineView,
    pub media_pool: Seq<MediaAssetView>,
}

impl View for Project {
    type V = ProjectView;

    open spec fn view(&self) -> ProjectView {
        ProjectView {
            name: self.name@,
            settings: self.settings,
            timeline: self.timeline@,
            media_pool: self.media_pool@.map_values(|a: MediaAsset| a@),
        }
    }
}

impl Project {
    /// Create a new empty project with the given name and default settings.
    pub fn new(name: String) -> (p: Self)
        ensures
            p@.name == name@,
            p@.settings == (ProjectSettings { fps: 30, width: 1920, height: 1080, sample_rate: 48_000 }),
            p@.timeline.tracks == Seq::<TrackView>::empty(),
            p@.timeline.duration == 0,
            p@.media_pool == Seq::<MediaAssetView>::empty(),
    {
        let p = Self {
            name,
            settings: ProjectSettings::default(),
            timeline: Timeline::default(),
            media_pool: Vec::new(),
        };
        assert(p@.media_pool =~= Seq::<MediaAssetView>::empty());
        p
    }
}

} // verus!
