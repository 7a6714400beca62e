//! MediaAsset — a file in the project's media pool.
//!
//! When the user imports a video, audio, or image file, a [`MediaAsset`] is
//! created and stored in the project's media pool. Clips on the timeline
//! reference assets by their id.

use vstd::prelude::*;

use crate::ids::{is_v4_layout, new_id};

verus! {

/// Classifies the type of media stored in a file.
#[derive(Debug, Clone, Copy, PartialEq, Eq, Structural)]
pub enum AssetType {
    /// A file that contains video (may also contain audio streams).
    Video,
    /// An audio-only file (WAV, MP3, AAC, …).
    Audio,
    /// A still image (PNG, JPEG, …).
    Image,
}

/// The stem of the last component of `path` (its file name without the
/// last extension), as `std::path::Path::file_stem` computes it on this
/// platform; `None` when the path has no file name.
pub uninterp spec fn file_stem_of(path: Seq<char>) -> Option<Seq<char>>;

/// The file stem of `path`, from `std::path::Path::file_stem` read back as
/// UTF-8 text.  The contract names the result `file_stem_of(path)`; the
/// separator and dot rules, which depend on the platform, are not restated.
#[verifier::external_body]
fn path_file_stem(path: &str) -> (r: Option<String>)
    ensures
        match r {
            Some(s) => file_stem_of(path@) == Some(s@),
            None => file_stem_of(path@) is None,
        },
{
    std::path::Path::new(path).file_stem().and_then(|s| s.to_str()).map(|s| s.to_string())
}

/// A media file imported into the project's media pool.
#[derive(Debug)]
pub struct MediaAsset {
    /// Unique identifier used by clips to reference this asset.
    pub id: u128,
    /// Absolute path to the source file on disk.
    pub path: String,
    /// Display name (defaults to the file stem).
    pub name: String,
    /// Total duration of the media in ticks (0 for images).
    pub duration: i64,
    /// Whether this is a video, audio, or image asset.
    pub asset_type: AssetType,
    /// Pixel width — `None` for audio-only assets.
    pub width: Option<u32>,
    /// Pixel height — `None` for audio-only assets.
    pub height: Option<u32>,
    /// Frame-rate in thousandths of a frame per second — `None` for
    /// audio-only assets and images.
    pub fps_milli: Option<u32>,
}

/// The mathematical value of a [`MediaAsset`].
#[verifier::ext_equal]
pub struct MediaAssetView {
    pub id: u128,
    pub path: Seq<char>,
    pub name: Seq<char>,
    pub duration: i64,
    pub asset_type: AssetType,
    pub width: Option<u32>,
    pub height: Option<u32>,
    pub fps_milli: Option<u32>,
}

impl View for MediaAsset {
    type V = MediaAssetView;

    open spec fn view(&self) -> MediaAssetView {
        MediaAssetView {
            id: self.id,
            path: self.path@,
            name: self.name@,
            duration: self.duration,
            asset_type: self.asset_type,
            width: self.width,
            height: self.height,
            fps_milli: self.fps_milli,
        }
    }
}

/// The display name an asset at `path` gets: its file stem, or `unknown`.
pub open spec fn default_asset_name(path: Seq<char>) -> Seq<char> {
    match file_stem_of(path) {
        Some(s) => s,
        None => "unknown"@,
    }
}

impl MediaAsset {
    /// Construct a new asset from a file path with probed metadata, named
    /// after the file stem and given a fresh random id.
    pub fn new(
        path: String,
        asset_type: AssetType,
        duration: i64,
        width: Option<u32>,
        height: Option<u32>,
        fps_milli: Option<u32>,
    ) -> (a: Self)
        ensures
            a@.path == path@,
            a@.name == default_asset_name(path@),
            a@.duration == duration,
            a@.asset_type == asset_type,
            a@.width == width,
            a@.height == height,
            a@.fps_milli == fps_milli,
            is_v4_layout(a@.id),
    {
        let name = match path_file_stem(path.as_str()) {
            Some(s) => s,
            None => "unknown".to_owned(),
        };
        Self { id: new_id(), path, name, duration, asset_type, width, height, fps_milli }
    }
}

} // verus!
