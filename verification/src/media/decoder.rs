//! Decoder — media kind detection and the results of probing media files.
//!
//! The application reads the files (with the `mp4` and `symphonia` crates
//! and the `ffprobe` tool); this module decides which probe runs for which
//! file, what a probe's output means, and what is reported when a probe
//! fails.
//!
//! Supported for probing:
//! - Video:  `.mp4`, `.m4v` (container read directly), other video via ffprobe
//! - Audio:  `.mp3`, `.wav`, `.flac`, `.ogg`, `.aac`, `.m4a`, …
//! - Image:  `.png`, `.jpg`, `.jpeg`, `.bmp`, `.webp`, … (duration 0)
//!
//! Unknown formats fall back gracefully (duration 0).

use vstd::prelude::*;

use crate::time::TICKS_PER_SECOND;
use crate::text::{
    chars_of, find_char, index_of, micro_value, parse_micro, parse_seconds, seconds_ticks,
    str_equals, trim, trim_start, skip_white_space, trim_white_space_end,
};

verus! {

/// Detected media kind from file extension.
#[derive(Debug, Clone, Copy, PartialEq, Eq, Structural)]
pub enum AssetKind {
    Video,
    Audio,
    Image,
    Unknown,
}

/// The extension of `path` (the part of its file name after the last dot),
/// as `std::path::Path::extension` computes it on this platform.
pub uninterp spec fn extension_of(path: Seq<char>) -> Option<Seq<char>>;

/// The extension of `path`, from `std::path::Path::extension` read back as
/// UTF-8 text.  The contract names the result `extension_of(path)`; the
/// platform's separator and dot rules are not restated.
#[verifier::external_body]
fn path_extension(path: &str) -> (r: Option<String>)
    ensures
        match r {
            Some(e) => extension_of(path@) == Some(e@),
            None => extension_of(path@) is None,
        },
{
    std::path::Path::new(path).extension().and_then(|e| e.to_str()).map(|e| e.to_string())
}

/// The lowercase form of `s`, as `str::to_lowercase` maps it (Unicode
/// lowercase mapping, with the context rule for final sigma).
pub uninterp spec fn lowercase_of(s: Seq<char>) -> Seq<char>;

/// Every character of `s` is ASCII.
pub open spec fn is_ascii_text(s: Seq<char>) -> bool {
    forall|i: int| 0 <= i < s.len() ==> (#[trigger] s[i] as u32) < 128
}

/// `s` with the ASCII capitals `A` to `Z` turned into `a` to `z`.
pub open spec fn ascii_lowercase(s: Seq<char>) -> Seq<char> {
    s.map_values(
        |c: char|
            {
                let u = c as u32;
                if 65 <= u && u <= 90 {
                    (u + 32) as char
                } else {
                    c
                }
            },
    )
}

/// `str::to_lowercase`.  The contract names the result `lowercase_of(s)`
/// and says that on ASCII text it lowers `A` to `Z` and keeps every other
/// character (Unicode maps no other ASCII character); beyond ASCII the
/// Unicode case tables are not restated.
#[verifier::external_body]
fn to_lowercase(s: &str) -> (r: String)
    ensures
        r@ == lowercase_of(s@),
        is_ascii_text(s@) ==> r@ == ascii_lowercase(s@),
{
    s.to_lowercase()
}

/// The lowercased extension of `path`, if it has one.
pub open spec fn lowercase_extension(path: Seq<char>) -> Option<Seq<char>> {
    match extension_of(path) {
        Some(e) => Some(lowercase_of(e)),
        None => None,
    }
}

/// The kind of media a lowercase extension names.
pub open spec fn kind_of_extension(e: Seq<char>) -> AssetKind {
    if e == "mp4"@ || e == "m4v"@ || e == "mov"@ || e == "avi"@ || e == "mkv"@ || e == "wmv"@
        || e == "webm"@ || e == "flv"@ {
        AssetKind::Video
    } else if e == "mp3"@ || e == "wav"@ || e == "flac"@ || e == "ogg"@ || e == "aac"@ || e
        == "m4a"@ || e == "opus"@ || e == "wma"@ {
        AssetKind::Audio
    } else if e == "png"@ || e == "jpg"@ || e == "jpeg"@ || e == "bmp"@ || e == "webp"@ || e
        == "gif"@ || e == "tiff"@ || e == "tif"@ {
        AssetKind::Image
    } else {
        AssetKind::Unknown
    }
}

/// Law: the extension table.  `mp4`, `m4v`, `mov`, `avi`, `mkv`, `wmv`,
/// `webm` and `flv` name video; `mp3`, `wav`, `flac`, `ogg`, `aac`, `m4a`,
/// `opus` and `wma` name audio; `png`, `jpg`, `jpeg`, `bmp`, `webp`, `gif`,
/// `tiff` and `tif` name images; any other extension names an unknown kind.
pub proof fn lemma_extension_table(e: Seq<char>)
    ensures
        e == "mp4"@ || e == "m4v"@ || e == "mov"@ || e == "avi"@ || e == "mkv"@ || e == "wmv"@ || e == "webm"@ || e == "flv"@ ==> kind_of_extension(e) == AssetKind::Video,
        e == "mp3"@ || e == "wav"@ || e == "flac"@ || e == "ogg"@ || e == "aac"@ || e == "m4a"@ || e == "opus"@ || e == "wma"@ ==> kind_of_extension(e) == AssetKind::Audio,
        e == "png"@ || e == "jpg"@ || e == "jpeg"@ || e == "bmp"@ || e == "webp"@ || e == "gif"@ || e == "tiff"@ || e == "tif"@ ==> kind_of_extension(e) == AssetKind::Image,
        !(e == "mp4"@ || e == "m4v"@ || e == "mov"@ || e == "avi"@ || e == "mkv"@ || e == "wmv"@ || e == "webm"@ || e == "flv"@ || e == "mp3"@ || e == "wav"@ || e == "flac"@ || e == "ogg"@ || e == "aac"@ || e == "m4a"@ || e == "opus"@ || e == "wma"@ || e == "png"@ || e == "jpg"@ || e == "jpeg"@ || e == "bmp"@ || e == "webp"@ || e == "gif"@ || e == "tiff"@ || e == "tif"@) ==> kind_of_extension(e) == AssetKind::Unknown,
{
    reveal_strlit("mp4");
    reveal_strlit("m4v");
    reveal_strlit("mov");
    reveal_strlit("avi");
    reveal_strlit("mkv");
    reveal_strlit("wmv");
    reveal_strlit("webm");
    reveal_strlit("flv");
    reveal_strlit("mp3");
    reveal_strlit("wav");
    reveal_strlit("flac");
    reveal_strlit("ogg");
    reveal_strlit("aac");
    reveal_strlit("m4a");
    reveal_strlit("opus");
    reveal_strlit("wma");
    reveal_strlit("png");
    reveal_strlit("jpg");
    reveal_strlit("jpeg");
    reveal_strlit("bmp");
    reveal_strlit("webp");
    reveal_strlit("gif");
    reveal_strlit("tiff");
    reveal_strlit("tif");
    assert(kind_of_extension("mp3"@) == AssetKind::Audio) by {
        assert("mp3"@[2] != "mp4"@[2]);
        assert("mp3"@[1] != "m4v"@[1]);
        assert("mp3"@[1] != "mov"@[1]);
        assert("mp3"@[0] != "avi"@[0]);
        assert("mp3"@[1] != "mkv"@[1]);
        assert("mp3"@[0] != "wmv"@[0]);
        assert("mp3"@.len() != "webm"@.len());
        assert("mp3"@[0] != "flv"@[0]);
    }
    assert(kind_of_extension("wav"@) == AssetKind::Audio) by {
        assert("wav"@[0] != "mp4"@[0]);
        assert("wav"@[0] != "m4v"@[0]);
        assert("wav"@[0] != "mov"@[0]);
        assert("wav"@[0] != "avi"@[0]);
        assert("wav"@[0] != "mkv"@[0]);
        assert("wav"@[1] != "wmv"@[1]);
        assert("wav"@.len() != "webm"@.len());
        assert("wav"@[0] != "flv"@[0]);
    }
    assert(kind_of_extension("flac"@) == AssetKind::Audio) by {
        assert("flac"@.len() != "mp4"@.len());
        assert("flac"@.len() != "m4v"@.len());
        assert("flac"@.len() != "mov"@.len());
        assert("flac"@.len() != "avi"@.len());
        assert("flac"@.len() != "mkv"@.len());
        assert("flac"@.len() != "wmv"@.len());
        assert("flac"@[0] != "webm"@[0]);
        assert("flac"@.len() != "flv"@.len());
    }
    assert(kind_of_extension("ogg"@) == AssetKind::Audio) by {
        assert("ogg"@[0] != "mp4"@[0]);
        assert("ogg"@[0] != "m4v"@[0]);
        assert("ogg"@[0] != "mov"@[0]);
        assert("ogg"@[0] != "avi"@[0]);
        assert("ogg"@[0] != "mkv"@[0]);
        assert("ogg"@[0] != "wmv"@[0]);
        assert("ogg"@.len() != "webm"@.len());
        assert("ogg"@[0] != "flv"@[0]);
    }
    assert(kind_of_extension("aac"@) == AssetKind::Audio) by {
        assert("aac"@[0] != "mp4"@[0]);
        assert("aac"@[0] != "m4v"@[0]);
        assert("aac"@[0] != "mov"@[0]);
        assert("aac"@[1] != "avi"@[1]);
        assert("aac"@[0] != "mkv"@[0]);
        assert("aac"@[0] != "wmv"@[0]);
        assert("aac"@.len() != "webm"@.len());
        assert("aac"@[0] != "flv"@[0]);
    }
    assert(kind_of_extension("m4a"@) == AssetKind::Audio) by {
        assert("m4a"@[1] != "mp4"@[1]);
        assert("m4a"@[2] != "m4v"@[2]);
        assert("m4a"@[1] != "mov"@[1]);
        assert("m4a"@[0] != "avi"@[0]);
        assert("m4a"@[1] != "mkv"@[1]);
        assert("m4a"@[0] != "wmv"@[0]);
        assert("m4a"@.len() != "webm"@.len());
        assert("m4a"@[0] != "flv"@[0]);
    }
    assert(kind_of_extension("opus"@) == AssetKind::Audio) by {
        assert("opus"@.len() != "mp4"@.len());
        assert("opus"@.len() != "m4v"@.len());
        assert("opus"@.len() != "mov"@.len());
        assert("opus"@.len() != "avi"@.len());
        assert("opus"@.len() != "mkv"@.len());
        assert("opus"@.len() != "wmv"@.len());
        assert("opus"@[0] != "webm"@[0]);
        assert("opus"@.len() != "flv"@.len());
    }
    assert(kind_of_extension("wma"@) == AssetKind::Audio) by {
        assert("wma"@[0] != "mp4"@[0]);
        assert("wma"@[0] != "m4v"@[0]);
        assert("wma"@[0] != "mov"@[0]);
        assert("wma"@[0] != "avi"@[0]);
        assert("wma"@[0] != "mkv"@[0]);
        assert("wma"@[2] != "wmv"@[2]);
        assert("wma"@.len() != "webm"@.len());
        assert("wma"@[0] != "flv"@[0]);
    }
    assert(kind_of_extension("png"@) == AssetKind::Image) by {
        assert("png"@[0] != "mp4"@[0]);
        assert("png"@[0] != "m4v"@[0]);
        assert("png"@[0] != "mov"@[0]);
        assert("png"@[0] != "avi"@[0]);
        assert("png"@[0] != "mkv"@[0]);
        assert("png"@[0] != "wmv"@[0]);
        assert("png"@.len() != "webm"@.len());
        assert("png"@[0] != "flv"@[0]);
        assert("png"@[0] != "mp3"@[0]);
        assert("png"@[0] != "wav"@[0]);
        assert("png"@.len() != "flac"@.len());
        assert("png"@[0] != "ogg"@[0]);
        assert("png"@[0] != "aac"@[0]);
        assert("png"@[0] != "m4a"@[0]);
        assert("png"@.len() != "opus"@.len());
        assert("png"@[0] != "wma"@[0]);
    }
    assert(kind_of_extension("jpg"@) == AssetKind::Image) by {
        assert("jpg"@[0] != "mp4"@[0]);
        assert("jpg"@[0] != "m4v"@[0]);
        assert("jpg"@[0] != "mov"@[0]);
        assert("jpg"@[0] != "avi"@[0]);
        assert("jpg"@[0] != "mkv"@[0]);
        assert("jpg"@[0] != "wmv"@[0]);
        assert("jpg"@.len() != "webm"@.len());
        assert("jpg"@[0] != "flv"@[0]);
        assert("jpg"@[0] != "mp3"@[0]);
        assert("jpg"@[0] != "wav"@[0]);
        assert("jpg"@.len() != "flac"@.len());
        assert("jpg"@[0] != "ogg"@[0]);
        assert("jpg"@[0] != "aac"@[0]);
        assert("jpg"@[0] != "m4a"@[0]);
        assert("jpg"@.len() != "opus"@.len());
        assert("jpg"@[0] != "wma"@[0]);
    }
    assert(kind_of_extension("jpeg"@) == AssetKind::Image) by {
        assert("jpeg"@.len() != "mp4"@.len());
        assert("jpeg"@.len() != "m4v"@.len());
        assert("jpeg"@.len() != "mov"@.len());
        assert("jpeg"@.len() != "avi"@.len());
        assert("jpeg"@.len() != "mkv"@.len());
        assert("jpeg"@.len() != "wmv"@.len());
        assert("jpeg"@[0] != "webm"@[0]);
        assert("jpeg"@.len() != "flv"@.len());
        assert("jpeg"@.len() != "mp3"@.len());
        assert("jpeg"@.len() != "wav"@.len());
        assert("jpeg"@[0] != "flac"@[0]);
        assert("jpeg"@.len() != "ogg"@.len());
        assert("jpeg"@.len() != "aac"@.len());
        assert("jpeg"@.len() != "m4a"@.len());
        assert("jpeg"@[0] != "opus"@[0]);
        assert("jpeg"@.len() != "wma"@.len());
    }
    assert(kind_of_extension("bmp"@) == AssetKind::Image) by {
        assert("bmp"@[0] != "mp4"@[0]);
        assert("bmp"@[0] != "m4v"@[0]);
        assert("bmp"@[0] != "mov"@[0]);
        assert("bmp"@[0] != "avi"@[0]);
        assert("bmp"@[0] != "mkv"@[0]);
        assert("bmp"@[0] != "wmv"@[0]);
        assert("bmp"@.len() != "webm"@.len());
        assert("bmp"@[0] != "flv"@[0]);
        assert("bmp"@[0] != "mp3"@[0]);
        assert("bmp"@[0] != "wav"@[0]);
        assert("bmp"@.len() != "flac"@.len());
        assert("bmp"@[0] != "ogg"@[0]);
        assert("bmp"@[0] != "aac"@[0]);
        assert("bmp"@[0] != "m4a"@[0]);
        assert("bmp"@.len() != "opus"@.len());
        assert("bmp"@[0] != "wma"@[0]);
    }
    assert(kind_of_extension("webp"@) == AssetKind::Image) by {
        assert("webp"@.len() != "mp4"@.len());
        assert("webp"@.len() != "m4v"@.len());
        assert("webp"@.len() != "mov"@.len());
        assert("webp"@.len() != "avi"@.len());
        assert("webp"@.len() != "mkv"@.len());
        assert("webp"@.len() != "wmv"@.len());
        assert("webp"@[3] != "webm"@[3]);
        assert("webp"@.len() != "flv"@.len());
        assert("webp"@.len() != "mp3"@.len());
        assert("webp"@.len() != "wav"@.len());
        assert("webp"@[0] != "flac"@[0]);
        assert("webp"@.len() != "ogg"@.len());
        assert("webp"@.len() != "aac"@.len());
        assert("webp"@.len() != "m4a"@.len());
        assert("webp"@[0] != "opus"@[0]);
        assert("webp"@.len() != "wma"@.len());
    }
    assert(kind_of_extension("gif"@) == AssetKind::Image) by {
        assert("gif"@[0] != "mp4"@[0]);
        assert("gif"@[0] != "m4v"@[0]);
        assert("gif"@[0] != "mov"@[0]);
        assert("gif"@[0] != "avi"@[0]);
        assert("gif"@[0] != "mkv"@[0]);
        assert("gif"@[0] != "wmv"@[0]);
        assert("gif"@.len() != "webm"@.len());
        assert("gif"@[0] != "flv"@[0]);
        assert("gif"@[0] != "mp3"@[0]);
        assert("gif"@[0] != "wav"@[0]);
        assert("gif"@.len() != "flac"@.len());
        assert("gif"@[0] != "ogg"@[0]);
        assert("gif"@[0] != "aac"@[0]);
        assert("gif"@[0] != "m4a"@[0]);
        assert("gif"@.len() != "opus"@.len());
        assert("gif"@[0] != "wma"@[0]);
    }
    assert(kind_of_extension("tiff"@) == AssetKind::Image) by {
        assert("tiff"@.len() != "mp4"@.len());
        assert("tiff"@.len() != "m4v"@.len());
        assert("tiff"@.len() != "mov"@.len());
        assert("tiff"@.len() != "avi"@.len());
        assert("tiff"@.len() != "mkv"@.len());
        assert("tiff"@.len() != "wmv"@.len());
        assert("tiff"@[0] != "webm"@[0]);
        assert("tiff"@.len() != "flv"@.len());
        assert("tiff"@.len() != "mp3"@.len());
        assert("tiff"@.len() != "wav"@.len());
        assert("tiff"@[0] != "flac"@[0]);
        assert("tiff"@.len() != "ogg"@.len());
        assert("tiff"@.len() != "aac"@.len());
        assert("tiff"@.len() != "m4a"@.len());
        assert("tiff"@[0] != "opus"@[0]);
        assert("tiff"@.len() != "wma"@.len());
    }
    assert(kind_of_extension("tif"@) == AssetKind::Image) by {
        assert("tif"@[0] != "mp4"@[0]);
        assert("tif"@[0] != "m4v"@[0]);
        assert("tif"@[0] != "mov"@[0]);
        assert("tif"@[0] != "avi"@[0]);
        assert("tif"@[0] != "mkv"@[0]);
        assert("tif"@[0] != "wmv"@[0]);
        assert("tif"@.len() != "webm"@.len());
        assert("tif"@[0] != "flv"@[0]);
        assert("tif"@[0] != "mp3"@[0]);
        assert("tif"@[0] != "wav"@[0]);
        assert("tif"@.len() != "flac"@.len());
        assert("tif"@[0] != "ogg"@[0]);
        assert("tif"@[0] != "aac"@[0]);
        assert("tif"@[0] != "m4a"@[0]);
        assert("tif"@.len() != "opus"@.len());
        assert("tif"@[0] != "wma"@[0]);
    }
}

/// The kind of media a file at `path` holds, judged by its extension.
pub open spec fn kind_of_path(path: Seq<char>) -> AssetKind {
    match lowercase_extension(path) {
        Some(e) => kind_of_extension(e),
        None => AssetKind::Unknown,
    }
}

/// The lowercased extension of `path`.
fn lower_extension(path: &str) -> (r: Option<String>)
    ensures
        match r {
            Some(e) => lowercase_extension(path@) == Some(e@),
            None => lowercase_extension(path@) is None,
        },
        match extension_of(path@) {
            Some(x) => is_ascii_text(x) ==> lowercase_extension(path@) == Some(ascii_lowercase(x)),
            None => true,
        },
{
    match path_extension(path) {
        Some(e) => Some(to_lowercase(e.as_str())),
        None => None,
    }
}

fn kind_of_ext(e: &str) -> (k: AssetKind)
    ensures
        k == kind_of_extension(e@),
{
    if str_equals(e, "mp4") || str_equals(e, "m4v") || str_equals(e, "mov") || str_equals(e, "avi")
        || str_equals(e, "mkv") || str_equals(e, "wmv") || str_equals(e, "webm") || str_equals(
        e,
        "flv",
    ) {
        AssetKind::Video
    } else if str_equals(e, "mp3") || str_equals(e, "wav") || str_equals(e, "flac") || str_equals(
        e,
        "ogg",
    ) || str_equals(e, "aac") || str_equals(e, "m4a") || str_equals(e, "opus") || str_equals(
        e,
        "wma",
    ) {
        AssetKind::Audio
    } else if str_equals(e, "png") || str_equals(e, "jpg") || str_equals(e, "jpeg") || str_equals(
        e,
        "bmp",
    ) || str_equals(e, "webp") || str_equals(e, "gif") || str_equals(e, "tiff") || str_equals(
        e,
        "tif",
    ) {
        AssetKind::Image
    } else {
        AssetKind::Unknown
    }
}

impl AssetKind {
    /// The kind of media at `path`, from its (case-insensitive) extension.
    pub fn from_path(path: &str) -> (k: Self)
        ensures
            k == kind_of_path(path@),
            match extension_of(path@) {
                Some(x) => is_ascii_text(x) ==> k == kind_of_extension(ascii_lowercase(x)),
                None => true,
            },
    {
        match lower_extension(path) {
            Some(e) => kind_of_ext(e.as_str()),
            None => AssetKind::Unknown,
        }
    }
}

/// Metadata probed from a media file.
#[derive(Debug, Clone, Copy, PartialEq, Eq, Structural)]
pub struct MediaInfo {
    /// Width of the video stream in pixels (0 for audio-only / images).
    pub width: u32,
    /// Height of the video stream in pixels (0 for audio-only / images).
    pub height: u32,
    /// Frame-rate of the video stream in thousandths of a frame per second
    /// (0 for audio-only).
    pub fps_milli: u32,
    /// Total duration of the file in ticks (0 for images).
    pub duration: i64,
    /// `true` if the file contains at least one audio stream.
    pub has_audio: bool,
    /// Detected asset kind.
    pub kind: AssetKind,
}

/// Empty metadata of the given kind: no size, rate, duration or audio.
pub open spec fn empty_info(kind: AssetKind) -> MediaInfo {
    MediaInfo { width: 0, height: 0, fps_milli: 0, duration: 0, has_audio: false, kind }
}

impl Default for MediaInfo {
    fn default() -> (m: Self)
        ensures
            m == empty_info(AssetKind::Unknown),
    {
        MediaInfo { width: 0, height: 0, fps_milli: 0, duration: 0, has_audio: false, kind: AssetKind::Unknown }
    }
}

/// The probe to run next on a media file, or the finished result.
#[derive(Debug, Clone, Copy, PartialEq, Eq, Structural)]
pub enum ProbeStep {
    /// Read the MP4 container header of the file.
    ReadMp4,
    /// Run `ffprobe` on the file.
    RunFfprobe,
    /// Read the file as audio.
    ReadAudio,
    /// Probing is over with this result.
    Done(MediaInfo),
}

/// The first probe for a file of `kind` whose lowercased extension is `ext`:
/// MP4 and M4V files are read as containers, other video goes to ffprobe,
/// audio and unknown files are read as audio, and images need no probe.
pub open spec fn first_step(kind: AssetKind, ext: Option<Seq<char>>) -> ProbeStep {
    match kind {
        AssetKind::Video => if ext == Some("mp4"@) || ext == Some("m4v"@) {
            ProbeStep::ReadMp4
        } else {
            ProbeStep::RunFfprobe
        },
        AssetKind::Audio => ProbeStep::ReadAudio,
        AssetKind::Image => ProbeStep::Done(empty_info(AssetKind::Image)),
        AssetKind::Unknown => ProbeStep::ReadAudio,
    }
}

/// The step after `done` produced `result` on a file of `kind`: a container
/// read with no duration falls back to ffprobe; a failed ffprobe reports
/// the kind with an assumed audio stream; an audio read of an unknown file
/// counts only when it found a duration.  A finished result carries `kind`,
/// as every probe of the file reports it.
pub open spec fn step_after(kind: AssetKind, done: ProbeStep, result: Option<MediaInfo>) -> ProbeStep {
    match done {
        ProbeStep::ReadMp4 => match result {
            Some(info) => if info.duration > 0 {
                ProbeStep::Done(MediaInfo { kind, ..info })
            } else {
                ProbeStep::RunFfprobe
            },
            None => ProbeStep::RunFfprobe,
        },
        ProbeStep::RunFfprobe => match result {
            Some(info) => ProbeStep::Done(MediaInfo { kind, ..info }),
            None => ProbeStep::Done(MediaInfo { has_audio: true, ..empty_info(kind) }),
        },
        ProbeStep::ReadAudio => {
            let info = match result {
                Some(i) => MediaInfo { kind, ..i },
                None => empty_info(kind),
            };
            if kind == AssetKind::Unknown && !(info.duration > 0) {
                ProbeStep::Done(empty_info(AssetKind::Unknown))
            } else {
                ProbeStep::Done(info)
            }
        },
        ProbeStep::Done(info) => ProbeStep::Done(info),
    }
}

/// Law: the probes a file gets.  MP4 and M4V video is read as a container
/// first, other video goes to ffprobe, audio and unknown files are read as
/// audio, and an image needs no probe: it is done at once, with no size,
/// rate, duration or audio.  A container read that finds a duration is the
/// result; one that finds none, or fails, hands over to ffprobe.  A failed
/// ffprobe reports no size, rate or duration but an audio stream.
pub proof fn lemma_probe_plan(kind: AssetKind, ext: Option<Seq<char>>, result: Option<MediaInfo>)
    ensures
        kind == AssetKind::Video && (ext == Some("mp4"@) || ext == Some("m4v"@)) ==> first_step(kind, ext)
            == ProbeStep::ReadMp4,
        kind == AssetKind::Video && !(ext == Some("mp4"@) || ext == Some("m4v"@)) ==> first_step(kind, ext)
            == ProbeStep::RunFfprobe,
        kind == AssetKind::Audio || kind == AssetKind::Unknown ==> first_step(kind, ext) == ProbeStep::ReadAudio,
        kind == AssetKind::Image ==> (first_step(kind, ext) matches ProbeStep::Done(m) && m.width == 0
            && m.height == 0 && m.fps_milli == 0 && m.duration == 0 && !m.has_audio && m.kind
            == AssetKind::Image),
        result matches Some(info) && info.duration > 0 ==> step_after(kind, ProbeStep::ReadMp4, result)
            == ProbeStep::Done(MediaInfo { kind, ..result->0 }),
        !(result matches Some(info) && info.duration > 0) ==> step_after(kind, ProbeStep::ReadMp4, result)
            == ProbeStep::RunFfprobe,
        result is None ==> (step_after(kind, ProbeStep::RunFfprobe, result) matches ProbeStep::Done(m)
            && m.width == 0 && m.height == 0 && m.fps_milli == 0 && m.duration == 0 && m.has_audio
            && m.kind == kind),
{
}

/// The step reached from `step` on a file of `kind` when the probes run in
/// turn give `results`.
pub open spec fn steps_after(kind: AssetKind, step: ProbeStep, results: Seq<Option<MediaInfo>>) -> ProbeStep
    decreases results.len(),
{
    if results.len() == 0 {
        step
    } else {
        steps_after(kind, step_after(kind, step, results[0]), results.drop_first())
    }
}

/// Law: probing the file at `path` ends after at most two probes, and
/// whatever the probes find or fail to find, the finished metadata has the
/// kind of the path.
pub proof fn lemma_probe_keeps_kind(path: Seq<char>, results: Seq<Option<MediaInfo>>)
    ensures
        ({
            let kind = kind_of_path(path);
            let last = steps_after(kind, first_step(kind, lowercase_extension(path)), results);
            &&& results.len() >= 2 ==> last is Done
            &&& last matches ProbeStep::Done(info) ==> info.kind == kind
        }),
{
    let kind = kind_of_path(path);
    lemma_steps_keep_kind(kind, first_step(kind, lowercase_extension(path)), results);
}

proof fn lemma_steps_keep_kind(kind: AssetKind, step: ProbeStep, results: Seq<Option<MediaInfo>>)
    requires
        step matches ProbeStep::Done(info) ==> info.kind == kind,
    ensures
        results.len() >= 2 ==> steps_after(kind, step, results) is Done,
        results.len() >= 1 && step !is ReadMp4 ==> steps_after(kind, step, results) is Done,
        steps_after(kind, step, results) matches ProbeStep::Done(info) ==> info.kind == kind,
    decreases results.len(),
{
    if results.len() > 0 {
        lemma_steps_keep_kind(kind, step_after(kind, step, results[0]), results.drop_first());
    }
}

impl ProbeStep {
    /// The first probe for the file at `path` (see [`first_step`]).
    pub fn first(path: &str) -> (r: ProbeStep)
        ensures
            r == first_step(kind_of_path(path@), lowercase_extension(path@)),
    {
        let kind = AssetKind::from_path(path);
        match kind {
            AssetKind::Video => {
                let is_mp4 = match lower_extension(path) {
                    Some(e) => str_equals(e.as_str(), "mp4") || str_equals(e.as_str(), "m4v"),
                    None => false,
                };
                if is_mp4 {
                    ProbeStep::ReadMp4
                } else {
                    ProbeStep::RunFfprobe
                }
            },
            AssetKind::Audio => ProbeStep::ReadAudio,
            AssetKind::Image => ProbeStep::Done(
                MediaInfo { width: 0, height: 0, fps_milli: 0, duration: 0, has_audio: false, kind: AssetKind::Image },
            ),
            AssetKind::Unknown => ProbeStep::ReadAudio,
        }
    }

    /// The step after this one produced `result` on a file of `kind` (see
    /// [`step_after`]); `result` is `None` when the probe could not run.
    pub fn next(self, kind: AssetKind, result: Option<MediaInfo>) -> (r: ProbeStep)
        ensures
            r == step_after(kind, self, result),
    {
        match self {
            ProbeStep::ReadMp4 => match result {
                Some(info) => if info.duration > 0 {
                    ProbeStep::Done(MediaInfo { kind, ..info })
                } else {
                    ProbeStep::RunFfprobe
                },
                None => ProbeStep::RunFfprobe,
            },
            ProbeStep::RunFfprobe => match result {
                Some(info) => ProbeStep::Done(MediaInfo { kind, ..info }),
                None => ProbeStep::Done(
                    MediaInfo { width: 0, height: 0, fps_milli: 0, duration: 0, has_audio: true, kind },
                ),
            },
            ProbeStep::ReadAudio => {
                let info = match result {
                    Some(i) => MediaInfo { kind, ..i },
                    None => MediaInfo { width: 0, height: 0, fps_milli: 0, duration: 0, has_audio: false, kind },
                };
                if kind == AssetKind::Unknown && !(info.duration > 0) {
                    ProbeStep::Done(
                        MediaInfo { width: 0, height: 0, fps_milli: 0, duration: 0, has_audio: false, kind: AssetKind::Unknown },
                    )
                } else {
                    ProbeStep::Done(info)
                }
            },
            ProbeStep::Done(info) => ProbeStep::Done(info),
        }
    }
}

/// One stream entry of ffprobe's JSON report, as plain values.
#[derive(Debug)]
pub struct ProbeStream {
    /// `codec_type` (empty when absent or not text).
    pub codec_type: String,
    /// `width`, when present as an unsigned integer.
    pub width: Option<u64>,
    /// `height`, when present as an unsigned integer.
    pub height: Option<u64>,
    /// `r_frame_rate` (such as `30000/1001`), when present as text.
    pub r_frame_rate: Option<String>,
}

/// The mathematical value of a [`ProbeStream`].
pub struct ProbeStreamView {
    pub codec_type: Seq<char>,
    pub width: Option<u64>,
    pub height: Option<u64>,
    pub r_frame_rate: Option<Seq<char>>,
}

impl View for ProbeStream {
    type V = ProbeStreamView;

    open spec fn view(&self) -> ProbeStreamView {
        ProbeStreamView {
            codec_type: self.codec_type@,
            width: self.width,
            height: self.height,
            r_frame_rate: match self.r_frame_rate {
                Some(r) => Some(r@),
                None => None,
            },
        }
    }
}

/// The frame rate, in thousandths, that a `num/den` text gives: both sides
/// (around the first `/`, trimmed of white space) decimal numbers (see
/// [`micro_value`]) and the denominator positive; the quotient rounded
/// down, a negative one read as 0, and capped at `u32::MAX`.
pub open spec fn rate_milli(r: Seq<char>) -> Option<u32> {
    match index_of(r, '/') {
        Some(k) => match (micro_value(trim(r.subrange(0, k))), micro_value(trim(r.subrange(k + 1, r.len() as int)))) {
            (Some(n), Some(d)) => if d > 0 {
                let m = n * 1000 / d;
                Some(if m < 0 { 0u32 } else if m > u32::MAX { u32::MAX } else { m as u32 })
            } else {
                None
            },
            _ => None,
        },
        None => None,
    }
}

/// Width, height, frame rate and audio presence gathered over `streams`:
/// the first video stream seen while the width is still 0 gives the size
/// (truncated to 32 bits) and, when its rate reads, the frame rate; any
/// audio stream sets the audio flag.
pub open spec fn scan_streams(streams: Seq<ProbeStreamView>) -> (u32, u32, u32, bool)
    decreases streams.len(),
{
    if streams.len() == 0 {
        (0, 0, 0, false)
    } else {
        let (w, h, f, a) = scan_streams(streams.drop_last());
        let s = streams.last();
        if s.codec_type == "video"@ {
            if w == 0 {
                let nw = match s.width { Some(x) => x as u32, None => 0u32 };
                let nh = match s.height { Some(x) => x as u32, None => 0u32 };
                let nf = match s.r_frame_rate {
                    Some(r) => match rate_milli(r) { Some(m) => m, None => f },
                    None => f,
                };
                (nw, nh, nf, a)
            } else {
                (w, h, f, a)
            }
        } else if s.codec_type == "audio"@ {
            (w, h, f, true)
        } else {
            (w, h, f, a)
        }
    }
}

/// The metadata an ffprobe report gives for a file of `kind`: the format's
/// duration text read as seconds (0 when absent or unreadable), and what
/// the streams give.
pub open spec fn ffprobe_info(kind: AssetKind, duration_text: Option<Seq<char>>, streams: Seq<ProbeStreamView>) -> MediaInfo {
    let (w, h, f, a) = scan_streams(streams);
    MediaInfo {
        width: w,
        height: h,
        fps_milli: f,
        duration: match duration_text {
            Some(t) => match seconds_ticks(t) { Some(x) => x as i64, None => 0 },
            None => 0,
        },
        has_audio: a,
        kind,
    }
}

/// The frame rate text `r` read as thousandths (see [`rate_milli`]).
fn parse_rate(r: &str) -> (m: Option<u32>)
    ensures
        m == rate_milli(r@),
{
    let cs = chars_of(r);
    let n = cs.len();
    let slash = find_char(&cs, 0, n, '/');
    proof {
        assert(cs@.subrange(0, n as int) =~= r@);
    }
    if slash == n {
        return None;
    }
    let a0 = skip_white_space(&cs, 0);
    let ghost left = cs@.subrange(0, slash as int);
    let ghost right = cs@.subrange(slash + 1, n as int);
    // numerator: trim `cs[0..slash]`
    let ns = skip_white_space_to(&cs, 0, slash);
    let ne = trim_white_space_end(&cs, ns, slash);
    let ds = skip_white_space_to(&cs, slash + 1, n);
    let de = trim_white_space_end(&cs, ds, n);
    proof {
        assert(cs@.subrange(ns as int, ne as int) == trim(left));
        assert(cs@.subrange(ds as int, de as int) == trim(right));
    }
    let num = match parse_micro(&cs, ns, ne) {
        Some(v) => v,
        None => return None,
    };
    let den = match parse_micro(&cs, ds, de) {
        Some(v) => v,
        None => return None,
    };
    if den <= 0 {
        return None;
    }
    if num < 0 {
        assert((num as int) * 1000 / (den as int) < 0) by (nonlinear_arith)
            requires
                num < 0,
                den > 0,
        ;
        return Some(0);
    }
    let m = num * 1000 / den;
    if m > u32::MAX as i128 {
        Some(u32::MAX)
    } else {
        Some(m as u32)
    }
}

/// Start of `s[from..to]` without its leading white space.
fn skip_white_space_to(s: &Vec<char>, from: usize, to: usize) -> (r: usize)
    requires
        from <= to <= s@.len(),
    ensures
        from <= r <= to,
        s@.subrange(r as int, to as int) == trim_start(s@.subrange(from as int, to as int)),
{
    let mut i = from;
    while i < to && crate::text::white_space(s[i])
        invariant
            from <= i <= to <= s@.len(),
            trim_start(s@.subrange(from as int, to as int)) == trim_start(s@.subrange(i as int, to as int)),
        decreases to - i,
    {
        assert(s@.subrange(i as int, to as int).drop_first() =~= s@.subrange(i + 1, to as int));
        i = i + 1;
    }
    i
}

/// The metadata an ffprobe report gives (see [`ffprobe_info`]).
pub fn ffprobe_media_info(kind: AssetKind, duration_text: Option<String>, streams: &Vec<ProbeStream>) -> (m: MediaInfo)
    ensures
        m == ffprobe_info(
            kind,
            match duration_text {
                Some(t) => Some(t@),
                None => None,
            },
            streams@.map_values(|s: ProbeStream| s@),
        ),
{
    let duration = match &duration_text {
        Some(t) => {
            let cs = chars_of(t.as_str());
            let n = cs.len();
            proof {
                assert(cs@.subrange(0, n as int) =~= t@);
            }
            match parse_seconds(&cs, 0, n) {
                Some(x) => x,
                None => 0,
            }
        },
        None => 0,
    };
    let ghost sv = streams@.map_values(|s: ProbeStream| s@);
    let mut w: u32 = 0;
    let mut h: u32 = 0;
    let mut f: u32 = 0;
    let mut a = false;
    let n = streams.len();
    let mut i: usize = 0;
    while i < n
        invariant
            n == sv.len(),
            sv == streams@.map_values(|s: ProbeStream| s@),
            0 <= i <= n,
            (w, h, f, a) == scan_streams(sv.take(i as int)),
        decreases n - i,
    {
        proof {
            assert(sv.take(i + 1).drop_last() =~= sv.take(i as int));
            assert(sv.take(i + 1).last() == streams[i as int]@);
        }
        let s = &streams[i];
        if str_equals(s.codec_type.as_str(), "video") {
            if w == 0 {
                w = match s.width {
                    Some(x) => x as u32,
                    None => 0,
                };
                h = match s.height {
                    Some(x) => x as u32,
                    None => 0,
                };
                match &s.r_frame_rate {
                    Some(r) => match parse_rate(r.as_str()) {
                        Some(m) => f = m,
                        None => {},
                    },
                    None => {},
                }
            }
        } else if str_equals(s.codec_type.as_str(), "audio") {
            a = true;
        }
        i = i + 1;
    }
    proof {
        assert(sv.take(n as int) =~= sv);
    }
    MediaInfo { width: w, height: h, fps_milli: f, duration, has_audio: a, kind }
}

/// Decodes video frames from a media file.
///
/// Frame decoding is not implemented yet; only the decoder type exists.
pub struct MediaDecoder {
    _private: (),
}

/// What ffprobe's JSON report (`-print_format json -show_format
/// -show_streams`) holds, as `serde_json` reads it: `None` when the text is
/// not JSON; otherwise the text of `format.duration` (when it is a string)
/// and one entry per element of `streams` (none when that is not an array).
pub uninterp spec fn ffprobe_report_of(stdout: Seq<char>) -> Option<(Option<Seq<char>>, Seq<ProbeStreamView>)>;

/// Reads ffprobe's JSON report with `serde_json::from_str` into a
/// `serde_json::Value` and picks its fields: `format.duration` as text,
/// and of each stream `codec_type` as text (empty when absent or not text),
/// `width` and `height` as unsigned integers and `r_frame_rate` as text.
/// The contract names the result `ffprobe_report_of(stdout)`; JSON syntax
/// is not restated.
#[verifier::external_body]
fn parse_ffprobe_report(stdout: &str) -> (r: Option<(Option<String>, Vec<ProbeStream>)>)
    ensures
        match r {
            Some((d, streams)) => ffprobe_report_of(stdout@) == Some(
                (
                    match d {
                        Some(t) => Some(t@),
                        None => None,
                    },
                    streams@.map_values(|p: ProbeStream| p@),
                ),
            ),
            None => ffprobe_report_of(stdout@) is None,
        },
{
    let v: serde_json::Value = serde_json::from_str(stdout).ok()?;
    let streams = v["streams"].as_array().map(|a| a.iter().map(|s| ProbeStream {
        codec_type: s["codec_type"].as_str().unwrap_or("").to_string(),
        width: s["width"].as_u64(),
        height: s["height"].as_u64(),
        r_frame_rate: s["r_frame_rate"].as_str().map(|t| t.to_string()),
    }).collect()).unwrap_or_default();
    Some((v["format"]["duration"].as_str().map(|t| t.to_string()), streams))
}

/// The metadata of a file of `kind` from the text ffprobe printed: `None`
/// when it is not a JSON report, otherwise what the report gives (see
/// [`ffprobe_info`]).
pub fn ffprobe_stdout_info(kind: AssetKind, stdout: &str) -> (m: Option<MediaInfo>)
    ensures
        m == match ffprobe_report_of(stdout@) {
            Some((d, streams)) => Some(ffprobe_info(kind, d, streams)),
            None => None,
        },
{
    match parse_ffprobe_report(stdout) {
        Some((d, streams)) => Some(ffprobe_media_info(kind, d, &streams)),
        None => None,
    }
}

/// The kind of a track of an MP4 container.
#[derive(Debug, Clone, Copy, PartialEq, Eq, Structural)]
pub enum Mp4TrackKind {
    Video,
    Audio,
    /// Any other track, or one whose type could not be read.
    Other,
}

/// What the probe reads of one track of an MP4 container.
#[derive(Debug, Clone, Copy, PartialEq, Eq, Structural)]
pub struct Mp4Track {
    pub kind: Mp4TrackKind,
    /// Width in pixels (video tracks).
    pub width: u16,
    /// Height in pixels (video tracks).
    pub height: u16,
    /// Frame rate in thousandths of a frame per second (0 when unknown).
    pub frame_rate_milli: u32,
}

/// Width, height, frame rate and audio presence over the tracks of an MP4
/// container, in the order they were read: each video track sets the size
/// and, when it is known, the frame rate; any audio track sets the audio
/// flag.
pub open spec fn scan_mp4_tracks(tracks: Seq<Mp4Track>) -> (u32, u32, u32, bool)
    decreases tracks.len(),
{
    if tracks.len() == 0 {
        (0, 0, 0, false)
    } else {
        let (w, h, f, a) = scan_mp4_tracks(tracks.drop_last());
        let t = tracks.last();
        match t.kind {
            Mp4TrackKind::Video => (
                t.width as u32,
                t.height as u32,
                if t.frame_rate_milli > 0 { t.frame_rate_milli } else { f },
                a,
            ),
            Mp4TrackKind::Audio => (w, h, f, true),
            Mp4TrackKind::Other => (w, h, f, a),
        }
    }
}

/// The metadata of an MP4 file of `kind` lasting `duration` ticks with the
/// given tracks (see [`scan_mp4_tracks`]).
pub fn mp4_media_info(kind: AssetKind, duration: i64, tracks: &Vec<Mp4Track>) -> (m: MediaInfo)
    ensures
        ({
            let (w, h, f, a) = scan_mp4_tracks(tracks@);
            m == MediaInfo { width: w, height: h, fps_milli: f, duration, has_audio: a, kind }
        }),
{
    let n = tracks.len();
    let mut width: u32 = 0;
    let mut height: u32 = 0;
    let mut fps: u32 = 0;
    let mut has_audio = false;
    let mut i: usize = 0;
    while i < n
        invariant
            n == tracks@.len(),
            i <= n,
            scan_mp4_tracks(tracks@.take(i as int)) == (width, height, fps, has_audio),
        decreases n - i,
    {
        let t = tracks[i];
        assert(tracks@.take(i + 1).drop_last() =~= tracks@.take(i as int));
        match t.kind {
            Mp4TrackKind::Video => {
                width = t.width as u32;
                height = t.height as u32;
                if t.frame_rate_milli > 0 {
                    fps = t.frame_rate_milli;
                }
            },
            Mp4TrackKind::Audio => {
                has_audio = true;
            },
            Mp4TrackKind::Other => {},
        }
        i = i + 1;
    }
    assert(tracks@.take(n as int) =~= tracks@);
    MediaInfo { width, height, fps_milli: fps, duration, has_audio, kind }
}

/// What the probe reads of one track of an audio file: its length in
/// frames and its time base `(numerator, denominator)` in seconds per
/// frame, where known.
#[derive(Debug, Clone, Copy)]
pub struct AudioTrack {
    pub n_frames: Option<u64>,
    pub time_base: Option<(u32, u32)>,
}

/// The length of an audio track in ticks, when both its frame count and
/// time base are known (else 0): rounded down and capped at `i64::MAX`.
pub open spec fn audio_track_ticks(t: AudioTrack) -> int {
    match (t.n_frames, t.time_base) {
        (Some(n), Some((num, den))) => {
            let v = n * num * TICKS_PER_SECOND / (den as int);
            if v > i64::MAX {
                i64::MAX as int
            } else {
                v
            }
        },
        _ => 0,
    }
}

/// The longest track length over `tracks`, and 0 for none.
pub open spec fn longest_audio_track(tracks: Seq<AudioTrack>) -> int
    decreases tracks.len(),
{
    if tracks.len() == 0 {
        0
    } else {
        let rest = longest_audio_track(tracks.drop_last());
        let t = audio_track_ticks(tracks.last());
        if t > rest {
            t
        } else {
            rest
        }
    }
}

/// Every time base of `tracks` has a positive denominator.
pub open spec fn time_bases_valid(tracks: Seq<AudioTrack>) -> bool {
    forall|i: int|
        0 <= i < tracks.len() ==> match #[trigger] tracks[i].time_base {
            Some((_, den)) => den > 0,
            None => true,
        }
}

fn audio_track_length(t: AudioTrack) -> (r: i64)
    requires
        match t.time_base {
            Some((_, den)) => den > 0,
            None => true,
        },
    ensures
        r == audio_track_ticks(t),
{
    match (t.n_frames, t.time_base) {
        (Some(n), Some((num, den))) => {
            assert(0 <= n * num <= 0xffff_ffff_ffff_ffff * 0xffff_ffff) by (nonlinear_arith);
            let v: u128 = n as u128 * num as u128 * 705_600_000 / den as u128;
            if v > i64::MAX as u128 {
                i64::MAX
            } else {
                v as i64
            }
        },
        _ => 0,
    }
}

/// The metadata of an audio file of `kind` with the given tracks: its
/// longest track as the duration, with audio (see [`longest_audio_track`]).
pub fn audio_media_info(kind: AssetKind, tracks: &Vec<AudioTrack>) -> (m: MediaInfo)
    requires
        time_bases_valid(tracks@),
    ensures
        m == (MediaInfo {
            width: 0,
            height: 0,
            fps_milli: 0,
            duration: longest_audio_track(tracks@) as i64,
            has_audio: true,
            kind,
        }),
{
    let n = tracks.len();
    let mut best: i64 = 0;
    let mut i: usize = 0;
    while i < n
        invariant
            n == tracks@.len(),
            i <= n,
            time_bases_valid(tracks@),
            best == longest_audio_track(tracks@.take(i as int)),
        decreases n - i,
    {
        assert(tracks@.take(i + 1).drop_last() =~= tracks@.take(i as int));
        let t = tracks[i];
        assert(t == tracks@[i as int]);
        let len = audio_track_length(t);
        if len > best {
            best = len;
        }
        i = i + 1;
    }
    assert(tracks@.take(n as int) =~= tracks@);
    MediaInfo { width: 0, height: 0, fps_milli: 0, duration: best, has_audio: true, kind }
}

} // verus!
