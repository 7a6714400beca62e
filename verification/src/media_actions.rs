//! The editor's media actions: exporting the timeline, following the ffmpeg
//! setup, choosing the preview frame under the playhead, and importing
//! probed media files.
//!
//! The application performs the outside work (dialogs, threads, channels,
//! running ffmpeg, textures); each action here decides what happens with
//! what it got back.

use vstd::prelude::*;

use crate::clip::Clip;
use crate::clip_order::{sort_by_start, sort_clips_by_start};
use crate::commands::{history_wf, CommandHistory};
use crate::editor::{
    find_asset, lemma_find_asset, position_of_asset, project_or_untitled, project_view, VidCutApp,
};
use crate::ids::is_v4_layout;
use crate::media::decoder::{AssetKind, MediaInfo};
use crate::media::encoder::{
    export_args, format_extension, plan_export, texts, total_duration, ExportJob, ExportPlan,
    ExportProgress, ExportSegment, ExportSegmentView, OutputFormat,
};
use crate::media::ffmpeg_manager::FfmpegStatus;
use crate::media::frame_extractor::DecodedFrame;
use crate::media_asset::{default_asset_name, AssetType, MediaAsset, MediaAssetView};
use crate::project::{Project, ProjectView};
use crate::time::{spec_max, spec_min, TICKS_PER_SECOND};
use crate::track::{Track, TrackType, TrackView};
use crate::transport::clamp_i64;

verus! {

/// The shortest duration a segment is exported with: 10 ms, in ticks.
pub const MIN_SEGMENT_DURATION: i64 = 7_056_000;

/// The clips of all tracks, track after track, each track's clips in order.
pub open spec fn all_clips(tracks: Seq<TrackView>) -> Seq<Clip>
    decreases tracks.len(),
{
    if tracks.len() == 0 {
        Seq::empty()
    } else {
        all_clips(tracks.drop_last()) + tracks.last().clips
    }
}

/// The segment a clip of `asset` is exported as: from the clip's source
/// in-point, for the clip's length but at least 10 ms (and at most
/// `i64::MAX` ticks); video assets give video and audio, audio assets
/// audio, images video.
pub open spec fn segment_of(c: Clip, asset: MediaAssetView) -> ExportSegmentView {
    ExportSegmentView {
        source_path: asset.path,
        source_start: c.source_start,
        duration: spec_min(
            spec_max(c.timeline_end - c.timeline_start, MIN_SEGMENT_DURATION as int),
            i64::MAX as int,
        ) as i64,
        has_video: asset.asset_type == AssetType::Video,
        has_audio: asset.asset_type == AssetType::Video || asset.asset_type == AssetType::Audio,
    }
}

/// The segments of `clips`, in order, skipping clips whose asset is not in
/// `pool` (the first asset with the clip's asset id is used).
pub open spec fn segments_of_clips(clips: Seq<Clip>, pool: Seq<MediaAssetView>) -> Seq<ExportSegmentView>
    decreases clips.len(),
{
    if clips.len() == 0 {
        Seq::empty()
    } else {
        let c = clips.last();
        let rest = segments_of_clips(clips.drop_last(), pool);
        match find_asset(pool, c.asset_id) {
            Some(k) => rest.push(segment_of(c, pool[k])),
            None => rest,
        }
    }
}

/// The segments a project is exported as: the clips of all tracks ordered
/// by timeline start (clips with equal starts keep their track order),
/// each with its asset.
pub open spec fn export_segments_of(p: ProjectView) -> Seq<ExportSegmentView> {
    segments_of_clips(sort_by_start(all_clips(p.timeline.tracks)), p.media_pool)
}

/// The views of a list of segments.
pub open spec fn segment_views(v: Seq<ExportSegment>) -> Seq<ExportSegmentView> {
    v.map_values(|s: ExportSegment| s@)
}

fn collect_clips(tracks: &Vec<Track>) -> (r: Vec<Clip>)
    ensures
        r@ == all_clips(tracks@.map_values(|t: Track| t@)),
{
    let ghost tv = tracks@.map_values(|t: Track| t@);
    let mut out: Vec<Clip> = Vec::new();
    let n = tracks.len();
    let mut i: usize = 0;
    while i < n
        invariant
            n == tracks@.len(),
            tv == tracks@.map_values(|t: Track| t@),
            i <= n,
            out@ == all_clips(tv.take(i as int)),
        decreases n - i,
    {
        let clips = &tracks[i].clips;
        let m = clips.len();
        let mut j: usize = 0;
        while j < m
            invariant
                m == clips@.len(),
                j <= m,
                out@ == all_clips(tv.take(i as int)) + clips@.take(j as int),
            decreases m - j,
        {
            out.push(clips[j]);
            j = j + 1;
            assert(out@ =~= all_clips(tv.take(i as int)) + clips@.take(j as int));
        }
        proof {
            assert(tv.take(i + 1).drop_last() =~= tv.take(i as int));
            assert(tv.take(i + 1).last() == tracks@[i as int]@);
            assert(clips@.take(m as int) =~= clips@);
        }
        i = i + 1;
    }
    assert(tv.take(n as int) =~= tv);
    out
}

/// The segment a clip of `asset` is exported as (see [`segment_of`]).
fn make_segment(c: &Clip, asset: &MediaAsset) -> (s: ExportSegment)
    ensures
        s@ == segment_of(*c, asset@),
{
    let len: i128 = c.timeline_end as i128 - c.timeline_start as i128;
    let duration: i64 = if len < MIN_SEGMENT_DURATION as i128 {
        MIN_SEGMENT_DURATION
    } else if len > i64::MAX as i128 {
        i64::MAX
    } else {
        len as i64
    };
    let has_video = match asset.asset_type {
        AssetType::Video => true,
        _ => false,
    };
    let has_audio = match asset.asset_type {
        AssetType::Video | AssetType::Audio => true,
        _ => false,
    };
    ExportSegment {
        source_path: asset.path.clone(),
        source_start: c.source_start,
        duration,
        has_video,
        has_audio,
    }
}

/// The segments `project` is exported as (see [`export_segments_of`]).
pub fn export_segments(project: &Project) -> (r: Vec<ExportSegment>)
    ensures
        segment_views(r@) == export_segments_of(project@),
{
    let mut clips = collect_clips(&project.timeline.tracks);
    sort_clips_by_start(&mut clips);
    let ghost pool = project@.media_pool;
    let mut out: Vec<ExportSegment> = Vec::new();
    let n = clips.len();
    let mut i: usize = 0;
    while i < n
        invariant
            n == clips@.len(),
            clips@ == sort_by_start(all_clips(project@.timeline.tracks)),
            pool == project@.media_pool,
            i <= n,
            segment_views(out@) == segments_of_clips(clips@.take(i as int), pool),
        decreases n - i,
    {
        let c = &clips[i];
        proof {
            assert(clips@.take(i + 1).drop_last() =~= clips@.take(i as int));
            assert(clips@.take(i + 1).last() == clips@[i as int]);
            lemma_find_asset(pool, clips@[i as int].asset_id);
        }
        match position_of_asset(&project.media_pool, c.asset_id) {
            Some(k) => {
                let seg = make_segment(c, &project.media_pool[k]);
                out.push(seg);
                assert(segment_views(out@) =~= segments_of_clips(clips@.take(i + 1), pool));
            },
            None => {},
        }
        i = i + 1;
    }
    assert(clips@.take(n as int) =~= clips@);
    out
}

/// What reading a worker's channel gave: a message, nothing yet, or the
/// news that the worker is gone.
pub enum ChannelEvent<T> {
    Message(T),
    Empty,
    Disconnected,
}

/// What the application does with a channel after an event.
#[derive(Debug, Clone, Copy, PartialEq, Eq, Structural)]
pub enum PollAction {
    /// Read the channel again now (repainting while work goes on).
    ReadAgain,
    /// Keep the channel and read it again on the next frame.
    Wait,
    /// Drop the channel (and the worker's handle): no more messages come.
    Close,
}

/// `s` holds a status message with the text `text`.
pub open spec fn status_is(s: Option<String>, text: Seq<char>) -> bool {
    s matches Some(m) && m@ == text
}

/// The export job for project `p` with the given output path, format and
/// quality: its segments (see [`export_segments_of`]) and the project's
/// frame rate and resolution.
pub open spec fn is_export_job_for(
    job: ExportJob,
    p: ProjectView,
    output_path: Seq<char>,
    a: VidCutApp,
) -> bool {
    &&& segment_views(job.segments@) == export_segments_of(p)
    &&& job.output_path@ == output_path
    &&& job.format == a.export_format
    &&& job.quality == a.export_quality
    &&& job.fps == p.settings.fps
    &&& job.width == p.settings.width
    &&& job.height == p.settings.height
}

/// Whether the ffmpeg setup has reached an end: ready or failed.
pub open spec fn setup_finished(s: FfmpegStatus) -> bool {
    s is Ready || s is Failed
}

impl VidCutApp {
    /// Open the export dialog, clearing the last status message unless an
    /// export is running.
    pub fn action_export(&mut self)
        ensures
            *final(self) == (VidCutApp {
                export_dialog_open: true,
                export_status: if old(self).export_progress is None {
                    None
                } else {
                    old(self).export_status
                },
                ..*old(self)
            }),
    {
        if self.export_progress.is_none() {
            self.export_status = None;
        }
        self.export_dialog_open = true;
    }

    /// Build the export job from the open project and plan its ffmpeg run.
    ///
    /// Without an output path, without a project, or with no clip to export
    /// (every clip's asset missing from the media pool), nothing starts and
    /// the status says why.  Otherwise the job and its plan are returned for
    /// the application to run, and nothing else changes yet.
    pub fn action_start_export(&mut self) -> (r: Option<(ExportJob, ExportPlan)>)
        ensures
            *final(self) == (VidCutApp { export_status: final(self).export_status, ..*old(self) }),
            match (old(self).export_output_path, old(self).project) {
                (None, _) => r is None && status_is(
                    final(self).export_status,
                    "\u{2717} No output path selected."@,
                ),
                (Some(_), None) => r is None && status_is(
                    final(self).export_status,
                    "\u{2717} No project open."@,
                ),
                (Some(path), Some(p)) => if export_segments_of(p@).len() == 0 {
                    r is None && status_is(
                        final(self).export_status,
                        "\u{2717} Timeline is empty \u{2014} add some clips first."@,
                    )
                } else {
                    &&& final(self).export_status == old(self).export_status
                    &&& r matches Some((job, plan))
                    &&& is_export_job_for(job, p@, path@, *old(self))
                    &&& texts(plan.args@) == export_args(job)
                    &&& plan.monitor.total == total_duration(job.segments@)
                    &&& plan.monitor.last == 0
                },
            },
    {
        let output_path = match &self.export_output_path {
            Some(p) => p.clone(),
            None => {
                self.export_status = Some("\u{2717} No output path selected.".to_owned());
                return None;
            },
        };
        let project = match &self.project {
            Some(p) => p,
            None => {
                self.export_status = Some("\u{2717} No project open.".to_owned());
                return None;
            },
        };
        let segments = export_segments(project);
        if segments.len() == 0 {
            assert(export_segments_of(project@).len() == 0);
            self.export_status = Some(
                "\u{2717} Timeline is empty \u{2014} add some clips first.".to_owned(),
            );
            return None;
        }
        let job = ExportJob {
            segments,
            output_path,
            format: self.export_format,
            quality: self.export_quality,
            fps: project.settings.fps,
            width: project.settings.width,
            height: project.settings.height,
        };
        match plan_export(&job) {
            Ok(plan) => Some((job, plan)),
            Err(_) => None,
        }
    }

    /// Record whether the export's ffmpeg process could be started: when it
    /// was, the progress shows `Starting…` and the status is cleared;
    /// otherwise the status shows the error.
    pub fn on_export_launched(&mut self, launched: Result<(), String>)
        ensures
            match launched {
                Ok(()) => {
                    &&& *final(self) == (VidCutApp {
                        export_progress: final(self).export_progress,
                        export_status: None,
                        ..*old(self)
                    })
                    &&& final(self).export_progress matches Some((0, m)) && m@ == "Starting\u{2026}"@
                },
                Err(e) => {
                    &&& *final(self) == (VidCutApp { export_status: final(self).export_status, ..*old(self) })
                    &&& status_is(final(self).export_status, "\u{2717} "@ + e@)
                },
            },
    {
        match launched {
            Ok(()) => {
                self.export_progress = Some((0, "Starting\u{2026}".to_owned()));
                self.export_status = None;
            },
            Err(e) => {
                let mut m = "\u{2717} ".to_owned();
                m.append(e.as_str());
                self.export_status = Some(m);
            },
        }
    }

    /// The running export was cancelled: no progress, and the status says so.
    pub fn action_cancel_export(&mut self)
        ensures
            *final(self) == (VidCutApp {
                export_progress: None,
                export_status: final(self).export_status,
                ..*old(self)
            }),
            status_is(final(self).export_status, "Export cancelled."@),
    {
        self.export_progress = None;
        self.export_status = Some("Export cancelled.".to_owned());
    }

    /// Take one event of the export's progress channel.  A progress update
    /// is shown and the channel read again; an outcome ends the export with
    /// its status message (a cancelled export keeps a message already
    /// shown); a vanished worker ends it silently; no message waits.
    pub fn poll_export_progress(&mut self, event: ChannelEvent<ExportProgress>) -> (r: PollAction)
        ensures
            match event {
                ChannelEvent::Message(ExportProgress::Progress { permyriad, message }) => {
                    &&& *final(self) == (VidCutApp {
                        export_progress: Some((permyriad, message)),
                        ..*old(self)
                    })
                    &&& r == PollAction::ReadAgain
                },
                ChannelEvent::Message(ExportProgress::Done { output_path }) => {
                    &&& *final(self) == (VidCutApp {
                        export_progress: None,
                        export_status: final(self).export_status,
                        ..*old(self)
                    })
                    &&& status_is(final(self).export_status, "\u{2713} Export complete: "@ + output_path@)
                    &&& r == PollAction::Close
                },
                ChannelEvent::Message(ExportProgress::Failed { message }) => {
                    &&& *final(self) == (VidCutApp {
                        export_progress: None,
                        export_status: final(self).export_status,
                        ..*old(self)
                    })
                    &&& status_is(final(self).export_status, "\u{2717} Export failed: "@ + message@)
                    &&& r == PollAction::Close
                },
                ChannelEvent::Message(ExportProgress::Cancelled) => {
                    &&& *final(self) == (VidCutApp {
                        export_progress: None,
                        export_status: final(self).export_status,
                        ..*old(self)
                    })
                    &&& if old(self).export_status is None {
                        status_is(final(self).export_status, "Export cancelled."@)
                    } else {
                        final(self).export_status == old(self).export_status
                    }
                    &&& r == PollAction::Close
                },
                ChannelEvent::Empty => *final(self) == *old(self) && r == PollAction::Wait,
                ChannelEvent::Disconnected => {
                    &&& *final(self) == (VidCutApp { export_progress: None, ..*old(self) })
                    &&& r == PollAction::Close
                },
            },
    {
        match event {
            ChannelEvent::Message(ExportProgress::Progress { permyriad, message }) => {
                self.export_progress = Some((permyriad, message));
                PollAction::ReadAgain
            },
            ChannelEvent::Message(ExportProgress::Done { output_path }) => {
                self.export_progress = None;
                let mut m = "\u{2713} Export complete: ".to_owned();
                m.append(output_path.as_str());
                self.export_status = Some(m);
                PollAction::Close
            },
            ChannelEvent::Message(ExportProgress::Failed { message }) => {
                self.export_progress = None;
                let mut m = "\u{2717} Export failed: ".to_owned();
                m.append(message.as_str());
                self.export_status = Some(m);
                PollAction::Close
            },
            ChannelEvent::Message(ExportProgress::Cancelled) => {
                self.export_progress = None;
                if self.export_status.is_none() {
                    self.export_status = Some("Export cancelled.".to_owned());
                }
                PollAction::Close
            },
            ChannelEvent::Empty => PollAction::Wait,
            ChannelEvent::Disconnected => {
                self.export_progress = None;
                PollAction::Close
            },
        }
    }

    /// Take one event of the ffmpeg setup channel.  A status is shown; once
    /// it is final (ready or failed) the channel is dropped, otherwise it is
    /// read again.  A vanished worker that left no final status counts as
    /// a failure.
    pub fn poll_ffmpeg_status(&mut self, event: ChannelEvent<FfmpegStatus>) -> (r: PollAction)
        ensures
            match event {
                ChannelEvent::Message(st) => {
                    &&& *final(self) == (VidCutApp { ffmpeg_status: st, ..*old(self) })
                    &&& r == if setup_finished(st) {
                        PollAction::Close
                    } else {
                        PollAction::ReadAgain
                    }
                },
                ChannelEvent::Empty => *final(self) == *old(self) && r == PollAction::Wait,
                ChannelEvent::Disconnected => {
                    &&& *final(self) == (VidCutApp { ffmpeg_status: final(self).ffmpeg_status, ..*old(self) })
                    &&& if setup_finished(old(self).ffmpeg_status) {
                        final(self).ffmpeg_status == old(self).ffmpeg_status
                    } else {
                        final(self).ffmpeg_status matches FfmpegStatus::Failed(m)
                            && m@ == "FFmpeg setup thread exited unexpectedly."@
                    }
                    &&& r == PollAction::Close
                },
            },
    {
        match event {
            ChannelEvent::Message(st) => {
                let done = match &st {
                    FfmpegStatus::Ready | FfmpegStatus::Failed(_) => true,
                    _ => false,
                };
                self.ffmpeg_status = st;
                if done {
                    PollAction::Close
                } else {
                    PollAction::ReadAgain
                }
            },
            ChannelEvent::Empty => PollAction::Wait,
            ChannelEvent::Disconnected => {
                let done = match &self.ffmpeg_status {
                    FfmpegStatus::Ready | FfmpegStatus::Failed(_) => true,
                    _ => false,
                };
                if !done {
                    self.ffmpeg_status = FfmpegStatus::Failed(
                        "FFmpeg setup thread exited unexpectedly.".to_owned(),
                    );
                }
                PollAction::Close
            },
        }
    }

    /// Start the ffmpeg setup over (the application starts a new worker).
    pub fn action_retry_ffmpeg_setup(&mut self)
        ensures
            *final(self) == (VidCutApp { ffmpeg_status: FfmpegStatus::Checking, ..*old(self) }),
    {
        self.ffmpeg_status = FfmpegStatus::Checking;
    }
}

/// A decoded frame delivered from the background extraction thread.
pub struct PreviewFrame {
    /// The frame index this result corresponds to.
    pub frame_index: u64,
    /// The decoded RGBA frame (None if extraction failed).
    pub frame: Option<DecodedFrame>,
}

/// What the preview should do on this frame of the interface.
#[derive(Debug)]
pub enum PreviewRequest {
    /// Nothing: ffmpeg is not ready, a request is in flight, there is no
    /// project or asset, or the frame is already shown.
    Nothing,
    /// Too soon after the last request: repaint and ask again.
    RetryLater,
    /// No video clip is under the playhead: clear the preview.
    Clear,
    /// Extract frame `frame_index` of the file at `source_path`, at
    /// `source_time` ticks into it.
    Extract { frame_index: u64, source_path: String, source_time: i64 },
}

/// The index of the frame at `playhead` ticks for a frame rate of `fps`
/// (at least 1): the playhead in frames, rounded down, and kept within the
/// range of `u64`.
pub open spec fn frame_index_at(playhead: i64, fps: u32) -> u64 {
    let f = if fps < 1 { 1 } else { fps as int };
    let k = playhead * f / (TICKS_PER_SECOND as int);
    if k < 0 {
        0
    } else if k > u64::MAX {
        u64::MAX
    } else {
        k as u64
    }
}

/// The first clip of `clips` whose span contains the time `t`.
pub open spec fn first_clip_at(clips: Seq<Clip>, t: int) -> Option<Clip>
    decreases clips.len(),
{
    if clips.len() == 0 {
        None
    } else if clips[0].timeline_start <= t < clips[0].timeline_end {
        Some(clips[0])
    } else {
        first_clip_at(clips.drop_first(), t)
    }
}

/// The clip shown at time `t`: looking at the video tracks from the last
/// (topmost) down, the first clip of the first track that has one there.
pub open spec fn topmost_video_clip(tracks: Seq<TrackView>, t: int) -> Option<Clip>
    decreases tracks.len(),
{
    if tracks.len() == 0 {
        None
    } else {
        let top = tracks.last();
        match (if top.track_type == TrackType::Video { first_clip_at(top.clips, t) } else { None }) {
            Some(c) => Some(c),
            None => topmost_video_clip(tracks.drop_last(), t),
        }
    }
}

fn first_clip_index_at(clips: &Vec<Clip>, t: i64) -> (r: Option<usize>)
    ensures
        match r {
            Some(j) => j < clips@.len() && first_clip_at(clips@, t as int) == Some(clips@[j as int]),
            None => first_clip_at(clips@, t as int) is None,
        },
{
    let n = clips.len();
    let mut j: usize = 0;
    assert(clips@.subrange(0, n as int) =~= clips@);
    while j < n
        invariant
            n == clips@.len(),
            j <= n,
            first_clip_at(clips@, t as int) == first_clip_at(clips@.subrange(j as int, n as int), t as int),
        decreases n - j,
    {
        let c = &clips[j];
        if c.timeline_start <= t && t < c.timeline_end {
            assert(clips@.subrange(j as int, n as int)[0] == clips@[j as int]);
            return Some(j);
        }
        assert(clips@.subrange(j as int, n as int).drop_first() =~= clips@.subrange(j + 1, n as int));
        j = j + 1;
    }
    None
}

fn find_topmost_video_clip(tracks: &Vec<Track>, t: i64) -> (r: Option<Clip>)
    ensures
        r == topmost_video_clip(tracks@.map_values(|tr: Track| tr@), t as int),
{
    let ghost tv = tracks@.map_values(|tr: Track| tr@);
    let mut i = tracks.len();
    assert(tv.take(i as int) =~= tv);
    while i > 0
        invariant
            i <= tracks@.len(),
            tv == tracks@.map_values(|tr: Track| tr@),
            topmost_video_clip(tv, t as int) == topmost_video_clip(tv.take(i as int), t as int),
        decreases i,
    {
        let track = &tracks[i - 1];
        assert(tv.take(i as int).last() == track@);
        assert(tv.take(i as int).drop_last() =~= tv.take(i - 1));
        if track.track_type == TrackType::Video {
            match first_clip_index_at(&track.clips, t) {
                Some(j) => {
                    return Some(track.clips[j]);
                },
                None => {},
            }
        }
        i = i - 1;
    }
    None
}

/// A value of `t` kept within the range of `i64`.
fn clamp_to_i64(t: i128) -> (r: i64)
    ensures
        r == clamp_i64(t as int),
{
    if t < i64::MIN as i128 {
        i64::MIN
    } else if t > i64::MAX as i128 {
        i64::MAX
    } else {
        t as i64
    }
}

/// The asset type an imported file of probed kind gets: unknown files are
/// taken for video.
pub open spec fn asset_type_of(k: AssetKind) -> AssetType {
    match k {
        AssetKind::Video => AssetType::Video,
        AssetKind::Audio => AssetType::Audio,
        AssetKind::Image => AssetType::Image,
        AssetKind::Unknown => AssetType::Video,
    }
}

/// `n` when positive, else nothing.
pub open spec fn positive(n: u32) -> Option<u32> {
    if n > 0 {
        Some(n)
    } else {
        None
    }
}

/// `a` is the asset an import of `path` with probed metadata `info` adds:
/// named after the file, with the probed duration, kind, and the size and
/// frame rate where they are positive, under a fresh random id.
pub open spec fn is_imported_asset(a: MediaAssetView, path: Seq<char>, info: MediaInfo) -> bool {
    &&& a.path == path
    &&& a.name == default_asset_name(path)
    &&& a.duration == info.duration
    &&& a.asset_type == asset_type_of(info.kind)
    &&& a.width == positive(info.width)
    &&& a.height == positive(info.height)
    &&& a.fps_milli == positive(info.fps_milli)
    &&& is_v4_layout(a.id)
}

fn imported_asset(path: String, info: MediaInfo) -> (a: MediaAsset)
    ensures
        is_imported_asset(a@, path@, info),
{
    let asset_type = match info.kind {
        AssetKind::Video => AssetType::Video,
        AssetKind::Audio => AssetType::Audio,
        AssetKind::Image => AssetType::Image,
        AssetKind::Unknown => AssetType::Video,
    };
    MediaAsset::new(
        path,
        asset_type,
        info.duration,
        if info.width > 0 {
            Some(info.width)
        } else {
            None
        },
        if info.height > 0 {
            Some(info.height)
        } else {
            None
        },
        if info.fps_milli > 0 {
            Some(info.fps_milli)
        } else {
            None
        },
    )
}

impl VidCutApp {
    /// Decide what the preview does, given whether an extraction is in
    /// flight, the index of the frame shown, and whether a request now
    /// would come too soon after the last one.
    ///
    /// Nothing happens while ffmpeg is not ready, while a request is in
    /// flight, without a project, or when the frame under the playhead is
    /// the one shown; too soon, the request is retried later.  Otherwise
    /// the topmost video clip under the playhead is looked up: without one
    /// the preview is cleared; with one whose asset is in the media pool,
    /// its frame is extracted at the matching time in the source.
    pub fn request_preview_frame(&self, in_flight: bool, shown: Option<u64>, throttled: bool) -> (r: PreviewRequest)
        ensures
            match self.project {
                None => r is Nothing,
                Some(p) => {
                    let idx = frame_index_at(self.playhead, p.settings.fps);
                    if !(self.ffmpeg_status is Ready) || in_flight || shown == Some(idx) {
                        r is Nothing
                    } else if throttled {
                        r is RetryLater
                    } else {
                        match topmost_video_clip(p@.timeline.tracks, self.playhead as int) {
                            None => r is Clear,
                            Some(c) => match find_asset(p@.media_pool, c.asset_id) {
                                None => r is Nothing,
                                Some(k) => r matches PreviewRequest::Extract {
                                    frame_index,
                                    source_path,
                                    source_time,
                                } && frame_index == idx && source_path@ == p@.media_pool[k].path
                                    && source_time == clamp_i64(
                                    c.source_start + (self.playhead - c.timeline_start),
                                ),
                            },
                        }
                    }
                },
            },
    {
        let ready = match &self.ffmpeg_status {
            FfmpegStatus::Ready => true,
            _ => false,
        };
        if !ready || in_flight {
            return PreviewRequest::Nothing;
        }
        let project = match &self.project {
            Some(p) => p,
            None => return PreviewRequest::Nothing,
        };
        let fps: i128 = if project.settings.fps < 1 {
            1
        } else {
            project.settings.fps as i128
        };
        let ph: i128 = self.playhead as i128;
        assert(-0x1_0000_0000_0000_0000_0000_0000 <= ph * fps <= 0x1_0000_0000_0000_0000_0000_0000)
            by (nonlinear_arith)
            requires
                -0x8000_0000_0000_0000 <= ph <= 0x8000_0000_0000_0000,
                1 <= fps <= 0x1_0000_0000,
        ;
        let k: i128 = ph * fps / (TICKS_PER_SECOND as i128);
        let frame_index: u64 = if k < 0 {
            0
        } else if k > u64::MAX as i128 {
            u64::MAX
        } else {
            k as u64
        };
        assert(frame_index == frame_index_at(self.playhead, project.settings.fps));
        match shown {
            Some(s) => {
                if s == frame_index {
                    return PreviewRequest::Nothing;
                }
            },
            None => {},
        }
        if throttled {
            return PreviewRequest::RetryLater;
        }
        let clip = match find_topmost_video_clip(&project.timeline.tracks, self.playhead) {
            Some(c) => c,
            None => return PreviewRequest::Clear,
        };
        proof {
            lemma_find_asset(project@.media_pool, clip.asset_id);
        }
        let k = match position_of_asset(&project.media_pool, clip.asset_id) {
            Some(k) => k,
            None => return PreviewRequest::Nothing,
        };
        let source_time = clamp_to_i64(
            clip.source_start as i128 + (self.playhead as i128 - clip.timeline_start as i128),
        );
        PreviewRequest::Extract {
            frame_index,
            source_path: project.media_pool[k].path.clone(),
            source_time,
        }
    }

    /// Add the probed files to the media pool, in order, creating an
    /// untitled project first if none is open.  With no file nothing
    /// changes.
    pub fn action_import_media(&mut self, files: Vec<(String, MediaInfo)>)
        ensures
            files@.len() == 0 ==> *final(self) == *old(self),
            files@.len() > 0 ==> {
                let p0 = project_or_untitled(project_view(old(self).project));
                &&& *final(self) == (VidCutApp { project: final(self).project, ..*old(self) })
                &&& final(self).project matches Some(p) && {
                    &&& p@.name == p0.name
                    &&& p@.settings == p0.settings
                    &&& p@.timeline == p0.timeline
                    &&& p@.media_pool.len() == p0.media_pool.len() + files@.len()
                    &&& p@.media_pool.subrange(0, p0.media_pool.len() as int) == p0.media_pool
                    &&& forall|k: int|
                        0 <= k < files@.len() ==> is_imported_asset(
                            #[trigger] p@.media_pool[p0.media_pool.len() + k],
                            files@[k].0@,
                            files@[k].1,
                        )
                }
            },
    {
        if files.len() == 0 {
            return;
        }
        let n = files.len();
        let mut assets: Vec<MediaAsset> = Vec::new();
        let mut i: usize = 0;
        while i < n
            invariant
                n == files@.len(),
                i <= n,
                assets@.len() == i,
                forall|k: int| 0 <= k < i ==> is_imported_asset(#[trigger] assets@[k]@, files@[k].0@, files@[k].1),
            decreases n - i,
        {
            let path = files[i].0.clone();
            let info = files[i].1;
            assets.push(imported_asset(path, info));
            i = i + 1;
        }
        let ghost p0 = project_or_untitled(project_view(old(self).project));
        let project = self.ensure_project();
        let ghost before = project.media_pool@;
        let ghost added = assets@;
        project.media_pool.append(&mut assets);
        proof {
            let pool = project@.media_pool;
            assert(pool.subrange(0, p0.media_pool.len() as int) =~= p0.media_pool);
            assert forall|k: int| 0 <= k < files@.len() implies is_imported_asset(
                #[trigger] pool[p0.media_pool.len() + k],
                files@[k].0@,
                files@[k].1,
            ) by {
                assert(project.media_pool@[before.len() + k] == added[k]);
            }
        }
    }

    /// Show a project read from disk: it replaces the open one, with an
    /// empty history and the playhead stopped at the start.
    pub fn action_open_project(&mut self, loaded: Project)
        ensures
            *final(self) == (VidCutApp {
                project: Some(loaded),
                history: final(self).history,
                playhead: 0,
                is_playing: false,
                ..*old(self)
            }),
            final(self).history@.commands.len() == 0,
            final(self).history@.cursor == 0,
            history_wf(final(self).history@),
    {
        self.project = Some(loaded);
        self.history = CommandHistory::new();
        self.playhead = 0;
        self.is_playing = false;
    }
}

/// `export.<extension>`, the file name the export dialog suggests.
pub fn default_export_name(format: OutputFormat) -> (r: String)
    ensures
        r@ == "export."@ + format_extension(format),
{
    let mut r = "export.".to_owned();
    r.append(format.extension());
    r
}

/// How a status message of the export dialog is shown.
#[derive(Debug, Clone, Copy, PartialEq, Eq, Structural)]
pub enum StatusKind {
    /// Starts with `✓`.
    Success,
    /// Starts with `✗` or `⚠`.
    Error,
    /// Anything else.
    Neutral,
}

/// The kind of a status message, by its first character.
pub open spec fn status_kind_of(s: Seq<char>) -> StatusKind {
    if s.len() > 0 && s[0] == '\u{2713}' {
        StatusKind::Success
    } else if s.len() > 0 && (s[0] == '\u{2717}' || s[0] == '\u{26a0}') {
        StatusKind::Error
    } else {
        StatusKind::Neutral
    }
}

/// The kind of the status message `status` (see [`status_kind_of`]).
pub fn status_kind(status: &str) -> (r: StatusKind)
    ensures
        r == status_kind_of(status@),
{
    if status.unicode_len() == 0 {
        return StatusKind::Neutral;
    }
    let c = status.get_char(0);
    if c == '\u{2713}' {
        StatusKind::Success
    } else if c == '\u{2717}' || c == '\u{26a0}' {
        StatusKind::Error
    } else {
        StatusKind::Neutral
    }
}

impl VidCutApp {
    /// Whether the export button is enabled: an output path is chosen and
    /// the open project has at least one track.
    pub fn can_start_export(&self) -> (r: bool)
        ensures
            r == (self.export_output_path is Some && match self.project {
                Some(p) => p@.timeline.tracks.len() > 0,
                None => false,
            }),
    {
        self.export_output_path.is_some() && match &self.project {
            Some(p) => p.timeline.tracks.len() > 0,
            None => false,
        }
    }
}

} // verus!
