//! `VidCutApp` — the editing state of the application: the open project,
//! the undo/redo history, the playhead and transport, the selection and the
//! clip being dragged, with the actions the user interface performs on them.
//!
//! The window, the textures and the background workers live in the
//! application around this state.

use vstd::prelude::*;

use crate::clip::Clip;
use crate::clip_order::position_of_clip;
use crate::commands::add_clip::{clip_added, AddClipCommand};
use crate::commands::delete_clip::DeleteClipCommand;
use crate::commands::edit::EditCommand;
use crate::commands::move_clip::MoveClipCommand;
use crate::commands::trim_clip::{ClipBounds, TrimClipCommand};
use crate::commands::{
    history_pushed, history_redo, history_undo, history_wf, Command, CommandHistory,
};
use crate::ids::{is_v4_layout, new_id};
use crate::media::encoder::{OutputFormat, QualityPreset};
use crate::media::ffmpeg_manager::FfmpegStatus;
use crate::media_asset::{AssetType, MediaAsset, MediaAssetView};
use crate::project::{Project, ProjectSettings, ProjectView};
use crate::text::{decimal, push_decimal};
use crate::time::{sat_add, spec_max, spec_sat_add, TICKS_PER_SECOND};
use crate::timeline::{clips_max_end, max_clip_end, TimelineView};
use crate::track::{Track, TrackType, TrackView};

verus! {

/// Temporary state while a clip body is being moved on the timeline.
#[derive(Debug, Clone, Copy)]
pub struct DragState {
    pub clip_id: u128,
    pub track_id: u128,
    pub original_start: i64,
    pub duration: i64,
    /// Current uncommitted start position (updated every frame during drag).
    pub current_start: i64,
}

/// Which edge of a clip is being trimmed.
#[derive(Debug, Clone, Copy, PartialEq, Eq, Structural)]
pub enum TrimEdge {
    Left,
    Right,
}

/// Temporary state while trimming a clip edge.
#[derive(Debug, Clone, Copy)]
pub struct TrimDragState {
    pub clip_id: u128,
    pub track_id: u128,
    pub edge: TrimEdge,
    pub orig_timeline_start: i64,
    pub orig_timeline_end: i64,
    pub orig_source_start: i64,
    pub orig_source_end: i64,
    pub cur_timeline_start: i64,
    pub cur_timeline_end: i64,
    pub cur_source_start: i64,
    pub cur_source_end: i64,
}

/// Root editing state.
pub struct VidCutApp {
    /// Currently open project.
    pub project: Option<Project>,
    /// Undo/redo command history (operates on the project's timeline).
    pub history: CommandHistory<EditCommand>,
    /// Current playhead position in ticks.
    pub playhead: i64,
    /// Whether the timeline is currently playing.
    pub is_playing: bool,
    /// Playback speed in quarters of normal speed (4 = normal; negative =
    /// reverse; 0 = paused by the K key).
    pub playback_speed: i32,
    /// The asset currently highlighted in the Media Browser.
    pub selected_asset_id: Option<u128>,
    /// The clip currently selected on the timeline.
    pub selected_clip_id: Option<u128>,
    /// While dragging a clip body, stores clip move state.
    pub dragging: Option<DragState>,
    /// While dragging a clip trim handle.
    pub trim_dragging: Option<TrimDragState>,
    /// Whether the export dialog is currently visible.
    pub export_dialog_open: bool,
    /// Chosen output path for the next / current export.
    pub export_output_path: Option<String>,
    /// Selected container format.
    pub export_format: OutputFormat,
    /// Selected quality preset.
    pub export_quality: QualityPreset,
    /// Progress in ten-thousandths and the last status line, while an
    /// export is running.
    pub export_progress: Option<(u32, String)>,
    /// Last completed status message (success / error / cancelled).
    pub export_status: Option<String>,
    /// Current state of the ffmpeg setup.
    pub ffmpeg_status: FfmpegStatus,
}

/// The export and ffmpeg setup state of `a` and `b` agree.
pub open spec fn same_jobs(a: VidCutApp, b: VidCutApp) -> bool {
    &&& a.export_dialog_open == b.export_dialog_open
    &&& a.export_output_path == b.export_output_path
    &&& a.export_format == b.export_format
    &&& a.export_quality == b.export_quality
    &&& a.export_progress == b.export_progress
    &&& a.export_status == b.export_status
    &&& a.ffmpeg_status == b.ffmpeg_status
}

/// The name a project gets when none is given.
pub open spec fn untitled_name() -> Seq<char> {
    "Untitled Project"@
}

/// A fresh project named "Untitled Project" with default settings.
pub open spec fn is_fresh_untitled(p: ProjectView) -> bool {
    &&& p.name == untitled_name()
    &&& p.settings.fps == 30 && p.settings.width == 1920 && p.settings.height == 1080
        && p.settings.sample_rate == 48_000
    &&& p.timeline.tracks.len() == 0
    &&& p.timeline.duration == 0
    &&& p.media_pool.len() == 0
}

/// The project an untitled start gives: named "Untitled Project", default
/// settings, no tracks, duration 0 and no media.
pub open spec fn untitled_project() -> ProjectView {
    ProjectView {
        name: untitled_name(),
        settings: ProjectSettings { fps: 30, width: 1920, height: 1080, sample_rate: 48_000 },
        timeline: TimelineView { tracks: Seq::empty(), duration: 0 },
        media_pool: Seq::empty(),
    }
}

/// `p` itself, or the untitled project when there is none.
pub open spec fn project_or_untitled(p: Option<ProjectView>) -> ProjectView {
    match p {
        Some(q) => q,
        None => untitled_project(),
    }
}

/// `tl` with a new empty video track with id `tid` appended, named after the
/// number of video tracks it then has.
pub open spec fn video_track_added(tl: TimelineView, tid: u128) -> TimelineView {
    TimelineView {
        tracks: tl.tracks.push(
            TrackView {
                id: tid,
                name: track_name(TrackType::Video, count_video_tracks(tl.tracks) + 1),
                track_type: TrackType::Video,
                clips: Seq::empty(),
                muted: false,
                locked: false,
            },
        ),
        duration: tl.duration,
    }
}

/// The view of the open project, if any.
pub open spec fn project_view(p: Option<Project>) -> Option<ProjectView> {
    match p {
        Some(q) => Some(q@),
        None => None,
    }
}

/// The track type an asset of type `t` goes on.
pub open spec fn track_type_for(t: AssetType) -> TrackType {
    match t {
        AssetType::Video | AssetType::Image => TrackType::Video,
        AssetType::Audio => TrackType::Audio,
    }
}

/// The name given to the track created as track number `n`.
pub open spec fn track_name(t: TrackType, n: nat) -> Seq<char> {
    match t {
        TrackType::Video => "Video "@ + decimal(n),
        TrackType::Audio => "Audio "@ + decimal(n),
    }
}

/// Index of the first track of type `t`, if any.
pub open spec fn find_track_of_type(tracks: Seq<TrackView>, t: TrackType) -> Option<int>
    decreases tracks.len(),
{
    if tracks.len() == 0 {
        None
    } else if tracks[0].track_type == t {
        Some(0)
    } else {
        match find_track_of_type(tracks.drop_first(), t) {
            Some(k) => Some(k + 1),
            None => None,
        }
    }
}

/// Index of the first asset of `pool` whose id is `id`, if any.
pub open spec fn find_asset(pool: Seq<MediaAssetView>, id: u128) -> Option<int>
    decreases pool.len(),
{
    if pool.len() == 0 {
        None
    } else if pool[0].id == id {
        Some(0)
    } else {
        match find_asset(pool.drop_first(), id) {
            Some(k) => Some(k + 1),
            None => None,
        }
    }
}

/// The timeline `tl` after making sure a track of type `t` exists: unchanged
/// when there is one; otherwise with a new empty track of that type appended,
/// with id `new_track_id` and named after its position.
pub open spec fn with_track_of_type(tl: TimelineView, t: TrackType, new_track_id: u128) -> TimelineView {
    match find_track_of_type(tl.tracks, t) {
        Some(_) => tl,
        None => TimelineView {
            tracks: tl.tracks.push(
                TrackView {
                    id: new_track_id,
                    name: track_name(t, tl.tracks.len() + 1),
                    track_type: t,
                    clips: Seq::empty(),
                    muted: false,
                    locked: false,
                },
            ),
            duration: tl.duration,
        },
    }
}

/// At least one second: the length a clip of `asset` gets on the timeline.
pub open spec fn placed_duration(asset: MediaAssetView) -> int {
    spec_max(asset.duration as int, TICKS_PER_SECOND as int)
}

/// The clip with id `clip_id` that places `asset` after the last clip of
/// the first track of the matching type in `tl` (a timeline that has one).
pub open spec fn clip_for_asset(tl: TimelineView, asset: MediaAssetView, clip_id: u128) -> Clip {
    let k = find_track_of_type(tl.tracks, track_type_for(asset.asset_type))->0;
    let start = clips_max_end(tl.tracks[k].clips) as i64;
    let dur = placed_duration(asset) as i64;
    Clip {
        id: clip_id,
        asset_id: asset.id,
        track_id: tl.tracks[k].id,
        timeline_start: start,
        timeline_end: spec_sat_add(start as int, dur as int) as i64,
        source_start: 0,
        source_end: dur,
    }
}

/// The first clip, over the tracks in order and the clips of each in order,
/// whose id is `id`.
pub open spec fn find_clip_in_tracks(tracks: Seq<TrackView>, id: u128) -> Option<Clip>
    decreases tracks.len(),
{
    if tracks.len() == 0 {
        None
    } else {
        match crate::clip_order::find_clip(tracks[0].clips, id) {
            Some(k) => Some(tracks[0].clips[k]),
            None => find_clip_in_tracks(tracks.drop_first(), id),
        }
    }
}

/// The number of video tracks among `tracks`.
pub open spec fn count_video_tracks(tracks: Seq<TrackView>) -> nat
    decreases tracks.len(),
{
    if tracks.len() == 0 {
        0
    } else {
        count_video_tracks(tracks.drop_last()) + if tracks.last().track_type == TrackType::Video {
            1nat
        } else {
            0nat
        }
    }
}

/// The fields that editing actions leave alone: transport, selection, drags.
pub open spec fn same_transport(a: VidCutApp, b: VidCutApp) -> bool {
    &&& a.playhead == b.playhead
    &&& a.is_playing == b.is_playing
    &&& a.playback_speed == b.playback_speed
    &&& a.selected_asset_id == b.selected_asset_id
    &&& a.dragging == b.dragging
    &&& a.trim_dragging == b.trim_dragging
}

/// The editing state is well formed: the history cursor lies within its stack.
pub open spec fn app_wf(a: VidCutApp) -> bool {
    history_wf(a.history@)
}

impl VidCutApp {
    /// The initial state: no project, empty history, playhead at 0, stopped
    /// at normal speed, nothing selected or dragged.
    pub fn new() -> (a: Self)
        ensures
            a.project is None,
            a.history@.commands.len() == 0,
            a.history@.cursor == 0,
            a.playhead == 0,
            !a.is_playing,
            a.playback_speed == 4,
            a.selected_asset_id is None,
            a.selected_clip_id is None,
            a.dragging is None,
            a.trim_dragging is None,
            !a.export_dialog_open,
            a.export_output_path is None,
            a.export_format == OutputFormat::Mp4,
            a.export_quality == QualityPreset::Medium,
            a.export_progress is None,
            a.export_status is None,
            a.ffmpeg_status is Checking,
            app_wf(a),
    {
        Self {
            project: None,
            history: CommandHistory::new(),
            playhead: 0,
            is_playing: false,
            playback_speed: 4,
            selected_asset_id: None,
            selected_clip_id: None,
            dragging: None,
            trim_dragging: None,
            export_dialog_open: false,
            export_output_path: None,
            export_format: OutputFormat::Mp4,
            export_quality: QualityPreset::Medium,
            export_progress: None,
            export_status: None,
            ffmpeg_status: FfmpegStatus::Checking,
        }
    }

    /// Returns the current project, creating an untitled one if absent.
    pub fn ensure_project(&mut self) -> (p: &mut Project)
        ensures
            same_jobs(*final(self), *old(self)),
            p@ == project_or_untitled(project_view(old(self).project)),
            final(self).project == Some(*final(p)),
            final(self).history == old(self).history,
            final(self).selected_clip_id == old(self).selected_clip_id,
            same_transport(*final(self), *old(self)),
    {
        if self.project.is_none() {
            let p = Project::new("Untitled Project".to_owned());
            assert(p@ =~= untitled_project());
            self.project = Some(p);
        }
        self.project.as_mut().unwrap()
    }

    /// The playhead position, in ticks.
    pub fn playhead_secs(&self) -> (r: i64)
        ensures
            r == self.playhead,
    {
        self.playhead
    }

    pub fn is_playing(&self) -> (r: bool)
        ensures
            r == self.is_playing,
    {
        self.is_playing
    }

    pub fn can_undo(&self) -> (r: bool)
        ensures
            r == (self.history@.cursor > 0),
    {
        self.history.can_undo()
    }

    pub fn can_redo(&self) -> (r: bool)
        ensures
            r == (self.history@.cursor < self.history@.commands.len()),
    {
        self.history.can_redo()
    }

    /// The assets of the open project (none without a project).
    pub fn media_pool(&self) -> (r: &[MediaAsset])
        ensures
            r@ == match self.project {
                Some(p) => p.media_pool@,
                None => Seq::<MediaAsset>::empty(),
            },
    {
        match &self.project {
            Some(p) => p.media_pool.as_slice(),
            None => {
                let empty: &[MediaAsset] = &[];
                assert(empty@ =~= Seq::<MediaAsset>::empty());
                empty
            },
        }
    }

    /// The duration of the open project's timeline in ticks (0 without a project).
    pub fn project_duration(&self) -> (r: i64)
        ensures
            r == match self.project {
                Some(p) => p.timeline.duration,
                None => 0,
            },
    {
        match &self.project {
            Some(p) => p.timeline.duration,
            None => 0,
        }
    }

    /// The output resolution of the open project (1920 x 1080 without one).
    pub fn preview_resolution(&self) -> (r: (u32, u32))
        ensures
            r == match self.project {
                Some(p) => (p.settings.width, p.settings.height),
                None => (1920u32, 1080u32),
            },
    {
        match &self.project {
            Some(p) => (p.settings.width, p.settings.height),
            None => (1920, 1080),
        }
    }

    /// Duration of one frame in ticks, from the project frame rate (30 fps
    /// without a project, or when the frame rate is 0).
    pub fn frame_duration(&self) -> (r: i64)
        ensures
            r == frame_ticks(
                match self.project {
                    Some(p) => p.settings.fps,
                    None => 30u32,
                },
            ),
    {
        let fps = match &self.project {
            Some(p) => p.settings.fps,
            None => 30,
        };
        if fps > 0 {
            TICKS_PER_SECOND / (fps as i64)
        } else {
            TICKS_PER_SECOND / 30
        }
    }

    /// Start over with an untitled project and an empty history, the
    /// playhead at 0, stopped at normal speed, and nothing selected.
    pub fn action_new_project(&mut self)
        ensures
            same_jobs(*final(self), *old(self)),
            match project_view(final(self).project) {
                Some(p) => is_fresh_untitled(p),
                None => false,
            },
            final(self).history@.commands.len() == 0,
            final(self).history@.cursor == 0,
            final(self).playhead == 0,
            !final(self).is_playing,
            final(self).playback_speed == 4,
            final(self).selected_asset_id is None,
            final(self).selected_clip_id is None,
            final(self).dragging == old(self).dragging,
            final(self).trim_dragging == old(self).trim_dragging,
            app_wf(*final(self)),
    {
        self.project = Some(Project::new("Untitled Project".to_owned()));
        self.history = CommandHistory::new();
        self.playhead = 0;
        self.is_playing = false;
        self.playback_speed = 4;
        self.selected_asset_id = None;
        self.selected_clip_id = None;
    }

    /// Undo the last command on the open project's timeline (nothing
    /// without a project).
    pub fn action_undo(&mut self)
        requires
            app_wf(*old(self)),
        ensures
            same_jobs(*final(self), *old(self)),
            match project_view(old(self).project) {
                Some(p) => {
                    let (h, tl) = history_undo(old(self).history@, p.timeline);
                    &&& final(self).history@ == h
                    &&& project_view(final(self).project) == Some(ProjectView { timeline: tl, ..p })
                },
                None => final(self).history@ == old(self).history@ && final(self).project is None,
            },
            final(self).selected_clip_id == old(self).selected_clip_id,
            same_transport(*final(self), *old(self)),
            app_wf(*final(self)),
    {
        match &mut self.project {
            Some(project) => {
                self.history.undo(&mut project.timeline);
            },
            None => {},
        }
    }

    /// Redo the next command on the open project's timeline (nothing
    /// without a project).
    pub fn action_redo(&mut self)
        requires
            app_wf(*old(self)),
        ensures
            same_jobs(*final(self), *old(self)),
            match project_view(old(self).project) {
                Some(p) => {
                    let (h, tl) = history_redo(old(self).history@, p.timeline);
                    &&& final(self).history@ == h
                    &&& project_view(final(self).project) == Some(ProjectView { timeline: tl, ..p })
                },
                None => final(self).history@ == old(self).history@ && final(self).project is None,
            },
            final(self).selected_clip_id == old(self).selected_clip_id,
            same_transport(*final(self), *old(self)),
            app_wf(*final(self)),
    {
        match &mut self.project {
            Some(project) => {
                self.history.redo(&mut project.timeline);
            },
            None => {},
        }
    }

    /// Record (and execute) `cmd` on the open project's timeline; nothing
    /// happens without a project.
    fn push_command(&mut self, cmd: EditCommand)
        requires
            app_wf(*old(self)),
            old(self).history@.cursor < usize::MAX,
        ensures
            same_jobs(*final(self), *old(self)),
            match project_view(old(self).project) {
                Some(p) => {
                    &&& final(self).history@ == history_pushed(old(self).history@, cmd.recorded(p.timeline))
                    &&& project_view(final(self).project) == Some(
                        ProjectView { timeline: cmd.executed(p.timeline), ..p },
                    )
                },
                None => final(self).history@ == old(self).history@ && final(self).project is None,
            },
            final(self).selected_clip_id == old(self).selected_clip_id,
            same_transport(*final(self), *old(self)),
            app_wf(*final(self)),
    {
        match &mut self.project {
            Some(project) => {
                self.history.push(cmd, &mut project.timeline);
            },
            None => {},
        }
    }

    /// Add a new empty video track, named after the number of video tracks,
    /// creating an untitled project first if none is open.
    pub fn action_add_track(&mut self)
        ensures
            same_jobs(*final(self), *old(self)),
            exists|tid: u128|
                #![trigger is_v4_layout(tid)]
                {
                    let base = project_or_untitled(project_view(old(self).project));
                    &&& is_v4_layout(tid)
                    &&& project_view(final(self).project) == Some(
                        ProjectView { timeline: video_track_added(base.timeline, tid), ..base },
                    )
                },
            final(self).history == old(self).history,
            final(self).selected_clip_id == old(self).selected_clip_id,
            same_transport(*final(self), *old(self)),
    {
        let project = self.ensure_project();
        let n = count_video(&project.timeline.tracks);
        let mut name = "Video ".to_owned();
        push_decimal(&mut name, (n as u128) + 1);
        let track = Track::new(name, TrackType::Video);
        let ghost tid = track@.id;
        let ghost before = project@;
        project.timeline.tracks.push(track);
        proof {
            reveal_strlit("Video ");
            assert(project@ =~= ProjectView { timeline: video_track_added(before.timeline, tid), ..before });
        }
    }

    /// Delete the currently selected clip: the first clip, over the tracks in
    /// order, with the selected id is removed through a recorded delete
    /// command, and the selection is cleared.  Nothing happens when no clip
    /// is selected, no project is open, or no clip has the selected id.
    pub fn action_delete_selected_clip(&mut self)
        requires
            app_wf(*old(self)),
            old(self).history@.cursor < usize::MAX,
        ensures
            same_jobs(*final(self), *old(self)),
            match (old(self).selected_clip_id, project_view(old(self).project)) {
                (Some(id), Some(p)) => match find_clip_in_tracks(p.timeline.tracks, id) {
                    Some(c) => {
                        let cmd = EditCommand::Delete(DeleteClipCommand { clip: c, position: None });
                        &&& final(self).history@ == history_pushed(old(self).history@, cmd.recorded(p.timeline))
                        &&& project_view(final(self).project) == Some(
                            ProjectView { timeline: cmd.executed(p.timeline), ..p },
                        )
                        &&& final(self).selected_clip_id is None
                    },
                    None => {
                        &&& final(self).history == old(self).history
                        &&& final(self).project == old(self).project
                        &&& final(self).selected_clip_id == old(self).selected_clip_id
                    },
                },
                _ => {
                    &&& final(self).history == old(self).history
                    &&& final(self).project == old(self).project
                    &&& final(self).selected_clip_id == old(self).selected_clip_id
                },
            },
            same_transport(*final(self), *old(self)),
            app_wf(*final(self)),
    {
        let selected = match self.selected_clip_id {
            Some(id) => id,
            None => return,
        };
        let found = match &self.project {
            Some(p) => first_clip_with_id(&p.timeline.tracks, selected),
            None => return,
        };
        match found {
            Some(clip) => {
                self.push_command(EditCommand::Delete(DeleteClipCommand::new(clip)));
                self.selected_clip_id = None;
            },
            None => {},
        }
    }

    /// Add a media asset to the timeline: on the first track of the matching
    /// type (created and named after its position when there is none), after
    /// the last clip of that track, lasting the asset's duration but at least
    /// one second, through a recorded add command; the new clip is selected.
    /// Nothing happens without a project or when no asset has `asset_id`.
    pub fn action_add_asset_to_timeline(&mut self, asset_id: u128)
        requires
            app_wf(*old(self)),
            old(self).history@.cursor < usize::MAX,
        ensures
            same_jobs(*final(self), *old(self)),
            match project_view(old(self).project) {
                Some(p) => match find_asset(p.media_pool, asset_id) {
                    Some(ai) => exists|tid: u128, cid: u128|
                        #![trigger is_v4_layout(tid), is_v4_layout(cid)]
                        {
                            let a = p.media_pool[ai];
                            let ty = track_type_for(a.asset_type);
                            let tl1 = with_track_of_type(p.timeline, ty, tid);
                            let clip = clip_for_asset(tl1, a, cid);
                            let cmd = EditCommand::Add(AddClipCommand { clip });
                            &&& is_v4_layout(cid)
                            &&& (find_track_of_type(p.timeline.tracks, ty) is None ==> is_v4_layout(tid))
                            &&& final(self).history@ == history_pushed(old(self).history@, cmd)
                            &&& project_view(final(self).project) == Some(
                                ProjectView { timeline: clip_added(tl1, clip), ..p },
                            )
                            &&& final(self).selected_clip_id == Some(cid)
                        },
                    None => {
                        &&& final(self).history == old(self).history
                        &&& final(self).project == old(self).project
                        &&& final(self).selected_clip_id == old(self).selected_clip_id
                    },
                },
                None => {
                    &&& final(self).history == old(self).history
                    &&& final(self).project == old(self).project
                    &&& final(self).selected_clip_id == old(self).selected_clip_id
                },
            },
            same_transport(*final(self), *old(self)),
            app_wf(*final(self)),
    {
        let project = match &mut self.project {
            Some(p) => p,
            None => return,
        };
        let ghost p0 = project@;
        let ai = match position_of_asset(&project.media_pool, asset_id) {
            Some(i) => i,
            None => return,
        };
        proof {
            lemma_find_asset(p0.media_pool, asset_id);
        }
        let atype = project.media_pool[ai].asset_type;
        let adur = project.media_pool[ai].duration;
        let ghost a = p0.media_pool[ai as int];
        let target = match atype {
            AssetType::Audio => TrackType::Audio,
            _ => TrackType::Video,
        };
        proof {
            lemma_find_track_of_type(p0.timeline.tracks, target);
        }
        let ghost mut tid: u128 = 0;
        let k = match position_of_track_type(&project.timeline.tracks, target) {
            Some(k) => k,
            None => {
                let n = project.timeline.tracks.len();
                let mut name = match target {
                    TrackType::Video => "Video ".to_owned(),
                    TrackType::Audio => "Audio ".to_owned(),
                };
                push_decimal(&mut name, (n as u128) + 1);
                let track = Track::new(name, target);
                proof {
                    tid = track@.id;
                    reveal_strlit("Video ");
                    reveal_strlit("Audio ");
                }
                project.timeline.tracks.push(track);
                n
            },
        };
        let ghost tl1 = with_track_of_type(p0.timeline, target, tid);
        proof {
            assert(project.timeline@ =~= tl1);
            lemma_find_track_of_type(tl1.tracks, target);
            if find_track_of_type(p0.timeline.tracks, target) is None {
                lemma_find_track_of_type_is(tl1.tracks, target, k as int);
            }
            assert(find_track_of_type(tl1.tracks, target) == Some(k as int));
            assert(track_type_for(a.asset_type) == target);
        }
        let start = max_clip_end(&project.timeline.tracks[k].clips);
        let dur = if adur > TICKS_PER_SECOND {
            adur
        } else {
            TICKS_PER_SECOND
        };
        let cid = new_id();
        let clip = Clip {
            id: cid,
            asset_id,
            track_id: project.timeline.tracks[k].id,
            timeline_start: start,
            timeline_end: sat_add(start, dur),
            source_start: 0,
            source_end: dur,
        };
        proof {
            assert(clip == clip_for_asset(tl1, a, cid));
        }
        self.history.push(EditCommand::Add(AddClipCommand::new(clip)), &mut project.timeline);
        self.selected_clip_id = Some(cid);
        proof {
            assert(project@ =~= ProjectView { timeline: clip_added(tl1, clip), ..p0 });
        }
    }

    /// Commit a clip move (called when a drag ends).
    pub fn action_commit_move_clip(
        &mut self,
        clip_id: u128,
        track_id: u128,
        old_start: i64,
        new_start: i64,
        duration: i64,
    )
        requires
            app_wf(*old(self)),
            old(self).history@.cursor < usize::MAX,
        ensures
            same_jobs(*final(self), *old(self)),
            ({
                let cmd = EditCommand::Move(
                    MoveClipCommand { clip_id, track_id, old_start, new_start, duration },
                );
                match project_view(old(self).project) {
                    Some(p) => {
                        &&& final(self).history@ == history_pushed(old(self).history@, cmd)
                        &&& project_view(final(self).project) == Some(
                            ProjectView { timeline: cmd.executed(p.timeline), ..p },
                        )
                    },
                    None => final(self).history@ == old(self).history@ && final(self).project is None,
                }
            }),
            final(self).selected_clip_id == old(self).selected_clip_id,
            same_transport(*final(self), *old(self)),
            app_wf(*final(self)),
    {
        let cmd = MoveClipCommand::new(clip_id, track_id, old_start, new_start, duration);
        self.push_command(EditCommand::Move(cmd));
    }

    /// Commit a trim operation (called when a trim drag ends).
    pub fn action_commit_trim_clip(
        &mut self,
        clip_id: u128,
        track_id: u128,
        old_timeline_start: i64,
        old_timeline_end: i64,
        old_source_start: i64,
        old_source_end: i64,
        new_timeline_start: i64,
        new_timeline_end: i64,
        new_source_start: i64,
        new_source_end: i64,
    )
        requires
            app_wf(*old(self)),
            old(self).history@.cursor < usize::MAX,
        ensures
            same_jobs(*final(self), *old(self)),
            exists|cmd: TrimClipCommand|
                {
                    &&& cmd@.clip_id == clip_id
                    &&& cmd@.track_id == track_id
                    &&& cmd@.position is None
                    &&& cmd@.old_bounds == (ClipBounds {
                        timeline_start: old_timeline_start,
                        timeline_end: old_timeline_end,
                        source_start: old_source_start,
                        source_end: old_source_end,
                    })
                    &&& cmd@.new_bounds == (ClipBounds {
                        timeline_start: new_timeline_start,
                        timeline_end: new_timeline_end,
                        source_start: new_source_start,
                        source_end: new_source_end,
                    })
                    &&& match project_view(old(self).project) {
                        Some(p) => {
                            &&& final(self).history@ == history_pushed(
                                old(self).history@,
                                EditCommand::Trim(cmd).recorded(p.timeline),
                            )
                            &&& project_view(final(self).project) == Some(
                                ProjectView { timeline: EditCommand::Trim(cmd).executed(p.timeline), ..p },
                            )
                        },
                        None => final(self).history@ == old(self).history@ && final(self).project is None,
                    }
                },
            final(self).selected_clip_id == old(self).selected_clip_id,
            same_transport(*final(self), *old(self)),
            app_wf(*final(self)),
    {
        let cmd = TrimClipCommand::new(
            clip_id,
            track_id,
            old_timeline_start,
            old_timeline_end,
            old_source_start,
            old_source_end,
            new_timeline_start,
            new_timeline_end,
            new_source_start,
            new_source_end,
        );
        let ghost g = cmd;
        self.push_command(EditCommand::Trim(cmd));
        assert(g@.clip_id == clip_id);
    }
}

/// Index of the first track of type `t`.
fn position_of_track_type(tracks: &Vec<Track>, t: TrackType) -> (r: Option<usize>)
    ensures
        match r {
            Some(k) => find_track_of_type(tracks@.map_values(|x: Track| x@), t) == Some(k as int),
            None => find_track_of_type(tracks@.map_values(|x: Track| x@), t) is None,
        },
{
    let ghost tv = tracks@.map_values(|x: Track| x@);
    proof {
        lemma_find_track_of_type(tv, t);
    }
    let n = tracks.len();
    let mut i: usize = 0;
    while i < n
        invariant
            n == tv.len(),
            tv == tracks@.map_values(|x: Track| x@),
            0 <= i <= n,
            forall|j: int| 0 <= j < i ==> tv[j].track_type != t,
        decreases n - i,
    {
        if tracks[i].track_type == t {
            proof {
                lemma_find_track_of_type_is(tv, t, i as int);
            }
            return Some(i);
        }
        i = i + 1;
    }
    None
}

proof fn lemma_find_track_of_type(tracks: Seq<TrackView>, t: TrackType)
    ensures
        match find_track_of_type(tracks, t) {
            Some(k) => 0 <= k < tracks.len() && tracks[k].track_type == t && forall|j: int|
                0 <= j < k ==> tracks[j].track_type != t,
            None => forall|j: int| 0 <= j < tracks.len() ==> tracks[j].track_type != t,
        },
    decreases tracks.len(),
{
    if tracks.len() > 0 {
        lemma_find_track_of_type(tracks.drop_first(), t);
        if tracks[0].track_type != t {
            assert forall|j: int| 0 < j < tracks.len() implies tracks[j] == tracks.drop_first()[j
                - 1] by {}
        }
    }
}

proof fn lemma_find_track_of_type_is(tracks: Seq<TrackView>, t: TrackType, k: int)
    requires
        0 <= k < tracks.len(),
        tracks[k].track_type == t,
        forall|j: int| 0 <= j < k ==> tracks[j].track_type != t,
    ensures
        find_track_of_type(tracks, t) == Some(k),
{
    lemma_find_track_of_type(tracks, t);
}

/// Index of the first asset of `pool` whose id is `id`.
pub(crate) fn position_of_asset(pool: &Vec<MediaAsset>, id: u128) -> (r: Option<usize>)
    ensures
        match r {
            Some(k) => find_asset(pool@.map_values(|a: MediaAsset| a@), id) == Some(k as int),
            None => find_asset(pool@.map_values(|a: MediaAsset| a@), id) is None,
        },
{
    let ghost pv = pool@.map_values(|a: MediaAsset| a@);
    proof {
        lemma_find_asset(pv, id);
    }
    let n = pool.len();
    let mut i: usize = 0;
    while i < n
        invariant
            n == pv.len(),
            pv == pool@.map_values(|a: MediaAsset| a@),
            0 <= i <= n,
            forall|j: int| 0 <= j < i ==> pv[j].id != id,
        decreases n - i,
    {
        if pool[i].id == id {
            proof {
                lemma_find_asset_is(pv, id, i as int);
            }
            return Some(i);
        }
        i = i + 1;
    }
    None
}

pub(crate) proof fn lemma_find_asset(pool: Seq<MediaAssetView>, id: u128)
    ensures
        match find_asset(pool, id) {
            Some(k) => 0 <= k < pool.len() && pool[k].id == id && forall|j: int|
                0 <= j < k ==> pool[j].id != id,
            None => forall|j: int| 0 <= j < pool.len() ==> pool[j].id != id,
        },
    decreases pool.len(),
{
    if pool.len() > 0 {
        lemma_find_asset(pool.drop_first(), id);
        if pool[0].id != id {
            assert forall|j: int| 0 < j < pool.len() implies pool[j] == pool.drop_first()[j - 1] by {}
        }
    }
}

proof fn lemma_find_asset_is(pool: Seq<MediaAssetView>, id: u128, k: int)
    requires
        0 <= k < pool.len(),
        pool[k].id == id,
        forall|j: int| 0 <= j < k ==> pool[j].id != id,
    ensures
        find_asset(pool, id) == Some(k),
{
    lemma_find_asset(pool, id);
}

/// The number of video tracks in `tracks`.
fn count_video(tracks: &Vec<Track>) -> (r: usize)
    ensures
        r == count_video_tracks(tracks@.map_values(|x: Track| x@)),
{
    let ghost tv = tracks@.map_values(|x: Track| x@);
    let n = tracks.len();
    let mut c: usize = 0;
    let mut i: usize = 0;
    while i < n
        invariant
            n == tv.len(),
            tv == tracks@.map_values(|x: Track| x@),
            0 <= i <= n,
            c == count_video_tracks(tv.take(i as int)),
            c <= i,
        decreases n - i,
    {
        proof {
            assert(tv.take(i + 1).drop_last() =~= tv.take(i as int));
        }
        if tracks[i].track_type == TrackType::Video {
            c = c + 1;
        }
        i = i + 1;
    }
    proof {
        assert(tv.take(n as int) =~= tv);
    }
    c
}

/// The first clip, over `tracks` in order and the clips of each in order,
/// whose id is `id`.
fn first_clip_with_id(tracks: &Vec<Track>, id: u128) -> (r: Option<Clip>)
    ensures
        r == find_clip_in_tracks(tracks@.map_values(|x: Track| x@), id),
{
    let ghost tv = tracks@.map_values(|x: Track| x@);
    let n = tracks.len();
    let mut i: usize = 0;
    assert(tv.skip(0) =~= tv);
    while i < n
        invariant
            n == tv.len(),
            tv == tracks@.map_values(|x: Track| x@),
            0 <= i <= n,
            find_clip_in_tracks(tv, id) == find_clip_in_tracks(tv.skip(i as int), id),
        decreases n - i,
    {
        let ghost rest = tv.skip(i as int);
        proof {
            assert(rest[0] == tv[i as int]);
            assert(rest.drop_first() =~= tv.skip(i + 1));
            crate::clip_order::lemma_find_clip(tracks[i as int].clips@, id);
        }
        match position_of_clip(&tracks[i].clips, id) {
            Some(k) => {
                return Some(tracks[i].clips[k]);
            },
            None => {},
        }
        i = i + 1;
    }
    proof {
        assert(tv.skip(n as int) =~= Seq::<TrackView>::empty());
    }
    None
}

/// Duration of one frame in ticks at `fps` frames per second (30 when `fps` is 0).
pub open spec fn frame_ticks(fps: u32) -> int {
    if fps > 0 {
        TICKS_PER_SECOND as int / fps as int
    } else {
        TICKS_PER_SECOND as int / 30
    }
}

} // verus!
