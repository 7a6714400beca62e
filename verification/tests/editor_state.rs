use vidcut::clip::Clip;
use vidcut::editor::{DragState, TrimDragState, TrimEdge, VidCutApp};
use vidcut::media::encoder::{OutputFormat, QualityPreset};
use vidcut::media::ffmpeg_manager::FfmpegStatus;
use vidcut::media_asset::{AssetType, MediaAsset};
use vidcut::project::{Project, ProjectSettings};
use vidcut::time::TICKS_PER_SECOND;
use vidcut::timeline_edit::{snap_to_frame, would_overlap, MIN_CLIP_DURATION};
use vidcut::track::{Track, TrackType};

const TPS: i64 = TICKS_PER_SECOND;

fn asset(path: &str, t: AssetType, duration: i64) -> MediaAsset {
    MediaAsset::new(path.to_string(), t, duration, None, None, None)
}

fn clip(id: u128, track: u128, start: i64, end: i64) -> Clip {
    Clip { id, asset_id: 1, track_id: track, timeline_start: start, timeline_end: end, source_start: 0, source_end: end - start }
}

fn app_with_track(track_id: u128, clips: Vec<Clip>) -> VidCutApp {
    let mut app = VidCutApp::new();
    let p = app.ensure_project();
    let mut t = Track::new("Video 1".to_string(), TrackType::Video);
    t.id = track_id;
    t.clips = clips;
    p.timeline.tracks.push(t);
    p.timeline.recompute_duration();
    app
}

#[test]
fn initial_state() {
    let app = VidCutApp::new();
    assert!(app.project.is_none());
    assert_eq!(app.playhead_secs(), 0);
    assert!(!app.is_playing());
    assert_eq!(app.playback_speed, 4);
    assert!(!app.can_undo() && !app.can_redo());
    assert!(app.media_pool().is_empty());
    assert_eq!(app.project_duration(), 0);
    assert_eq!(app.preview_resolution(), (1920, 1080));
    assert_eq!(app.frame_duration(), TPS / 30);
    assert!(!app.export_dialog_open);
    assert_eq!(app.export_format, OutputFormat::Mp4);
    assert_eq!(app.export_quality, QualityPreset::Medium);
    assert!(matches!(app.ffmpeg_status, FfmpegStatus::Checking));
}

#[test]
fn untitled_project_on_demand() {
    let mut app = VidCutApp::new();
    {
        let p = app.ensure_project();
        assert_eq!(p.name, "Untitled Project");
        assert_eq!(p.settings, ProjectSettings { fps: 30, width: 1920, height: 1080, sample_rate: 48_000 });
        p.name = "Mine".to_string();
    }
    assert_eq!(app.ensure_project().name, "Mine");
    assert_eq!(ProjectSettings::default(), ProjectSettings { fps: 30, width: 1920, height: 1080, sample_rate: 48_000 });
}

#[test]
fn frame_duration_follows_project_rate() {
    let mut app = VidCutApp::new();
    app.ensure_project().settings.fps = 24;
    assert_eq!(app.frame_duration(), TPS / 24);
    app.ensure_project().settings.fps = 0;
    assert_eq!(app.frame_duration(), TPS / 30);
}

#[test]
fn new_project_resets_the_session() {
    let mut app = app_with_track(10, vec![clip(1, 10, 0, TPS)]);
    app.playhead = 5 * TPS;
    app.is_playing = true;
    app.selected_clip_id = Some(1);
    app.action_new_project();
    let p = app.project.as_ref().unwrap();
    assert_eq!(p.name, "Untitled Project");
    assert!(p.timeline.tracks.is_empty());
    assert_eq!(app.playhead, 0);
    assert!(!app.is_playing);
    assert!(app.selected_clip_id.is_none());
}

#[test]
fn tracks_are_named_by_count() {
    let mut app = VidCutApp::new();
    app.action_add_track();
    app.action_add_track();
    let p = app.project.as_ref().unwrap();
    assert_eq!(p.timeline.tracks.len(), 2);
    assert_eq!(p.timeline.tracks[0].name, "Video 1");
    assert_eq!(p.timeline.tracks[1].name, "Video 2");
    assert_ne!(p.timeline.tracks[0].id, p.timeline.tracks[1].id);
}

#[test]
fn adding_assets_places_clips_end_to_end() {
    let mut app = VidCutApp::new();
    let a = asset("/m/a.mp4", AssetType::Video, 3 * TPS);
    let b = asset("/m/b.png", AssetType::Image, 0);
    let s = asset("/m/s.wav", AssetType::Audio, 2 * TPS);
    let (ia, ib, is) = (a.id, b.id, s.id);
    let p = app.ensure_project();
    p.media_pool.push(a);
    p.media_pool.push(b);
    p.media_pool.push(s);
    app.action_add_asset_to_timeline(ia);
    app.action_add_asset_to_timeline(ib);
    app.action_add_asset_to_timeline(is);
    app.action_add_asset_to_timeline(12345);
    let p = app.project.as_ref().unwrap();
    assert_eq!(p.timeline.tracks.len(), 2);
    assert_eq!(p.timeline.tracks[0].name, "Video 1");
    assert_eq!(p.timeline.tracks[0].track_type, TrackType::Video);
    assert_eq!(p.timeline.tracks[1].name, "Audio 2");
    let v = &p.timeline.tracks[0].clips;
    assert_eq!(v.len(), 2);
    assert_eq!((v[0].timeline_start, v[0].timeline_end, v[0].asset_id), (0, 3 * TPS, ia));
    // An image lasts at least one second.
    assert_eq!((v[1].timeline_start, v[1].timeline_end, v[1].source_end), (3 * TPS, 4 * TPS, TPS));
    let au = &p.timeline.tracks[1].clips;
    assert_eq!((au[0].timeline_start, au[0].timeline_end), (0, 2 * TPS));
    assert_eq!(p.timeline.duration, 4 * TPS);
    assert_eq!(app.selected_clip_id, Some(au[0].id));
    assert!(app.can_undo());
    app.action_undo();
    assert!(app.project.as_ref().unwrap().timeline.tracks[1].clips.is_empty());
    app.action_redo();
    assert_eq!(app.project.as_ref().unwrap().timeline.tracks[1].clips.len(), 1);
}

#[test]
fn deleting_the_selected_clip() {
    let mut app = app_with_track(10, vec![clip(1, 10, 0, TPS), clip(2, 10, TPS, 2 * TPS)]);
    app.action_delete_selected_clip();
    assert_eq!(app.project.as_ref().unwrap().timeline.tracks[0].clips.len(), 2);
    app.selected_clip_id = Some(2);
    app.action_delete_selected_clip();
    assert!(app.selected_clip_id.is_none());
    assert_eq!(app.project.as_ref().unwrap().timeline.tracks[0].clips.len(), 1);
    assert_eq!(app.project_duration(), TPS);
    app.action_undo();
    assert_eq!(app.project.as_ref().unwrap().timeline.tracks[0].clips.len(), 2);
    app.selected_clip_id = Some(99);
    app.action_delete_selected_clip();
    assert_eq!(app.selected_clip_id, Some(99));
}

#[test]
fn committed_moves_and_trims_are_undoable() {
    let mut app = app_with_track(10, vec![clip(1, 10, 0, TPS)]);
    app.action_commit_move_clip(1, 10, 0, 2 * TPS, TPS);
    let c = app.project.as_ref().unwrap().timeline.tracks[0].clips[0];
    assert_eq!((c.timeline_start, c.timeline_end), (2 * TPS, 3 * TPS));
    app.action_commit_trim_clip(1, 10, 2 * TPS, 3 * TPS, 0, TPS, 2 * TPS, 5 * TPS, 0, 3 * TPS);
    let c = app.project.as_ref().unwrap().timeline.tracks[0].clips[0];
    assert_eq!((c.timeline_end, c.source_end), (5 * TPS, 3 * TPS));
    assert_eq!(app.project_duration(), 5 * TPS);
    app.action_undo();
    app.action_undo();
    let c = app.project.as_ref().unwrap().timeline.tracks[0].clips[0];
    assert_eq!((c.timeline_start, c.timeline_end, c.source_end), (0, TPS, TPS));
    assert!(!app.can_undo());
    assert!(app.can_redo());
}

#[test]
fn transport_keys() {
    let mut app = VidCutApp::new();
    app.action_play_pause();
    assert!(app.is_playing && app.playback_speed == 4);
    app.action_play_pause();
    assert!(!app.is_playing);
    app.action_j();
    assert!(app.is_playing && app.playback_speed == -4);
    app.action_j();
    assert_eq!(app.playback_speed, -8);
    for _ in 0..5 {
        app.action_j();
    }
    assert_eq!(app.playback_speed, -16);
    app.action_l();
    assert_eq!(app.playback_speed, 1);
    app.action_l();
    app.action_l();
    app.action_l();
    assert_eq!(app.playback_speed, 8);
    app.action_l();
    app.action_l();
    assert_eq!(app.playback_speed, 16);
    app.action_k();
    assert!(!app.is_playing && app.playback_speed == 4);
    app.action_l();
    assert!(app.is_playing && app.playback_speed == 4);
    app.playhead = 7;
    app.action_stop();
    assert!(!app.is_playing && app.playhead == 0 && app.playback_speed == 4);
}

#[test]
fn frame_steps() {
    let mut app = app_with_track(10, vec![clip(1, 10, 0, TPS)]);
    app.action_step_forward();
    assert_eq!(app.playhead, TPS / 30);
    app.playhead = TPS;
    app.action_step_forward();
    assert_eq!(app.playhead, TPS);
    app.action_step_backward();
    assert_eq!(app.playhead, TPS - TPS / 30);
    app.playhead = 5;
    app.action_step_backward();
    assert_eq!(app.playhead, 0);
    let mut empty = VidCutApp::new();
    empty.action_step_forward();
    assert_eq!(empty.playhead, TPS / 30);
    empty.action_step_forward();
    assert_eq!(empty.playhead, TPS / 30);
}

#[test]
fn playback_advances_and_stops_at_the_ends() {
    let mut app = app_with_track(10, vec![clip(1, 10, 0, 2 * TPS)]);
    app.advance_playback(TPS);
    assert_eq!(app.playhead, 0);
    app.action_play_pause();
    app.advance_playback(TPS / 2);
    assert_eq!(app.playhead, TPS / 2);
    app.playback_speed = 8;
    app.advance_playback(TPS / 2);
    assert_eq!(app.playhead, 3 * TPS / 2);
    app.advance_playback(TPS);
    assert_eq!(app.playhead, 0);
    assert!(!app.is_playing && app.playback_speed == 4);
    app.action_play_pause();
    app.playback_speed = -4;
    app.playhead = TPS / 4;
    app.advance_playback(TPS);
    assert_eq!(app.playhead, 0);
    assert!(!app.is_playing);
}

#[test]
fn snapping_to_frames() {
    let f = TPS / 30;
    assert_eq!(snap_to_frame(0, f), 0);
    assert_eq!(snap_to_frame(f / 2 - 1, f), 0);
    assert_eq!(snap_to_frame(f / 2, f), f);
    assert_eq!(snap_to_frame(-f / 2, f), -f);
    assert_eq!(snap_to_frame(7 * f + 3, f), 7 * f);
    assert_eq!(snap_to_frame(snap_to_frame(7 * f + 3, f), f), 7 * f);
    assert_eq!(snap_to_frame(12345, 0), 12345);
    assert_eq!(snap_to_frame(i64::MAX, f), i64::MAX);
}

#[test]
fn overlap_detection() {
    let mut p = Project::new("P".to_string());
    let mut t = Track::new("Video 1".to_string(), TrackType::Video);
    t.id = 10;
    t.clips = vec![clip(1, 10, 0, TPS), clip(2, 10, 2 * TPS, 3 * TPS)];
    p.timeline.tracks.push(t);
    assert!(would_overlap(&p, 10, 3, TPS / 2, TPS, ));
    assert!(!would_overlap(&p, 10, 3, TPS, TPS));
    // Touching within the tolerance is no overlap.
    assert!(!would_overlap(&p, 10, 3, TPS - 1000, TPS + 1000));
    // The clip itself does not count.
    assert!(!would_overlap(&p, 10, 1, 0, TPS));
    assert!(!would_overlap(&p, 99, 3, 0, 10 * TPS));
}

#[test]
fn dragging_a_clip_body() {
    let f = TPS / 30;
    let mut app = app_with_track(10, vec![clip(1, 10, 0, TPS), clip(2, 10, 3 * TPS, 4 * TPS)]);
    app.dragging = Some(DragState { clip_id: 1, track_id: 10, original_start: 0, duration: TPS, current_start: 0 });
    app.drag_clip_body_by(1, 10, f + 5, f);
    assert_eq!(app.dragging.unwrap().current_start, f);
    assert_eq!(app.project.as_ref().unwrap().timeline.tracks[0].clips[0].timeline_start, f);
    // Into the next clip: refused.
    app.drag_clip_body_by(1, 10, 2 * TPS + 10 * f, f);
    assert_eq!(app.dragging.unwrap().current_start, f);
    app.drag_clip_body_by(1, 10, TPS, f);
    assert_eq!(app.dragging.unwrap().current_start, TPS + f);
    app.finish_clip_drag(1);
    assert!(app.dragging.is_none());
    assert!(app.can_undo());
    app.action_undo();
    assert_eq!(app.project.as_ref().unwrap().timeline.tracks[0].clips[0].timeline_start, 0);
}

#[test]
fn small_drags_are_not_recorded() {
    let mut app = app_with_track(10, vec![clip(1, 10, 0, TPS)]);
    app.dragging = Some(DragState { clip_id: 1, track_id: 10, original_start: 0, duration: TPS, current_start: 0 });
    app.drag_clip_body_by(1, 10, 100, 0);
    app.finish_clip_drag(1);
    assert!(!app.can_undo());
}

#[test]
fn trimming_edges() {
    let f = TPS / 30;
    let mut app = app_with_track(10, vec![clip(1, 10, TPS, 3 * TPS)]);
    let td = TrimDragState {
        clip_id: 1,
        track_id: 10,
        edge: TrimEdge::Left,
        orig_timeline_start: TPS,
        orig_timeline_end: 3 * TPS,
        orig_source_start: 0,
        orig_source_end: 2 * TPS,
        cur_timeline_start: TPS,
        cur_timeline_end: 3 * TPS,
        cur_source_start: 0,
        cur_source_end: 2 * TPS,
    };
    app.trim_dragging = Some(td);
    app.drag_trim_left_by(1, TPS / 2, f);
    let t = app.trim_dragging.unwrap();
    assert_eq!((t.cur_timeline_start, t.cur_source_start), (3 * TPS / 2, TPS / 2));
    // Never shorter than the minimum clip length.
    app.drag_trim_left_by(1, 10 * TPS, f);
    let t = app.trim_dragging.unwrap();
    assert_eq!(t.cur_timeline_start, snap_to_frame(3 * TPS - MIN_CLIP_DURATION, f));
    app.finish_trim_drag(1, TrimEdge::Left);
    assert!(app.trim_dragging.is_none());
    assert!(app.can_undo());
    app.action_undo();
    let c = app.project.as_ref().unwrap().timeline.tracks[0].clips[0];
    assert_eq!((c.timeline_start, c.source_start), (TPS, 0));

    app.trim_dragging = Some(TrimDragState { edge: TrimEdge::Right, ..td });
    app.drag_trim_right_by(1, TPS, f);
    let t = app.trim_dragging.unwrap();
    assert_eq!((t.cur_timeline_end, t.cur_source_end), (4 * TPS, 3 * TPS));
    app.drag_trim_left_by(1, TPS, f);
    assert_eq!(app.trim_dragging.unwrap().cur_timeline_start, TPS);
}

#[test]
fn ruler_clicks_seek_to_frames() {
    let f = TPS / 30;
    let mut app = VidCutApp::new();
    app.seek_to(3 * f + 5);
    assert_eq!(app.playhead, 3 * f);
    app.seek_to(-10 * f);
    assert_eq!(app.playhead, 0);
    app.ensure_project().settings.fps = 25;
    app.seek_to(TPS / 25 * 7 - 3);
    assert_eq!(app.playhead, TPS / 25 * 7);
}

#[test]
fn trims_stop_at_the_neighbouring_clip() {
    let f = TPS / 30;
    let mut app = app_with_track(10, vec![clip(1, 10, 0, TPS), clip(2, 10, 2 * TPS, 3 * TPS)]);
    let td = TrimDragState {
        clip_id: 1,
        track_id: 10,
        edge: TrimEdge::Right,
        orig_timeline_start: 0,
        orig_timeline_end: TPS,
        orig_source_start: 0,
        orig_source_end: TPS,
        cur_timeline_start: 0,
        cur_timeline_end: TPS,
        cur_source_start: 0,
        cur_source_end: TPS,
    };
    app.trim_dragging = Some(td);
    // Up to the next clip: allowed.
    app.drag_trim_right_by(1, TPS, f);
    assert_eq!(app.trim_dragging.unwrap().cur_timeline_end, 2 * TPS);
    // Past its start: refused, nothing changes.
    app.drag_trim_right_by(1, TPS / 2, f);
    assert_eq!(app.trim_dragging.unwrap().cur_timeline_end, 2 * TPS);
    assert_eq!(app.project.as_ref().unwrap().timeline.tracks[0].clips[0].timeline_end, 2 * TPS);
    // The left edge of the second clip cannot go back over the first.
    app.trim_dragging = Some(TrimDragState {
        clip_id: 2,
        edge: TrimEdge::Left,
        orig_timeline_start: 2 * TPS,
        orig_timeline_end: 3 * TPS,
        cur_timeline_start: 2 * TPS,
        cur_timeline_end: 3 * TPS,
        orig_source_end: TPS,
        cur_source_end: TPS,
        ..td
    });
    app.drag_trim_left_by(2, -TPS / 2, f);
    assert_eq!(app.trim_dragging.unwrap().cur_timeline_start, 2 * TPS);
}
