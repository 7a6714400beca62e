use vidcut::clip::Clip;
use vidcut::editor::VidCutApp;
use vidcut::media::decoder::{AssetKind, MediaInfo};
use vidcut::media::encoder::{ExportProgress, OutputFormat, QualityPreset};
use vidcut::media::ffmpeg_manager::{status_after_download, status_after_presence_check, FfmpegStatus};
use vidcut::media_actions::{
    default_export_name, export_segments, status_kind, ChannelEvent, PollAction, PreviewRequest,
    StatusKind,
};
use vidcut::media_asset::{AssetType, MediaAsset};
use vidcut::project::Project;
use vidcut::time::TICKS_PER_SECOND;
use vidcut::track::{Track, TrackType};

const TPS: i64 = TICKS_PER_SECOND;

fn clip(id: u128, asset: u128, track: u128, start: i64, end: i64, source_start: i64) -> Clip {
    Clip { id, asset_id: asset, track_id: track, timeline_start: start, timeline_end: end, source_start, source_end: source_start + end - start }
}

fn track(id: u128, t: TrackType, clips: Vec<Clip>) -> Track {
    let mut tr = Track::new("T".to_string(), t);
    tr.id = id;
    tr.clips = clips;
    tr
}

fn asset(path: &str, t: AssetType) -> MediaAsset {
    MediaAsset::new(path.to_string(), t, 10 * TPS, Some(640), Some(480), Some(25_000))
}

fn status_text(app: &VidCutApp) -> Option<String> {
    app.export_status.clone()
}

/// A project with a video asset `a`, an audio asset `s`, a video track and
/// an audio track.
fn sample_project() -> (Project, u128, u128) {
    let mut p = Project::new("Demo".to_string());
    let a = asset("/m/a.mp4", AssetType::Video);
    let s = asset("/m/s.wav", AssetType::Audio);
    let (ia, is) = (a.id, s.id);
    p.media_pool.push(a);
    p.media_pool.push(s);
    p.timeline.tracks.push(track(1, TrackType::Video, vec![
        clip(11, ia, 1, 0, 2 * TPS, TPS),
        clip(12, ia, 1, 5 * TPS, 5 * TPS + 1000, 0),
        clip(13, 4242, 1, 6 * TPS, 7 * TPS, 0),
    ]));
    p.timeline.tracks.push(track(2, TrackType::Audio, vec![clip(21, is, 2, 0, 3 * TPS, 0)]));
    p.timeline.recompute_duration();
    (p, ia, is)
}

#[test]
fn segments_of_a_project() {
    let (p, _, _) = sample_project();
    let segs = export_segments(&p);
    let got: Vec<(String, i64, i64, bool, bool)> = segs
        .iter()
        .map(|s| (s.source_path.clone(), s.source_start, s.duration, s.has_video, s.has_audio))
        .collect();
    assert_eq!(got, vec![
        ("/m/a.mp4".to_string(), TPS, 2 * TPS, true, true),
        ("/m/s.wav".to_string(), 0, 3 * TPS, false, true),
        // Shorter than 10 ms: exported for 10 ms.
        ("/m/a.mp4".to_string(), 0, TPS / 100, true, true),
    ]);
}

#[test]
fn export_dialog_and_start() {
    let mut app = VidCutApp::new();
    app.export_status = Some("old".to_string());
    app.action_export();
    assert!(app.export_dialog_open);
    assert_eq!(status_text(&app), None);
    assert!(!app.can_start_export());
    assert!(app.action_start_export().is_none());
    assert_eq!(status_text(&app).as_deref(), Some("\u{2717} No output path selected."));
    app.export_output_path = Some("/out/x.mkv".to_string());
    assert!(app.action_start_export().is_none());
    assert_eq!(status_text(&app).as_deref(), Some("\u{2717} No project open."));
    app.ensure_project();
    assert!(!app.can_start_export());
    assert!(app.action_start_export().is_none());
    assert_eq!(status_text(&app).as_deref(), Some("\u{2717} Timeline is empty \u{2014} add some clips first."));
    let (p, _, _) = sample_project();
    app.project = Some(p);
    assert!(app.can_start_export());
    app.export_format = OutputFormat::Mkv;
    app.export_quality = QualityPreset::Small;
    let (job, plan) = app.action_start_export().expect("a job");
    assert_eq!(job.segments.len(), 3);
    assert_eq!(job.output_path, "/out/x.mkv");
    assert_eq!(job.format, OutputFormat::Mkv);
    assert_eq!(job.quality, QualityPreset::Small);
    assert_eq!((job.fps, job.width, job.height), (30, 1920, 1080));
    assert_eq!(plan.args.first().map(|s| s.as_str()), Some("-y"));
    assert_eq!(plan.args.last().map(|s| s.as_str()), Some("/out/x.mkv"));
    assert_eq!(plan.monitor.total, (5 * TPS + TPS / 100) as i128);
    app.on_export_launched(Ok(()));
    assert_eq!(app.export_progress, Some((0, "Starting\u{2026}".to_string())));
    assert_eq!(status_text(&app), None);
    // While exporting, opening the dialog keeps the status.
    app.export_status = Some("kept".to_string());
    app.action_export();
    assert_eq!(status_text(&app).as_deref(), Some("kept"));
    app.on_export_launched(Err("Failed to spawn ffmpeg".to_string()));
    assert_eq!(status_text(&app).as_deref(), Some("\u{2717} Failed to spawn ffmpeg"));
}

#[test]
fn export_progress_events() {
    let mut app = VidCutApp::new();
    let r = app.poll_export_progress(ChannelEvent::Message(ExportProgress::Progress { permyriad: 2500, message: "time=1".to_string() }));
    assert_eq!(r, PollAction::ReadAgain);
    assert_eq!(app.export_progress, Some((2500, "time=1".to_string())));
    assert_eq!(app.poll_export_progress(ChannelEvent::Empty), PollAction::Wait);
    assert_eq!(app.export_progress, Some((2500, "time=1".to_string())));
    let r = app.poll_export_progress(ChannelEvent::Message(ExportProgress::Done { output_path: "/o.mp4".to_string() }));
    assert_eq!(r, PollAction::Close);
    assert_eq!(app.export_progress, None);
    assert_eq!(status_text(&app).as_deref(), Some("\u{2713} Export complete: /o.mp4"));
    app.poll_export_progress(ChannelEvent::Message(ExportProgress::Failed { message: "disk full".to_string() }));
    assert_eq!(status_text(&app).as_deref(), Some("\u{2717} Export failed: disk full"));
    app.export_status = None;
    app.poll_export_progress(ChannelEvent::Message(ExportProgress::Cancelled));
    assert_eq!(status_text(&app).as_deref(), Some("Export cancelled."));
    app.export_status = Some("shown".to_string());
    app.poll_export_progress(ChannelEvent::Message(ExportProgress::Cancelled));
    assert_eq!(status_text(&app).as_deref(), Some("shown"));
    app.export_progress = Some((1, "x".to_string()));
    assert_eq!(app.poll_export_progress(ChannelEvent::Disconnected), PollAction::Close);
    assert_eq!(app.export_progress, None);
    assert_eq!(status_text(&app).as_deref(), Some("shown"));
    app.export_progress = Some((1, "x".to_string()));
    app.action_cancel_export();
    assert_eq!(app.export_progress, None);
    assert_eq!(status_text(&app).as_deref(), Some("Export cancelled."));
}

#[test]
fn ffmpeg_setup_events() {
    let mut app = VidCutApp::new();
    assert_eq!(app.poll_ffmpeg_status(ChannelEvent::Message(FfmpegStatus::Downloading)), PollAction::ReadAgain);
    assert!(matches!(app.ffmpeg_status, FfmpegStatus::Downloading));
    assert_eq!(app.poll_ffmpeg_status(ChannelEvent::Empty), PollAction::Wait);
    assert_eq!(app.poll_ffmpeg_status(ChannelEvent::Disconnected), PollAction::Close);
    match &app.ffmpeg_status {
        FfmpegStatus::Failed(m) => assert_eq!(m, "FFmpeg setup thread exited unexpectedly."),
        other => panic!("unexpected {:?}", other),
    }
    app.action_retry_ffmpeg_setup();
    assert!(matches!(app.ffmpeg_status, FfmpegStatus::Checking));
    assert_eq!(app.poll_ffmpeg_status(ChannelEvent::Message(FfmpegStatus::Ready)), PollAction::Close);
    assert_eq!(app.poll_ffmpeg_status(ChannelEvent::Disconnected), PollAction::Close);
    assert!(matches!(app.ffmpeg_status, FfmpegStatus::Ready));
}

#[test]
fn ffmpeg_setup_outcomes() {
    assert!(matches!(status_after_presence_check(true), FfmpegStatus::Ready));
    assert!(matches!(status_after_presence_check(false), FfmpegStatus::Downloading));
    assert!(matches!(status_after_download(Ok(())), FfmpegStatus::Ready));
    match status_after_download(Err("timeout".to_string())) {
        FfmpegStatus::Failed(m) => assert_eq!(
            m,
            "Failed to download FFmpeg: timeout\n\nCheck your internet connection and restart VidCut."
        ),
        other => panic!("unexpected {:?}", other),
    }
}

#[test]
fn preview_requests() {
    let mut app = VidCutApp::new();
    assert!(matches!(app.request_preview_frame(false, None, false), PreviewRequest::Nothing));
    let (mut p, _, _) = sample_project();
    // A second video track above the first, with a clip from 1 s to 1.5 s.
    p.timeline.tracks.push(track(3, TrackType::Video, vec![clip(31, 4242, 3, TPS, 3 * TPS / 2, 0)]));
    app.project = Some(p);
    app.playhead = TPS / 2;
    // ffmpeg not ready yet.
    assert!(matches!(app.request_preview_frame(false, None, false), PreviewRequest::Nothing));
    app.ffmpeg_status = FfmpegStatus::Ready;
    assert!(matches!(app.request_preview_frame(true, None, false), PreviewRequest::Nothing));
    assert!(matches!(app.request_preview_frame(false, Some(15), false), PreviewRequest::Nothing));
    assert!(matches!(app.request_preview_frame(false, None, true), PreviewRequest::RetryLater));
    match app.request_preview_frame(false, Some(14), false) {
        PreviewRequest::Extract { frame_index, source_path, source_time } => {
            assert_eq!(frame_index, 15);
            assert_eq!(source_path, "/m/a.mp4");
            assert_eq!(source_time, TPS + TPS / 2);
        }
        other => panic!("unexpected {:?}", other),
    }
    // The upper track's clip has no asset in the pool.
    app.playhead = TPS + 1;
    assert!(matches!(app.request_preview_frame(false, None, false), PreviewRequest::Nothing));
    // Between clips.
    app.playhead = 4 * TPS;
    assert!(matches!(app.request_preview_frame(false, None, false), PreviewRequest::Clear));
    // Before the start: frame 0, no clip ends there.
    app.playhead = -TPS;
    assert!(matches!(app.request_preview_frame(false, Some(0), false), PreviewRequest::Nothing));
}

#[test]
fn importing_probed_files() {
    let mut app = VidCutApp::new();
    app.action_import_media(vec![]);
    assert!(app.project.is_none());
    let v = MediaInfo { width: 1280, height: 720, fps_milli: 29_970, duration: 4 * TPS, has_audio: true, kind: AssetKind::Video };
    let u = MediaInfo { width: 0, height: 0, fps_milli: 0, duration: 0, has_audio: false, kind: AssetKind::Unknown };
    let s = MediaInfo { width: 0, height: 0, fps_milli: 0, duration: 2 * TPS, has_audio: true, kind: AssetKind::Audio };
    app.action_import_media(vec![
        ("/m/trip.mov".to_string(), v),
        ("/m/data.bin".to_string(), u),
        ("/m/voice.mp3".to_string(), s),
    ]);
    let pool = app.media_pool();
    assert_eq!(pool.len(), 3);
    assert_eq!(pool[0].name, "trip");
    assert_eq!(pool[0].asset_type, AssetType::Video);
    assert_eq!((pool[0].width, pool[0].height, pool[0].fps_milli), (Some(1280), Some(720), Some(29_970)));
    assert_eq!(pool[0].duration, 4 * TPS);
    assert_eq!(pool[1].asset_type, AssetType::Video);
    assert_eq!((pool[1].width, pool[1].height, pool[1].fps_milli), (None, None, None));
    assert_eq!(pool[2].asset_type, AssetType::Audio);
    assert_eq!(pool[2].name, "voice");
    assert_eq!(app.project.as_ref().unwrap().name, "Untitled Project");
}

#[test]
fn opening_a_project() {
    let mut app = VidCutApp::new();
    app.action_add_track();
    app.playhead = 3 * TPS;
    app.is_playing = true;
    app.selected_asset_id = Some(5);
    let (p, _, _) = sample_project();
    app.action_open_project(p);
    assert_eq!(app.project.as_ref().unwrap().name, "Demo");
    assert_eq!(app.playhead, 0);
    assert!(!app.is_playing);
    assert!(!app.can_undo());
    assert_eq!(app.selected_asset_id, Some(5));
}

#[test]
fn dialog_helpers() {
    assert_eq!(default_export_name(OutputFormat::Mp4), "export.mp4");
    assert_eq!(default_export_name(OutputFormat::Mkv), "export.mkv");
    assert_eq!(status_kind("\u{2713} Export complete: x"), StatusKind::Success);
    assert_eq!(status_kind("\u{2717} Export failed: y"), StatusKind::Error);
    assert_eq!(status_kind("\u{26a0} careful"), StatusKind::Error);
    assert_eq!(status_kind("Export cancelled."), StatusKind::Neutral);
    assert_eq!(status_kind(""), StatusKind::Neutral);
}
