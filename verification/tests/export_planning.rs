use vidcut::media::encoder::{
    build_ffmpeg_args, parse_time_fraction, plan_export, trimmed, ExportJob, ExportMonitor,
    ExportProgress, ExportSegment, OutputFormat, QualityPreset,
};
use vidcut::media::error::MediaError;
use vidcut::time::TICKS_PER_SECOND;

const TPS: i64 = TICKS_PER_SECOND;

fn seg(path: &str, start: i64, duration: i64, has_video: bool, has_audio: bool) -> ExportSegment {
    ExportSegment {
        source_path: path.to_string(),
        source_start: start,
        duration,
        has_video,
        has_audio,
    }
}

fn job(segments: Vec<ExportSegment>, format: OutputFormat, quality: QualityPreset) -> ExportJob {
    ExportJob {
        segments,
        output_path: "/out/final.mp4".to_string(),
        format,
        quality,
        fps: 30,
        width: 1920,
        height: 1080,
    }
}

#[test]
fn format_names_and_codecs() {
    assert_eq!(OutputFormat::Mp4.extension(), "mp4");
    assert_eq!(OutputFormat::Mov.extension(), "mov");
    assert_eq!(OutputFormat::Mkv.extension(), "mkv");
    assert_eq!(OutputFormat::Mp4.display_name(), "MP4 (H.264 + AAC)");
    assert_eq!(OutputFormat::Mov.display_name(), "MOV (H.264 + AAC)");
    assert_eq!(OutputFormat::Mkv.display_name(), "MKV (H.264 + Vorbis)");
    assert_eq!(OutputFormat::Mp4.audio_codec(), "aac");
    assert_eq!(OutputFormat::Mov.audio_codec(), "aac");
    assert_eq!(OutputFormat::Mkv.audio_codec(), "libvorbis");
}

#[test]
fn quality_presets() {
    assert_eq!(QualityPreset::High.crf(), 18);
    assert_eq!(QualityPreset::Medium.crf(), 23);
    assert_eq!(QualityPreset::Small.crf(), 28);
    assert_eq!(QualityPreset::High.display_name(), "High quality (CRF 18)");
    assert_eq!(QualityPreset::Medium.display_name(), "Medium (CRF 23)");
    assert_eq!(QualityPreset::Small.display_name(), "Small file (CRF 28)");
}

#[test]
fn single_video_clip_arguments() {
    let j = job(
        vec![seg("/m/a.mp4", TPS / 2, 2 * TPS, true, true)],
        OutputFormat::Mp4,
        QualityPreset::Medium,
    );
    let args = build_ffmpeg_args(&j);
    let want: Vec<&str> = vec![
        "-y", "-ss", "0.500000", "-t", "2.000000", "-i", "/m/a.mp4", "-c:v", "libx264", "-crf",
        "23", "-preset", "medium", "-vf", "scale=1920:1080", "-c:a", "aac", "-stats",
        "-loglevel", "error", "/out/final.mp4",
    ];
    assert_eq!(args, want);
}

#[test]
fn single_audio_clip_arguments() {
    let j = job(
        vec![seg("/m/a.wav", 0, TPS, false, true)],
        OutputFormat::Mkv,
        QualityPreset::High,
    );
    let args = build_ffmpeg_args(&j);
    let want: Vec<&str> = vec![
        "-y", "-ss", "0.000000", "-t", "1.000000", "-i", "/m/a.wav", "-vn", "-c:a",
        "libvorbis", "-stats", "-loglevel", "error", "/out/final.mp4",
    ];
    assert_eq!(args, want);
}

#[test]
fn single_image_clip_arguments() {
    let j = job(
        vec![seg("/m/p.png", 0, TPS, true, false)],
        OutputFormat::Mov,
        QualityPreset::Small,
    );
    let args = build_ffmpeg_args(&j);
    let want: Vec<&str> = vec![
        "-y", "-ss", "0.000000", "-t", "1.000000", "-i", "/m/p.png", "-c:v", "libx264", "-crf",
        "28", "-preset", "medium", "-vf", "scale=1920:1080", "-an", "-stats", "-loglevel",
        "error", "/out/final.mp4",
    ];
    assert_eq!(args, want);
}

#[test]
fn concat_graph_of_several_clips() {
    let j = job(
        vec![
            seg("/m/a.mp4", 0, TPS, true, true),
            seg("/m/b.wav", TPS, 2 * TPS, false, true),
            seg("/m/c.mp4", 0, TPS, true, true),
        ],
        OutputFormat::Mp4,
        QualityPreset::High,
    );
    let args = build_ffmpeg_args(&j);
    let graph = "[0:v]scale=1920:1080,fps=30,setsar=1[v0];[2:v]scale=1920:1080,fps=30,setsar=1[v2];\
                 [v0][0:a][1:a][v2][2:a]concat=n=2:v=1:a=1[outv][outa]";
    let want: Vec<&str> = vec![
        "-y", "-ss", "0.000000", "-t", "1.000000", "-i", "/m/a.mp4", "-ss", "1.000000", "-t",
        "2.000000", "-i", "/m/b.wav", "-ss", "0.000000", "-t", "1.000000", "-i", "/m/c.mp4",
        "-filter_complex", graph, "-map", "[outv]", "-c:v", "libx264", "-crf", "18", "-preset",
        "medium", "-map", "[outa]", "-c:a", "aac", "-stats", "-loglevel", "error",
        "/out/final.mp4",
    ];
    assert_eq!(args, want);
}

#[test]
fn concat_of_audio_only_clips() {
    let j = job(
        vec![seg("/m/a.wav", 0, TPS, false, true), seg("/m/b.wav", 0, TPS, false, true)],
        OutputFormat::Mkv,
        QualityPreset::Medium,
    );
    let args = build_ffmpeg_args(&j);
    let want: Vec<&str> = vec![
        "-y", "-ss", "0.000000", "-t", "1.000000", "-i", "/m/a.wav", "-ss", "0.000000", "-t",
        "1.000000", "-i", "/m/b.wav", "-filter_complex",
        "[0:a][1:a]concat=n=1:v=0:a=1[outv][outa]", "-map", "[outa]", "-c:a", "libvorbis",
        "-stats", "-loglevel", "error", "/out/final.mp4",
    ];
    assert_eq!(args, want);
}

#[test]
fn empty_job_arguments_and_plan() {
    let j = job(vec![], OutputFormat::Mp4, QualityPreset::Medium);
    let args = build_ffmpeg_args(&j);
    let want: Vec<&str> = vec![
        "-y", "-filter_complex", "concat=n=1:v=0:a=0[outv][outa]", "-stats", "-loglevel",
        "error", "/out/final.mp4",
    ];
    assert_eq!(args, want);
    match plan_export(&j) {
        Err(e) => assert_eq!(e, MediaError::EmptyTimeline),
        Ok(_) => panic!("an empty job must not be planned"),
    }
}

#[test]
fn plan_of_a_job() {
    let j = job(
        vec![seg("/m/a.mp4", 0, 2 * TPS, true, true), seg("/m/b.mp4", 0, 3 * TPS, true, true)],
        OutputFormat::Mp4,
        QualityPreset::Medium,
    );
    let plan = match plan_export(&j) {
        Ok(p) => p,
        Err(_) => panic!("a job with segments is planned"),
    };
    assert_eq!(plan.args, build_ffmpeg_args(&j));
    assert_eq!(plan.monitor.total, 5 * TPS as i128);
    assert_eq!(plan.monitor.last, 0);
}

#[test]
fn time_field_of_stats_lines() {
    let total = 10 * TPS as i128;
    assert_eq!(parse_time_fraction("time=00:00:04.00", total), Some(4000));
    assert_eq!(parse_time_fraction("size=  12kB time=  00:00:05", total), Some(5000));
    assert_eq!(parse_time_fraction("time=00:01:00.00", total), Some(10000));
    assert_eq!(parse_time_fraction("time=00:00:00.5", total), Some(500));
    // The seconds part ends at the next white space, before the next field.
    let stats = "frame=  120 fps= 60 q=23.0 size=    512kB time=00:00:04.00 bitrate=1048.6kbits/s speed=2.00x";
    assert_eq!(parse_time_fraction(stats, total), Some(4000));
    assert_eq!(parse_time_fraction(stats, 8 * TPS as i128), Some(5000));
    assert_eq!(parse_time_fraction("time=00:00:04.00x", total), None);
    assert_eq!(parse_time_fraction("no time here", total), None);
    assert_eq!(parse_time_fraction("time=00:04.00", total), None);
    assert_eq!(parse_time_fraction("time=00:00:04.00", 0), None);
    assert_eq!(parse_time_fraction("time=00:00:04.00", -5), None);
}

#[test]
fn monitor_follows_progress_and_finishes() {
    let segs = vec![seg("/m/a.mp4", 0, 10 * TPS, true, true)];
    let mut m = ExportMonitor::new(&segs);
    assert_eq!(m.total, 10 * TPS as i128);
    match m.on_stderr_line("  time=00:00:09.95") {
        Some(ExportProgress::Progress { permyriad, message }) => {
            assert_eq!(permyriad, 9950);
            assert_eq!(message, "time=00:00:09.95");
        }
        other => panic!("unexpected {:?}", other),
    }
    assert_eq!(m.last, 9950);
    assert!(m.on_stderr_line("some warning").is_none());
    assert_eq!(m.last, 9950);
    match m.finish("/out/x.mp4".to_string()) {
        ExportProgress::Done { output_path } => assert_eq!(output_path, "/out/x.mp4"),
        other => panic!("unexpected {:?}", other),
    }
    let mut m2 = ExportMonitor::new(&segs);
    m2.on_stderr_line("time=00:00:05");
    assert!(matches!(m2.finish("/out/x.mp4".to_string()), ExportProgress::Cancelled));
}

#[test]
fn trimming_lines() {
    assert_eq!(trimmed("  a b \t"), "a b");
    assert_eq!(trimmed(""), "");
    assert_eq!(trimmed("\u{3000}x\u{a0}"), "x");
}

#[test]
fn finished_export_with_standard_stats_lines_is_done() {
    let segs = vec![seg("/m/a.mp4", 0, 8 * TPS, true, true)];
    let mut m = ExportMonitor::new(&segs);
    let line = "frame=  240 fps= 60 q=23.0 size=    900kB time=00:00:08.00 bitrate=1048.6kbits/s speed=2.00x";
    assert!(matches!(m.on_stderr_line(line), Some(ExportProgress::Progress { permyriad: 10000, .. })));
    assert!(matches!(m.finish("/out/x.mp4".to_string()), ExportProgress::Done { .. }));
}

#[test]
fn signed_times_in_stats_lines() {
    let total = 10 * TPS as i128;
    // Each part carries its own sign, as a number does: "-00" is zero hours.
    assert_eq!(parse_time_fraction("time=-00:00:00.05 bitrate=N/A", total), Some(50));
    assert_eq!(parse_time_fraction("time=-01:00:00.00", total), Some(0));
    assert_eq!(parse_time_fraction("time=+00:00:02.00", total), Some(2000));
    assert_eq!(parse_time_fraction("time=00:00:-1", total), Some(0));
    assert_eq!(parse_time_fraction("time=00:00:--1", total), None);
}
