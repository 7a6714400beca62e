use vidcut::media::decoder::{
    audio_media_info, ffprobe_media_info, ffprobe_stdout_info, mp4_media_info, AssetKind, AudioTrack, MediaInfo,
    Mp4Track, Mp4TrackKind, ProbeStep, ProbeStream,
};
use vidcut::media::error::MediaError;
use vidcut::media::frame_extractor::frame_from_raw;
use vidcut::time::TICKS_PER_SECOND;

const TPS: i64 = TICKS_PER_SECOND;

fn info(kind: AssetKind, duration: i64) -> MediaInfo {
    MediaInfo { width: 0, height: 0, fps_milli: 0, duration, has_audio: false, kind }
}

#[test]
fn kinds_by_extension() {
    assert_eq!(AssetKind::from_path("/videos/clip.MP4"), AssetKind::Video);
    assert_eq!(AssetKind::from_path("movie.mkv"), AssetKind::Video);
    assert_eq!(AssetKind::from_path("song.WaV"), AssetKind::Audio);
    assert_eq!(AssetKind::from_path("a.opus"), AssetKind::Audio);
    assert_eq!(AssetKind::from_path("pic.jpeg"), AssetKind::Image);
    assert_eq!(AssetKind::from_path("scan.TIF"), AssetKind::Image);
    assert_eq!(AssetKind::from_path("notes.txt"), AssetKind::Unknown);
    assert_eq!(AssetKind::from_path("README"), AssetKind::Unknown);
    assert_eq!(AssetKind::from_path(".mp4"), AssetKind::Unknown);
}

#[test]
fn default_media_info() {
    let d = MediaInfo::default();
    assert_eq!(d, info(AssetKind::Unknown, 0));
}

#[test]
fn first_probe_per_kind() {
    assert_eq!(ProbeStep::first("a.mp4"), ProbeStep::ReadMp4);
    assert_eq!(ProbeStep::first("a.M4V"), ProbeStep::ReadMp4);
    assert_eq!(ProbeStep::first("a.mov"), ProbeStep::RunFfprobe);
    assert_eq!(ProbeStep::first("a.mp3"), ProbeStep::ReadAudio);
    assert_eq!(ProbeStep::first("a.png"), ProbeStep::Done(info(AssetKind::Image, 0)));
    assert_eq!(ProbeStep::first("a.xyz"), ProbeStep::ReadAudio);
}

#[test]
fn probe_fallbacks() {
    let good = MediaInfo { width: 640, height: 480, fps_milli: 25_000, duration: TPS, has_audio: true, kind: AssetKind::Video };
    assert_eq!(ProbeStep::ReadMp4.next(AssetKind::Video, Some(good)), ProbeStep::Done(good));
    assert_eq!(ProbeStep::ReadMp4.next(AssetKind::Video, Some(info(AssetKind::Video, 0))), ProbeStep::RunFfprobe);
    assert_eq!(ProbeStep::ReadMp4.next(AssetKind::Video, None), ProbeStep::RunFfprobe);
    let assumed = MediaInfo { has_audio: true, ..info(AssetKind::Video, 0) };
    assert_eq!(ProbeStep::RunFfprobe.next(AssetKind::Video, None), ProbeStep::Done(assumed));
    assert_eq!(ProbeStep::ReadAudio.next(AssetKind::Audio, None), ProbeStep::Done(info(AssetKind::Audio, 0)));
    assert_eq!(ProbeStep::ReadAudio.next(AssetKind::Unknown, Some(info(AssetKind::Unknown, 0))), ProbeStep::Done(info(AssetKind::Unknown, 0)));
    let heard = MediaInfo { has_audio: true, ..info(AssetKind::Unknown, 3 * TPS) };
    assert_eq!(ProbeStep::ReadAudio.next(AssetKind::Unknown, Some(heard)), ProbeStep::Done(heard));
}

#[test]
fn ffprobe_report() {
    let streams = vec![
        ProbeStream { codec_type: "audio".to_string(), width: None, height: None, r_frame_rate: None },
        ProbeStream { codec_type: "video".to_string(), width: Some(1280), height: Some(720), r_frame_rate: Some("30000/1001".to_string()) },
        ProbeStream { codec_type: "video".to_string(), width: Some(320), height: Some(240), r_frame_rate: Some("25/1".to_string()) },
    ];
    let m = ffprobe_media_info(AssetKind::Video, Some("12.5".to_string()), &streams);
    assert_eq!(m.width, 1280);
    assert_eq!(m.height, 720);
    assert_eq!(m.fps_milli, 29_970);
    assert!(m.has_audio);
    assert_eq!(m.duration, 12 * TPS + TPS / 2);
    assert_eq!(m.kind, AssetKind::Video);
    // A duration text with spaces does not read as a number.
    let spaced = ffprobe_media_info(AssetKind::Video, Some(" 12.5 ".to_string()), &vec![]);
    assert_eq!(spaced.duration, 0);
    let none = ffprobe_media_info(AssetKind::Video, None, &vec![]);
    assert_eq!(none, info(AssetKind::Video, 0));
    let bad_rate = vec![ProbeStream { codec_type: "video".to_string(), width: Some(10), height: Some(20), r_frame_rate: Some("0/0".to_string()) }];
    let b = ffprobe_media_info(AssetKind::Video, Some("oops".to_string()), &bad_rate);
    assert_eq!((b.width, b.height, b.fps_milli, b.duration), (10, 20, 0, 0));
}

#[test]
fn mp4_track_scan() {
    let tracks = vec![
        Mp4Track { kind: Mp4TrackKind::Video, width: 1920, height: 1080, frame_rate_milli: 24_000 },
        Mp4Track { kind: Mp4TrackKind::Audio, width: 0, height: 0, frame_rate_milli: 0 },
        Mp4Track { kind: Mp4TrackKind::Video, width: 640, height: 360, frame_rate_milli: 0 },
        Mp4Track { kind: Mp4TrackKind::Other, width: 9, height: 9, frame_rate_milli: 9 },
    ];
    let m = mp4_media_info(AssetKind::Video, 7 * TPS, &tracks);
    assert_eq!(m, MediaInfo { width: 640, height: 360, fps_milli: 24_000, duration: 7 * TPS, has_audio: true, kind: AssetKind::Video });
    assert_eq!(mp4_media_info(AssetKind::Video, 0, &vec![]), info(AssetKind::Video, 0));
}

#[test]
fn audio_track_lengths() {
    let tracks = vec![
        AudioTrack { n_frames: Some(48_000), time_base: Some((1, 48_000)) },
        AudioTrack { n_frames: Some(44_100 * 3), time_base: Some((1, 44_100)) },
        AudioTrack { n_frames: None, time_base: Some((1, 8_000)) },
        AudioTrack { n_frames: Some(5), time_base: None },
    ];
    let m = audio_media_info(AssetKind::Audio, &tracks);
    assert_eq!(m, MediaInfo { width: 0, height: 0, fps_milli: 0, duration: 3 * TPS, has_audio: true, kind: AssetKind::Audio });
    let silent = audio_media_info(AssetKind::Unknown, &vec![]);
    assert_eq!(silent, MediaInfo { has_audio: true, ..info(AssetKind::Unknown, 0) });
    let huge = vec![AudioTrack { n_frames: Some(u64::MAX), time_base: Some((u32::MAX, 1)) }];
    assert_eq!(audio_media_info(AssetKind::Audio, &huge).duration, i64::MAX);
}

#[test]
fn raw_frames() {
    let f = match frame_from_raw(vec![7u8; 4 * 3 * 2], 3) {
        Ok(f) => f,
        Err(e) => panic!("unexpected {:?}", e),
    };
    assert_eq!((f.width, f.height, f.rgba.len()), (3, 2, 24));
    assert_eq!(f.rgba.len(), (f.width * f.height * 4) as usize);
    match frame_from_raw(vec![], 640) {
        Err(e) => assert_eq!(e, MediaError::NoFrameData),
        Ok(_) => panic!("no bytes is no frame"),
    }
    match frame_from_raw(vec![0u8; 10], 2) {
        Err(e) => assert_eq!(e, MediaError::FrameLengthMismatch { len: 10, stride: 8, width: 2 }),
        Ok(_) => panic!("10 bytes are not whole rows of 8"),
    }
    match frame_from_raw(vec![1, 2, 3, 4], 0) {
        Err(e) => assert_eq!(e, MediaError::FrameLengthMismatch { len: 4, stride: 0, width: 0 }),
        Ok(_) => panic!("no frame is 0 pixels wide"),
    }
    match frame_from_raw(vec![], 0) {
        Err(e) => assert_eq!(e, MediaError::NoFrameData),
        Ok(_) => panic!("no bytes is no frame"),
    }
}

#[test]
fn ffprobe_json_report() {
    let json = r#"{"streams":[{"codec_type":"video","width":1920,"height":1080,"r_frame_rate":"25/1"},{"codec_type":"audio"}],"format":{"duration":"3.5"}}"#;
    let m = ffprobe_stdout_info(AssetKind::Video, json).expect("a report");
    assert_eq!(m, MediaInfo { width: 1920, height: 1080, fps_milli: 25_000, duration: 3 * TPS + TPS / 2, has_audio: true, kind: AssetKind::Video });
    assert_eq!(ffprobe_stdout_info(AssetKind::Video, "not json"), None);
    let bare = ffprobe_stdout_info(AssetKind::Video, "{}").expect("a report");
    assert_eq!(bare, info(AssetKind::Video, 0));
    let numeric = ffprobe_stdout_info(AssetKind::Audio, r#"{"format":{"duration":3.5}}"#).expect("a report");
    assert_eq!(numeric.duration, 0);
}

#[test]
fn failed_probes_keep_the_kind_of_the_path() {
    let kind = AssetKind::from_path("/media/Clip.mp4");
    assert_eq!(kind, AssetKind::Video);
    let first = ProbeStep::first("/media/Clip.mp4");
    assert_eq!(first, ProbeStep::ReadMp4);
    let second = first.next(kind, None);
    assert_eq!(second, ProbeStep::RunFfprobe);
    match second.next(kind, None) {
        ProbeStep::Done(m) => {
            assert_eq!(m.kind, AssetKind::Video);
            assert!(m.has_audio);
        }
        other => panic!("probing did not finish: {:?}", other),
    }
}

#[test]
fn frame_extraction_arguments() {
    let args = vidcut::media::frame_extractor::frame_extract_args("/media/a.mov", 3 * TPS / 2, 640);
    assert_eq!(
        args,
        vec![
            "-ss", "1.500000", "-i", "/media/a.mov", "-vframes", "1", "-vf", "scale=640:-2", "-f", "rawvideo",
            "-pix_fmt", "rgba", "-v", "error", "pipe:1",
        ]
    );
}

#[test]
fn decimal_and_signed_frame_rates() {
    let stream = |r: &str| vec![ProbeStream {
        codec_type: "video".to_string(),
        width: Some(640),
        height: Some(480),
        r_frame_rate: Some(r.to_string()),
    }];
    assert_eq!(ffprobe_media_info(AssetKind::Video, None, &stream("29.97/1")).fps_milli, 29_970);
    assert_eq!(ffprobe_media_info(AssetKind::Video, None, &stream(" 24 / 1.0 ")).fps_milli, 24_000);
    assert_eq!(ffprobe_media_info(AssetKind::Video, None, &stream("+30/1")).fps_milli, 30_000);
    assert_eq!(ffprobe_media_info(AssetKind::Video, None, &stream("-30/1")).fps_milli, 0);
    assert_eq!(ffprobe_media_info(AssetKind::Video, None, &stream("30/-1")).fps_milli, 0);
    assert_eq!(ffprobe_media_info(AssetKind::Video, None, &stream(".5/1")).fps_milli, 500);
    // Negative durations read with their sign.
    assert_eq!(ffprobe_media_info(AssetKind::Video, Some("-1.5".to_string()), &vec![]).duration, -(TPS + TPS / 2));
}

#[test]
fn finished_probes_carry_the_kind_of_the_file() {
    let odd = MediaInfo { width: 1, height: 1, fps_milli: 0, duration: TPS, has_audio: false, kind: AssetKind::Image };
    assert_eq!(
        ProbeStep::ReadMp4.next(AssetKind::Video, Some(odd)),
        ProbeStep::Done(MediaInfo { kind: AssetKind::Video, ..odd })
    );
    assert_eq!(
        ProbeStep::RunFfprobe.next(AssetKind::Video, Some(odd)),
        ProbeStep::Done(MediaInfo { kind: AssetKind::Video, ..odd })
    );
    assert_eq!(
        ProbeStep::ReadAudio.next(AssetKind::Audio, Some(odd)),
        ProbeStep::Done(MediaInfo { kind: AssetKind::Audio, ..odd })
    );
}
