//! Encoder — renders the timeline to an output video file.
//!
//! The export drives the `ffmpeg` executable: the clips are concatenated
//! with a `filter_complex` concat graph (or transcoded directly when there
//! is a single clip).  This module plans the export — the argument list
//! handed to `ffmpeg` and the running progress read back from its `-stats`
//! output; the application spawns the process and moves the lines.
//!
//! Supported formats: MP4 (H.264 + AAC), MOV (H.264 + AAC), MKV (H.264 + Vorbis).

use vstd::prelude::*;

use crate::media::error::MediaError;
use crate::text::{
    chars_of, decimal, find_char, parse_seconds, push_decimal, seconds_arg, seconds_text,
    skip_white_space, trim, trim_start, trim_white_space_end, index_of, seconds_ticks, word_end,
    word_len, is_white_space, lemma_index_of_is,
};

verus! {

/// A clip segment to be included in the export.
#[derive(Debug, Clone)]
pub struct ExportSegment {
    /// Path of the source media file.
    pub source_path: String,
    /// In-point within the source file, in ticks.
    pub source_start: i64,
    /// Duration of the segment, in ticks.
    pub duration: i64,
    /// Whether this segment has a video stream.
    pub has_video: bool,
    /// Whether this segment has an audio stream.
    pub has_audio: bool,
}

/// The mathematical value of an [`ExportSegment`].
pub struct ExportSegmentView {
    pub source_path: Seq<char>,
    pub source_start: i64,
    pub duration: i64,
    pub has_video: bool,
    pub has_audio: bool,
}

impl View for ExportSegment {
    type V = ExportSegmentView;

    open spec fn view(&self) -> ExportSegmentView {
        ExportSegmentView {
            source_path: self.source_path@,
            source_start: self.source_start,
            duration: self.duration,
            has_video: self.has_video,
            has_audio: self.has_audio,
        }
    }
}

/// Output container format.
#[derive(Debug, Clone, Copy, PartialEq, Eq, Structural)]
pub enum OutputFormat {
    Mp4,
    Mov,
    Mkv,
}

/// The file extension of a container format.
pub open spec fn format_extension(f: OutputFormat) -> Seq<char> {
    match f {
        OutputFormat::Mp4 => "mp4"@,
        OutputFormat::Mov => "mov"@,
        OutputFormat::Mkv => "mkv"@,
    }
}

/// The name of a container format shown to the user.
pub open spec fn format_display_name(f: OutputFormat) -> Seq<char> {
    match f {
        OutputFormat::Mp4 => "MP4 (H.264 + AAC)"@,
        OutputFormat::Mov => "MOV (H.264 + AAC)"@,
        OutputFormat::Mkv => "MKV (H.264 + Vorbis)"@,
    }
}

/// The ffmpeg audio encoder used for a container format.
pub open spec fn format_audio_codec(f: OutputFormat) -> Seq<char> {
    match f {
        OutputFormat::Mp4 | OutputFormat::Mov => "aac"@,
        OutputFormat::Mkv => "libvorbis"@,
    }
}

impl OutputFormat {
    pub fn extension(self) -> (r: &'static str)
        ensures
            r@ == format_extension(self),
    {
        match self {
            OutputFormat::Mp4 => "mp4",
            OutputFormat::Mov => "mov",
            OutputFormat::Mkv => "mkv",
        }
    }

    pub fn display_name(self) -> (r: &'static str)
        ensures
            r@ == format_display_name(self),
    {
        match self {
            OutputFormat::Mp4 => "MP4 (H.264 + AAC)",
            OutputFormat::Mov => "MOV (H.264 + AAC)",
            OutputFormat::Mkv => "MKV (H.264 + Vorbis)",
        }
    }

    /// The ffmpeg audio encoder for this format.
    pub fn audio_codec(self) -> (r: &'static str)
        ensures
            r@ == format_audio_codec(self),
    {
        match self {
            OutputFormat::Mp4 | OutputFormat::Mov => "aac",
            OutputFormat::Mkv => "libvorbis",
        }
    }
}

/// Quality preset mapped to a CRF value for libx264.
#[derive(Debug, Clone, Copy, PartialEq, Eq, Structural)]
pub enum QualityPreset {
    /// High quality — CRF 18.
    High,
    /// Medium quality — CRF 23 (ffmpeg default).
    Medium,
    /// Small file size — CRF 28.
    Small,
}

/// The libx264 CRF value of a preset.
pub open spec fn preset_crf(q: QualityPreset) -> u32 {
    match q {
        QualityPreset::High => 18,
        QualityPreset::Medium => 23,
        QualityPreset::Small => 28,
    }
}

/// The name of a preset shown to the user.
pub open spec fn preset_display_name(q: QualityPreset) -> Seq<char> {
    match q {
        QualityPreset::High => "High quality (CRF 18)"@,
        QualityPreset::Medium => "Medium (CRF 23)"@,
        QualityPreset::Small => "Small file (CRF 28)"@,
    }
}

impl QualityPreset {
    pub fn crf(self) -> (r: u32)
        ensures
            r == preset_crf(self),
    {
        match self {
            QualityPreset::High => 18,
            QualityPreset::Medium => 23,
            QualityPreset::Small => 28,
        }
    }

    pub fn display_name(self) -> (r: &'static str)
        ensures
            r@ == preset_display_name(self),
    {
        match self {
            QualityPreset::High => "High quality (CRF 18)",
            QualityPreset::Medium => "Medium (CRF 23)",
            QualityPreset::Small => "Small file (CRF 28)",
        }
    }
}

/// A progress update of a running export.
#[derive(Debug, Clone)]
pub enum ExportProgress {
    /// Export is in progress; `permyriad` is the done part in ten-thousandths
    /// (`0..=10000`), `message` the stats line it was read from.
    Progress { permyriad: u32, message: String },
    /// Export completed successfully.
    Done { output_path: String },
    /// Export failed with an error message.
    Failed { message: String },
    /// Export was cancelled by the user.
    Cancelled,
}

/// Parameters for a single export run.
#[derive(Debug, Clone)]
pub struct ExportJob {
    /// Ordered list of clip segments to concatenate.
    pub segments: Vec<ExportSegment>,
    /// Destination file path (including extension).
    pub output_path: String,
    /// Container format.
    pub format: OutputFormat,
    /// Quality preset.
    pub quality: QualityPreset,
    /// Project frame rate.
    pub fps: u32,
    /// Output width in pixels.
    pub width: u32,
    /// Output height in pixels.
    pub height: u32,
}

/// The texts of a list of strings.
pub open spec fn texts(v: Seq<String>) -> Seq<Seq<char>> {
    v.map_values(|a: String| a@)
}

/// The `-ss <start> -t <duration> -i <path>` inputs of the segments, in order.
pub open spec fn input_args(segs: Seq<ExportSegment>) -> Seq<Seq<char>>
    decreases segs.len(),
{
    if segs.len() == 0 {
        Seq::empty()
    } else {
        let s = segs.last();
        input_args(segs.drop_last()) + seq![
            "-ss"@,
            seconds_text(s.source_start as int),
            "-t"@,
            seconds_text(s.duration as int),
            "-i"@,
            s.source_path@,
        ]
    }
}

/// `scale=<width>:<height>`.
pub open spec fn scale_text(width: u32, height: u32) -> Seq<char> {
    "scale="@ + decimal(width as nat) + ":"@ + decimal(height as nat)
}

/// The libx264 video encoder settings for a preset.
pub open spec fn video_codec_args(q: QualityPreset) -> Seq<Seq<char>> {
    seq!["-c:v"@, "libx264"@, "-crf"@, decimal(preset_crf(q) as nat), "-preset"@, "medium"@]
}

/// The encoder settings for a job of the one segment `s`: transcode the
/// video scaled to the output size (or drop it), encode the audio (or
/// drop it).
pub open spec fn single_segment_args(job: ExportJob, s: ExportSegment) -> Seq<Seq<char>> {
    (if s.has_video {
        video_codec_args(job.quality) + seq!["-vf"@, scale_text(job.width, job.height)]
    } else {
        seq!["-vn"@]
    }) + (if s.has_audio {
        seq!["-c:a"@, format_audio_codec(job.format)]
    } else {
        seq!["-an"@]
    })
}

/// `[<i>:v]scale=<w>:<h>,fps=<fps>,setsar=1[v<i>];`, the filter that brings
/// the video of input `i` to the output size and rate.
pub open spec fn video_filter(i: nat, job: ExportJob) -> Seq<char> {
    "["@ + decimal(i) + ":v]scale="@ + decimal(job.width as nat) + ":"@ + decimal(job.height as nat)
        + ",fps="@ + decimal(job.fps as nat) + ",setsar=1[v"@ + decimal(i) + "];"@
}

/// The video filters of the first `n` segments that have video.
pub open spec fn video_filters(job: ExportJob, n: nat) -> Seq<char>
    decreases n,
{
    if n == 0 {
        Seq::empty()
    } else {
        let i = (n - 1) as nat;
        video_filters(job, i) + if job.segments@[i as int].has_video {
            video_filter(i, job)
        } else {
            Seq::empty()
        }
    }
}

/// The concat inputs of the first `n` segments: `[v<i>]` for a video
/// stream, `[<i>:a]` for an audio stream.
pub open spec fn concat_inputs(segs: Seq<ExportSegment>, n: nat) -> Seq<char>
    decreases n,
{
    if n == 0 {
        Seq::empty()
    } else {
        let i = (n - 1) as nat;
        concat_inputs(segs, i) + (if segs[i as int].has_video {
            "[v"@ + decimal(i) + "]"@
        } else {
            Seq::empty()
        }) + (if segs[i as int].has_audio {
            "["@ + decimal(i) + ":a]"@
        } else {
            Seq::empty()
        })
    }
}

/// How many of the first `n` segments have video.
pub open spec fn count_video(segs: Seq<ExportSegment>, n: nat) -> nat
    decreases n,
{
    if n == 0 {
        0
    } else {
        count_video(segs, (n - 1) as nat) + if segs[n - 1].has_video {
            1nat
        } else {
            0nat
        }
    }
}

/// How many of the first `n` segments have audio.
pub open spec fn count_audio(segs: Seq<ExportSegment>, n: nat) -> nat
    decreases n,
{
    if n == 0 {
        0
    } else {
        count_audio(segs, (n - 1) as nat) + if segs[n - 1].has_audio {
            1nat
        } else {
            0nat
        }
    }
}

/// The concat graph of a job: the video filters, the concat inputs, and
/// `concat=n=<n>:v=<0|1>:a=<0|1>[outv][outa]`, where `n` is the smaller of
/// the video and audio stream counts, at least 1.
pub open spec fn concat_graph(job: ExportJob) -> Seq<char> {
    let segs = job.segments@;
    let n = segs.len();
    let v = count_video(segs, n);
    let a = count_audio(segs, n);
    let m = if v < a { v } else { a };
    let cn = if m < 1 { 1 } else { m };
    video_filters(job, n) + concat_inputs(segs, n) + "concat=n="@ + decimal(cn) + ":v="@
        + decimal(if v > 0 { 1 } else { 0 }) + ":a="@ + decimal(if a > 0 { 1 } else { 0 })
        + "[outv][outa]"@
}

/// The settings for a job of several segments (or none): the concat graph,
/// then the mapped video and audio outputs with their encoders, for those
/// kinds of stream that some segment has.
pub open spec fn multi_segment_args(job: ExportJob) -> Seq<Seq<char>> {
    let segs = job.segments@;
    let n = segs.len();
    seq!["-filter_complex"@, concat_graph(job)] + (if count_video(segs, n) > 0 {
        seq!["-map"@, "[outv]"@] + video_codec_args(job.quality)
    } else {
        Seq::empty()
    }) + (if count_audio(segs, n) > 0 {
        seq!["-map"@, "[outa]"@, "-c:a"@, format_audio_codec(job.format)]
    } else {
        Seq::empty()
    })
}

/// The arguments `ffmpeg` is run with to export `job`: overwrite the
/// output, the inputs, the encoding settings, time-based stats on stderr
/// with only errors logged, and the output path.
pub open spec fn export_args(job: ExportJob) -> Seq<Seq<char>> {
    seq!["-y"@] + input_args(job.segments@) + (if job.segments@.len() == 1 {
        single_segment_args(job, job.segments@[0])
    } else {
        multi_segment_args(job)
    }) + seq!["-stats"@, "-loglevel"@, "error"@, job.output_path@]
}

/// The six input arguments of one segment.
spec fn segment_input(s: ExportSegment) -> Seq<Seq<char>> {
    seq!["-ss"@, seconds_text(s.source_start as int), "-t"@, seconds_text(s.duration as int), "-i"@, s.source_path@]
}

proof fn lemma_input_args_blocks(segs: Seq<ExportSegment>)
    ensures
        input_args(segs).len() == 6 * segs.len(),
        forall|i: int|
            0 <= i < segs.len() ==> #[trigger] input_args(segs).subrange(6 * i, 6 * i + 6)
                == segment_input(segs[i]),
    decreases segs.len(),
{
    if segs.len() > 0 {
        let f = segs.drop_last();
        lemma_input_args_blocks(f);
        let a = input_args(segs);
        assert forall|i: int| 0 <= i < segs.len() implies #[trigger] a.subrange(6 * i, 6 * i + 6)
            == segment_input(segs[i]) by {
            if i < f.len() {
                assert(a.subrange(6 * i, 6 * i + 6) =~= input_args(f).subrange(6 * i, 6 * i + 6));
                assert(segs[i] == f[i]);
            } else {
                assert(a.subrange(6 * i, 6 * i + 6) =~= segment_input(segs.last()));
            }
        }
    }
}

/// Law: the export arguments overwrite the output (`-y`), then give every
/// segment, in timeline order, as an input read from its source in-point
/// for its duration (`-ss <start> -t <duration> -i <path>`), and end with
/// time-based stats, errors-only logging and the output path.
pub proof fn lemma_export_args_frame(job: ExportJob)
    ensures
        ({
            let a = export_args(job);
            let segs = job.segments@;
            &&& a[0] == "-y"@
            &&& forall|i: int|
                0 <= i < segs.len() ==> #[trigger] a.subrange(1 + 6 * i, 7 + 6 * i) == seq![
                    "-ss"@,
                    seconds_text(segs[i].source_start as int),
                    "-t"@,
                    seconds_text(segs[i].duration as int),
                    "-i"@,
                    segs[i].source_path@,
                ]
            &&& a.len() >= 6 * segs.len() + 5
            &&& a.subrange(a.len() - 4, a.len() as int) == seq!["-stats"@, "-loglevel"@, "error"@, job.output_path@]
        }),
{
    let segs = job.segments@;
    lemma_input_args_blocks(segs);
    let a = export_args(job);
    let ins = input_args(segs);
    let mid = if segs.len() == 1 {
        single_segment_args(job, segs[0])
    } else {
        multi_segment_args(job)
    };
    let tail = seq!["-stats"@, "-loglevel"@, "error"@, job.output_path@];
    assert(a == seq!["-y"@] + ins + mid + tail);
    assert forall|i: int| 0 <= i < segs.len() implies #[trigger] a.subrange(1 + 6 * i, 7 + 6 * i) == seq![
        "-ss"@,
        seconds_text(segs[i].source_start as int),
        "-t"@,
        seconds_text(segs[i].duration as int),
        "-i"@,
        segs[i].source_path@,
    ] by {
        assert(a.subrange(1 + 6 * i, 7 + 6 * i) =~= ins.subrange(6 * i, 6 * i + 6));
        assert(ins.subrange(6 * i, 6 * i + 6) == segment_input(segs[i]));
    }
    assert(a.subrange(a.len() - 4, a.len() as int) =~= tail);
}

pub(crate) fn push_arg(args: &mut Vec<String>, a: String)
    ensures
        texts(final(args)@) == texts(old(args)@).push(a@),
{
    args.push(a);
    assert(texts(args@) =~= texts(old(args)@).push(a@));
}

pub(crate) fn push_lit(args: &mut Vec<String>, a: &str)
    ensures
        texts(final(args)@) == texts(old(args)@).push(a@),
{
    push_arg(args, a.to_owned());
}

fn push_video_codec(args: &mut Vec<String>, q: QualityPreset)
    ensures
        texts(final(args)@) == texts(old(args)@) + video_codec_args(q),
{
    push_lit(args, "-c:v");
    push_lit(args, "libx264");
    push_lit(args, "-crf");
    let mut crf = String::new();
    push_decimal(&mut crf, q.crf() as u128);
    assert(crf@ =~= decimal(preset_crf(q) as nat));
    push_arg(args, crf);
    push_lit(args, "-preset");
    push_lit(args, "medium");
    assert(texts(args@) =~= texts(old(args)@) + video_codec_args(q));
}

fn push_inputs(args: &mut Vec<String>, segs: &Vec<ExportSegment>)
    ensures
        texts(final(args)@) == texts(old(args)@) + input_args(segs@),
{
    let n = segs.len();
    let mut i: usize = 0;
    while i < n
        invariant
            n == segs@.len(),
            i <= n,
            texts(args@) == texts(old(args)@) + input_args(segs@.take(i as int)),
        decreases n - i,
    {
        let seg = &segs[i];
        push_lit(args, "-ss");
        push_arg(args, seconds_arg(seg.source_start));
        push_lit(args, "-t");
        push_arg(args, seconds_arg(seg.duration));
        push_lit(args, "-i");
        push_arg(args, seg.source_path.clone());
        proof {
            assert(segs@.take(i + 1).drop_last() =~= segs@.take(i as int));
            assert(segs@.take(i + 1).last() == segs@[i as int]);
            assert(texts(args@) =~= texts(old(args)@) + input_args(segs@.take(i + 1)));
        }
        i = i + 1;
    }
    assert(segs@.take(n as int) =~= segs@);
}

fn push_single_segment(args: &mut Vec<String>, job: &ExportJob, seg: &ExportSegment)
    ensures
        texts(final(args)@) == texts(old(args)@) + single_segment_args(*job, *seg),
{
    if seg.has_video {
        push_video_codec(args, job.quality);
        push_lit(args, "-vf");
        let mut sc = String::new();
        sc.append("scale=");
        push_decimal(&mut sc, job.width as u128);
        sc.append(":");
        push_decimal(&mut sc, job.height as u128);
        assert(sc@ =~= scale_text(job.width, job.height));
        push_arg(args, sc);
    } else {
        push_lit(args, "-vn");
    }
    let ghost mid = texts(args@);
    if seg.has_audio {
        push_lit(args, "-c:a");
        push_lit(args, job.format.audio_codec());
    } else {
        push_lit(args, "-an");
    }
    assert(texts(args@) =~= texts(old(args)@) + single_segment_args(*job, *seg));
}

fn push_video_filter(s: &mut String, i: usize, job: &ExportJob)
    ensures
        final(s)@ == old(s)@ + video_filter(i as nat, *job),
{
    s.append("[");
    push_decimal(s, i as u128);
    s.append(":v]scale=");
    push_decimal(s, job.width as u128);
    s.append(":");
    push_decimal(s, job.height as u128);
    s.append(",fps=");
    push_decimal(s, job.fps as u128);
    s.append(",setsar=1[v");
    push_decimal(s, i as u128);
    s.append("];");
    assert(s@ =~= old(s)@ + video_filter(i as nat, *job));
}

/// The concat graph of `job`, with the number of segments that have video
/// and that have audio.
fn build_concat_graph(job: &ExportJob) -> (r: (String, usize, usize))
    ensures
        r.0@ == concat_graph(*job),
        r.1 == count_video(job.segments@, job.segments@.len()),
        r.2 == count_audio(job.segments@, job.segments@.len()),
{
    let segs = &job.segments;
    let n = segs.len();
    let mut filter = String::new();
    let mut v: usize = 0;
    let mut a: usize = 0;
    let mut i: usize = 0;
    while i < n
        invariant
            segs == &job.segments,
            n == segs@.len(),
            i <= n,
            filter@ == video_filters(*job, i as nat),
            v == count_video(segs@, i as nat),
            a == count_audio(segs@, i as nat),
            v <= i,
            a <= i,
        decreases n - i,
    {
        if segs[i].has_video {
            push_video_filter(&mut filter, i, job);
            v = v + 1;
        }
        if segs[i].has_audio {
            a = a + 1;
        }
        i = i + 1;
        assert(filter@ =~= video_filters(*job, i as nat));
    }
    let mut inputs = String::new();
    let mut j: usize = 0;
    while j < n
        invariant
            segs == &job.segments,
            n == segs@.len(),
            j <= n,
            inputs@ == concat_inputs(segs@, j as nat),
        decreases n - j,
    {
        let ghost before = inputs@;
        if segs[j].has_video {
            inputs.append("[v");
            push_decimal(&mut inputs, j as u128);
            inputs.append("]");
        }
        let ghost mid = inputs@;
        if segs[j].has_audio {
            inputs.append("[");
            push_decimal(&mut inputs, j as u128);
            inputs.append(":a]");
        }
        j = j + 1;
        assert(inputs@ =~= concat_inputs(segs@, j as nat));
    }
    let m: usize = if v < a {
        v
    } else {
        a
    };
    let cn: usize = if m < 1 {
        1
    } else {
        m
    };
    filter.append(inputs.as_str());
    filter.append("concat=n=");
    push_decimal(&mut filter, cn as u128);
    filter.append(":v=");
    push_decimal(
        &mut filter,
        if v > 0 {
            1
        } else {
            0
        },
    );
    filter.append(":a=");
    push_decimal(
        &mut filter,
        if a > 0 {
            1
        } else {
            0
        },
    );
    filter.append("[outv][outa]");
    assert(filter@ =~= concat_graph(*job));
    (filter, v, a)
}

fn push_multi_segment(args: &mut Vec<String>, job: &ExportJob)
    ensures
        texts(final(args)@) == texts(old(args)@) + multi_segment_args(*job),
{
    let (graph, v, a) = build_concat_graph(job);
    push_lit(args, "-filter_complex");
    push_arg(args, graph);
    let ghost mid = texts(args@);
    if v > 0 {
        push_lit(args, "-map");
        push_lit(args, "[outv]");
        push_video_codec(args, job.quality);
    }
    let ghost mid2 = texts(args@);
    if a > 0 {
        push_lit(args, "-map");
        push_lit(args, "[outa]");
        push_lit(args, "-c:a");
        push_lit(args, job.format.audio_codec());
    }
    assert(texts(args@) =~= texts(old(args)@) + multi_segment_args(*job));
}

/// The arguments to run `ffmpeg` with to export `job` (see [`export_args`]).
pub fn build_ffmpeg_args(job: &ExportJob) -> (r: Vec<String>)
    ensures
        texts(r@) == export_args(*job),
{
    let mut args: Vec<String> = Vec::new();
    assert(texts(args@) =~= Seq::<Seq<char>>::empty());
    push_lit(&mut args, "-y");
    push_inputs(&mut args, &job.segments);
    let ghost after_inputs = texts(args@);
    if job.segments.len() == 1 {
        push_single_segment(&mut args, job, &job.segments[0]);
    } else {
        push_multi_segment(&mut args, job);
    }
    let ghost after_codecs = texts(args@);
    push_lit(&mut args, "-stats");
    push_lit(&mut args, "-loglevel");
    push_lit(&mut args, "error");
    push_arg(&mut args, job.output_path.clone());
    assert(texts(args@) =~= export_args(*job));
    args
}

/// The position of the first occurrence of `p` in `s`, if any.
pub open spec fn first_match(s: Seq<char>, p: Seq<char>) -> Option<int>
    decreases s.len(),
{
    if s.len() < p.len() {
        None
    } else if s.subrange(0, p.len() as int) == p {
        Some(0)
    } else if s.len() == 0 {
        None
    } else {
        match first_match(s.drop_first(), p) {
            Some(k) => Some(k + 1),
            None => None,
        }
    }
}

proof fn lemma_first_match_bounds(s: Seq<char>, p: Seq<char>)
    ensures
        match first_match(s, p) {
            Some(k) => 0 <= k && k + p.len() <= s.len() && s.subrange(k, k + p.len()) == p,
            None => true,
        },
    decreases s.len(),
{
    if s.len() >= p.len() && s.subrange(0, p.len() as int) != p && s.len() > 0 {
        lemma_first_match_bounds(s.drop_first(), p);
        match first_match(s.drop_first(), p) {
            Some(k) => {
                assert(s.drop_first().subrange(k, k + p.len()) =~= s.subrange(k + 1, k + 1 + p.len()));
            },
            None => {},
        }
    }
}

/// Whether `p` occurs in `s` at position `i`.
fn matches_at(s: &Vec<char>, p: &Vec<char>, i: usize) -> (r: bool)
    requires
        i + p@.len() <= s@.len(),
    ensures
        r == (s@.subrange(i as int, i + p@.len()) == p@),
{
    let m = p.len();
    let n = s.len();
    let mut j: usize = 0;
    while j < m
        invariant
            m == p@.len(),
            n == s@.len(),
            i + m <= n,
            j <= m,
            forall|k: int| 0 <= k < j ==> s@[i + k] == p@[k],
        decreases m - j,
    {
        if s[i + j] != p[j] {
            assert(s@.subrange(i as int, i + m)[j as int] != p@[j as int]);
            return false;
        }
        j = j + 1;
    }
    assert(s@.subrange(i as int, i + m) =~= p@);
    true
}

/// The position of the first occurrence of `p` in `s` (see [`first_match`]).
pub fn find_text(s: &Vec<char>, p: &Vec<char>) -> (r: Option<usize>)
    ensures
        match r {
            Some(i) => first_match(s@, p@) == Some(i as int),
            None => first_match(s@, p@) is None,
        },
{
    let n = s.len();
    let m = p.len();
    let mut i: usize = 0;
    assert(s@.subrange(0, n as int) =~= s@);
    loop
        invariant
            n == s@.len(),
            m == p@.len(),
            i <= n,
            first_match(s@, p@) == match first_match(s@.subrange(i as int, n as int), p@) {
                Some(k) => Some(k + i),
                None => None::<int>,
            },
        decreases n - i,
    {
        let ghost t = s@.subrange(i as int, n as int);
        if n - i < m {
            return None;
        }
        if m == 0 {
            assert(t.subrange(0, 0) =~= p@);
            return Some(i);
        }
        if matches_at(s, p, i) {
            assert(t.subrange(0, m as int) =~= s@.subrange(i as int, i + m));
            return Some(i);
        }
        assert(t.subrange(0, m as int) =~= s@.subrange(i as int, i + m));
        assert(t.drop_first() =~= s@.subrange(i + 1, n as int));
        i = i + 1;
    }
}

/// The seconds part of a `time=` field: the text before the next white
/// space.
pub open spec fn seconds_word(tail: Seq<char>) -> Seq<char> {
    tail.take(word_len(tail) as int)
}

/// The elapsed time in ticks of an ffmpeg stats line: the text after the
/// first `time=`, white space skipped, read as `<h>:<m>:<s>` with each part
/// a number of seconds (see [`seconds_ticks`]), the last running up to the
/// next white space (the next stats field) or the end of the line.
pub open spec fn time_field(line: Seq<char>) -> Option<int> {
    match first_match(line, "time="@) {
        Some(i) => {
            let rest = trim_start(line.subrange(i + "time="@.len(), line.len() as int));
            match index_of(rest, ':') {
                Some(k1) => {
                    let r2 = rest.subrange(k1 + 1, rest.len() as int);
                    match index_of(r2, ':') {
                        Some(k2) => match (
                            seconds_ticks(rest.subrange(0, k1)),
                            seconds_ticks(r2.subrange(0, k2)),
                            seconds_ticks(seconds_word(r2.subrange(k2 + 1, r2.len() as int))),
                        ) {
                            (Some(h), Some(m), Some(sec)) => Some(h * 3600 + m * 60 + sec),
                            _ => None,
                        },
                        None => None,
                    }
                },
                None => None,
            }
        },
        None => None,
    }
}

/// `s` holds no white space.
pub open spec fn no_white_space(s: Seq<char>) -> bool {
    forall|i: int| 0 <= i < s.len() ==> !is_white_space(#[trigger] s[i])
}

/// `s` holds no `:`.
pub open spec fn no_colon(s: Seq<char>) -> bool {
    forall|i: int| 0 <= i < s.len() ==> #[trigger] s[i] != ':'
}

proof fn lemma_word_len_prefix(a: Seq<char>, b: Seq<char>)
    requires
        no_white_space(a),
        b.len() == 0 || is_white_space(b[0]),
    ensures
        word_len(a + b) == a.len(),
    decreases a.len(),
{
    if a.len() == 0 {
        assert(a + b =~= b);
    } else {
        assert((a + b).drop_first() =~= a.drop_first() + b);
        assert((a + b)[0] == a[0]);
        lemma_word_len_prefix(a.drop_first(), b);
    }
}

/// Law: in a stats line `<pre>time=<h>:<m>:<s><tail>` whose first `time=`
/// is that field (the field ending at white space or at the end of the
/// line), `h` counts hours, `m` minutes and `s` seconds: the elapsed time
/// is `3600 h + 60 m + s`, and the progress against a positive `total` is
/// that share of it.
pub proof fn lemma_time_field_reads_hours_minutes_seconds(
    pre: Seq<char>,
    h: Seq<char>,
    m: Seq<char>,
    sec: Seq<char>,
    tail: Seq<char>,
    total: int,
)
    requires
        forall|i: int| 0 <= i < pre.len() ==> #[trigger] (pre + "time="@).subrange(i, i + 5) != "time="@,
        no_colon(h),
        no_colon(m),
        h.len() > 0 && !is_white_space(h[0]),
        no_white_space(sec),
        tail.len() == 0 || is_white_space(tail[0]),
        seconds_ticks(h) is Some,
        seconds_ticks(m) is Some,
        seconds_ticks(sec) is Some,
        total > 0,
    ensures
        ({
            let line = pre + "time="@ + h + ":"@ + m + ":"@ + sec + tail;
            let elapsed = 3600 * seconds_ticks(h)->0 + 60 * seconds_ticks(m)->0 + seconds_ticks(sec)->0;
            &&& time_field(line) == Some(elapsed)
            &&& progress_permyriad(line, total) == Some(clamped_permyriad(elapsed, total))
        }),
{
    reveal_strlit("time=");
    let p = "time="@;
    let rest0 = h + ":"@ + m + ":"@ + sec + tail;
    let line = pre + p + rest0;
    assert(line =~= pre + "time="@ + h + ":"@ + m + ":"@ + sec + tail);
    let n = pre.len() as int;
    assert(line.subrange(n, n + 5) =~= p);
    assert forall|i: int| 0 <= i < n implies #[trigger] line.subrange(i, i + 5) != p by {
        assert(line.subrange(i, i + 5) =~= (pre + p).subrange(i, i + 5));
    }
    lemma_first_match_at(line, p, n);
    assert(line.subrange(n + p.len(), line.len() as int) =~= rest0);
    lemma_time_parts(h, m, sec, tail);
    lemma_trim_start_keeps(rest0, h);
    lemma_time_field_of(line, rest0, n, h.len() as int, m.len() as int);
}

proof fn lemma_first_match_at(s: Seq<char>, p: Seq<char>, n: int)
    requires
        0 <= n,
        n + p.len() <= s.len(),
        s.subrange(n, n + p.len()) == p,
        forall|i: int| 0 <= i < n ==> #[trigger] s.subrange(i, i + p.len()) != p,
    ensures
        first_match(s, p) == Some(n),
    decreases n,
{
    if n > 0 {
        let z: int = 0;
        assert(s.subrange(z, z + p.len()) != p);
        assert(s.subrange(0, p.len() as int) == s.subrange(z, z + p.len()));
        let t = s.drop_first();
        assert(t.subrange(n - 1, n - 1 + p.len()) =~= s.subrange(n, n + p.len()));
        assert forall|i: int| 0 <= i < n - 1 implies #[trigger] t.subrange(i, i + p.len()) != p by {
            assert(t.subrange(i, i + p.len()) =~= s.subrange(i + 1, i + 1 + p.len()));
        }
        lemma_first_match_at(t, p, n - 1);
    } else {
        assert(s.subrange(0, p.len() as int) == p);
    }
}

proof fn lemma_trim_start_keeps(rest0: Seq<char>, h: Seq<char>)
    requires
        h.len() > 0 && !is_white_space(h[0]),
        rest0.len() >= h.len(),
        rest0.subrange(0, h.len() as int) == h,
    ensures
        trim_start(rest0) == rest0,
{
    assert(rest0[0] == rest0.subrange(0, h.len() as int)[0]);
}

proof fn lemma_time_field_of(line: Seq<char>, rest0: Seq<char>, n: int, k1: int, k2: int)
    requires
        first_match(line, "time="@) == Some(n),
        trim_start(line.subrange(n + "time="@.len(), line.len() as int)) == rest0,
        index_of(rest0, ':') == Some(k1),
        index_of(rest0.subrange(k1 + 1, rest0.len() as int), ':') == Some(k2),
    ensures
        ({
            let r2 = rest0.subrange(k1 + 1, rest0.len() as int);
            time_field(line) == match (
                seconds_ticks(rest0.subrange(0, k1)),
                seconds_ticks(r2.subrange(0, k2)),
                seconds_ticks(seconds_word(r2.subrange(k2 + 1, r2.len() as int))),
            ) {
                (Some(h), Some(m), Some(sec)) => Some(h * 3600 + m * 60 + sec),
                _ => None,
            }
        }),
{
}

proof fn lemma_time_parts(h: Seq<char>, m: Seq<char>, sec: Seq<char>, tail: Seq<char>)
    requires
        no_colon(h),
        no_colon(m),
        no_white_space(sec),
        tail.len() == 0 || is_white_space(tail[0]),
    ensures
        ({
            let rest0 = h + ":"@ + m + ":"@ + sec + tail;
            let r2 = rest0.subrange(h.len() as int + 1, rest0.len() as int);
            &&& index_of(rest0, ':') == Some(h.len() as int)
            &&& rest0.subrange(0, h.len() as int) == h
            &&& r2 == m + ":"@ + sec + tail
            &&& index_of(r2, ':') == Some(m.len() as int)
            &&& r2.subrange(0, m.len() as int) == m
            &&& seconds_word(r2.subrange(m.len() as int + 1, r2.len() as int)) == sec
        }),
{
    reveal_strlit(":");
    let rest0 = h + ":"@ + m + ":"@ + sec + tail;
    let k1 = h.len() as int;
    assert(rest0[k1] == ':');
    assert forall|j: int| 0 <= j < k1 implies rest0[j] != ':' by {
        assert(rest0[j] == h[j]);
    }
    lemma_index_of_is(rest0, ':', k1);
    assert(rest0.subrange(0, k1) =~= h);
    let r2 = rest0.subrange(k1 + 1, rest0.len() as int);
    assert(r2 =~= m + ":"@ + sec + tail);
    let k2 = m.len() as int;
    assert(r2[k2] == ':');
    assert forall|j: int| 0 <= j < k2 implies r2[j] != ':' by {
        assert(r2[j] == m[j]);
    }
    lemma_index_of_is(r2, ':', k2);
    assert(r2.subrange(0, k2) =~= m);
    assert(r2.subrange(k2 + 1, r2.len() as int) =~= sec + tail);
    lemma_word_len_prefix(sec, tail);
    assert((sec + tail).take(sec.len() as int) =~= sec);
}

/// The progress, in ten-thousandths of `total` ticks, that an ffmpeg stats
/// line reports: none when `total` is not positive or the line has no
/// readable time; otherwise the elapsed share rounded down and clamped to
/// `0..=10000`.
pub open spec fn progress_permyriad(line: Seq<char>, total: int) -> Option<u32> {
    if total <= 0 {
        None
    } else {
        match time_field(line) {
            Some(e) => Some(clamped_permyriad(e, total)),
            None => None,
        }
    }
}

/// The progress an ffmpeg stats line reports (see [`progress_permyriad`]).
pub fn parse_time_fraction(line: &str, total: i128) -> (r: Option<u32>)
    ensures
        r == progress_permyriad(line@, total as int),
{
    if total <= 0 {
        return None;
    }
    let cs = chars_of(line);
    let pat = chars_of("time=");
    let n = cs.len();
    let idx = match find_text(&cs, &pat) {
        Some(i) => i,
        None => return None,
    };
    proof {
        lemma_first_match_bounds(cs@, pat@);
    }
    let start = skip_white_space(&cs, idx + pat.len());
    let ghost rest = trim_start(line@.subrange(idx + "time="@.len(), line@.len() as int));
    assert(rest == cs@.subrange(start as int, n as int));
    let k1 = find_char(&cs, start, n, ':');
    if k1 == n {
        return None;
    }
    let ghost r2 = rest.subrange(k1 - start + 1, rest.len() as int);
    assert(r2 =~= cs@.subrange(k1 + 1, n as int));
    assert(rest.subrange(0, k1 - start) =~= cs@.subrange(start as int, k1 as int));
    let k2 = find_char(&cs, k1 + 1, n, ':');
    if k2 == n {
        return None;
    }
    assert(r2.subrange(0, k2 - k1 - 1) =~= cs@.subrange(k1 + 1, k2 as int));
    assert(r2.subrange(k2 - k1, r2.len() as int) =~= cs@.subrange(k2 + 1, n as int));
    let h = match parse_seconds(&cs, start, k1) {
        Some(v) => v,
        None => return None,
    };
    let m = match parse_seconds(&cs, k1 + 1, k2) {
        Some(v) => v,
        None => return None,
    };
    let e = word_end(&cs, k2 + 1);
    assert(seconds_word(r2.subrange(k2 - k1, r2.len() as int)) =~= cs@.subrange(k2 + 1, e as int));
    let sec = match parse_seconds(&cs, k2 + 1, e) {
        Some(v) => v,
        None => return None,
    };
    assert(time_field(line@) == Some(h * 3600 + m * 60 + sec));
    Some(share_permyriad(h as i128 * 3600 + m as i128 * 60 + sec as i128, total))
}

/// `elapsed` in ten-thousandths of `total`, rounded down and clamped to
/// `0..=10000`.
pub open spec fn clamped_permyriad(elapsed: int, total: int) -> u32 {
    let p = elapsed * 10000 / total;
    if p < 0 {
        0u32
    } else if p > 10000 {
        10000u32
    } else {
        p as u32
    }
}

fn share_permyriad(elapsed: i128, total: i128) -> (r: u32)
    requires
        -0x1_0000_0000_0000_0000_0000 < elapsed < 0x1_0000_0000_0000_0000_0000,
        total > 0,
    ensures
        r == clamped_permyriad(elapsed as int, total as int),
{
    if elapsed < 0 {
        assert((elapsed as int) * 10000 / (total as int) < 0) by (nonlinear_arith)
            requires
                elapsed < 0,
                total > 0,
        ;
        return 0;
    }
    let p: i128 = elapsed * 10000 / total;
    if p > 10000 {
        10000
    } else {
        p as u32
    }
}

/// The total duration of the segments, in ticks.
pub open spec fn total_duration(segs: Seq<ExportSegment>) -> int
    decreases segs.len(),
{
    if segs.len() == 0 {
        0
    } else {
        total_duration(segs.drop_last()) + segs.last().duration
    }
}

/// Follows the stats ffmpeg prints while exporting: the total duration the
/// progress is measured against and the last progress read.
pub struct ExportMonitor {
    /// The total duration of the export, in ticks.
    pub total: i128,
    /// The last progress read, in ten-thousandths.
    pub last: u32,
}

impl ExportMonitor {
    /// A monitor for an export of `segments`, with no progress read yet.
    pub fn new(segments: &Vec<ExportSegment>) -> (m: Self)
        ensures
            m.total == total_duration(segments@),
            m.last == 0,
    {
        let n = segments.len();
        let mut sum: i128 = 0;
        let mut i: usize = 0;
        while i < n
            invariant
                n == segments@.len(),
                i <= n,
                sum == total_duration(segments@.take(i as int)),
                -(i as int) * 0x8000_0000_0000_0000 <= sum <= (i as int) * 0x8000_0000_0000_0000,
            decreases n - i,
        {
            assert(segments@.take(i + 1).drop_last() =~= segments@.take(i as int));
            sum = sum + segments[i].duration as i128;
            i = i + 1;
        }
        assert(segments@.take(n as int) =~= segments@);
        ExportMonitor { total: sum, last: 0 }
    }

    /// Read one line ffmpeg printed on stderr.  A stats line with a readable
    /// time gives a progress update (and becomes the last progress); any
    /// other line gives none.
    pub fn on_stderr_line(&mut self, line: &str) -> (r: Option<ExportProgress>)
        ensures
            final(self).total == old(self).total,
            match progress_permyriad(line@, old(self).total as int) {
                Some(p) => {
                    &&& final(self).last == p
                    &&& r matches Some(ExportProgress::Progress { permyriad, message })
                    &&& permyriad == p
                    &&& message@ == trim(line@)
                },
                None => final(self).last == old(self).last && r is None,
            },
    {
        match parse_time_fraction(line, self.total) {
            Some(p) => {
                self.last = p;
                Some(ExportProgress::Progress { permyriad: p, message: trimmed(line) })
            },
            None => None,
        }
    }

    /// The final update once ffmpeg has closed its stderr: done when the
    /// progress reached 99%, otherwise cancelled (ffmpeg's exit status is
    /// not known here).
    pub fn finish(&self, output_path: String) -> (r: ExportProgress)
        ensures
            self.last >= 9900 ==> (r matches ExportProgress::Done { output_path: o } && o@ == output_path@),
            self.last < 9900 ==> r is Cancelled,
    {
        if self.last >= 9900 {
            ExportProgress::Done { output_path }
        } else {
            ExportProgress::Cancelled
        }
    }
}

/// `line` without leading and trailing white space.
pub fn trimmed(line: &str) -> (r: String)
    ensures
        r@ == trim(line@),
{
    let cs = chars_of(line);
    let n = cs.len();
    let start = skip_white_space(&cs, 0);
    let end = trim_white_space_end(&cs, start, n);
    assert(cs@.subrange(0, n as int) =~= line@);
    line.substring_char(start, end).to_owned()
}

/// What an export starts with: the arguments to run `ffmpeg` with, and the
/// monitor that follows its progress.
pub struct ExportPlan {
    pub args: Vec<String>,
    pub monitor: ExportMonitor,
}

/// Plan the export of `job`.  A job without segments cannot be exported
/// and gives [`MediaError::EmptyTimeline`].
pub fn plan_export(job: &ExportJob) -> (r: Result<ExportPlan, MediaError>)
    ensures
        job.segments@.len() == 0 ==> r == Err::<ExportPlan, MediaError>(MediaError::EmptyTimeline),
        job.segments@.len() > 0 ==> (r matches Ok(plan) && texts(plan.args@) == export_args(*job)
            && plan.monitor.total == total_duration(job.segments@) && plan.monitor.last == 0),
{
    if job.segments.len() == 0 {
        return Err(MediaError::EmptyTimeline);
    }
    let args = build_ffmpeg_args(job);
    let monitor = ExportMonitor::new(&job.segments);
    Ok(ExportPlan { args, monitor })
}

} // verus!
