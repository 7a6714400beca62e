//! Frame extractor — turns the raw output of a one-frame ffmpeg run into a
//! decoded RGBA frame.
//!
//! The application runs `ffmpeg` with [`frame_extract_args`] (`-ss <t> -i
//! <file> -vframes 1 -vf scale=<width>:-2 -f rawvideo -pix_fmt rgba pipe:1`)
//! and hands the bytes it printed to [`frame_from_raw`], which checks them
//! and works out the frame's height.

use vstd::prelude::*;

use crate::media::encoder::{push_arg, push_lit, texts};
use crate::media::error::MediaError;
use crate::text::{decimal, push_decimal, seconds_arg, seconds_text};

verus! {

/// A single decoded video frame as raw RGBA pixel data.
#[derive(Debug, Clone)]
pub struct DecodedFrame {
    /// Width of the decoded frame in pixels.
    pub width: u32,
    /// Height of the decoded frame in pixels.
    pub height: u32,
    /// Raw RGBA pixel data, length = `width * height * 4`.
    pub rgba: Vec<u8>,
}

/// The number of bytes in one row of an RGBA frame `width` pixels wide.
pub open spec fn row_stride(width: u32) -> int {
    width * 4
}

/// What [`frame_from_raw`] returns for the bytes `rgba` of a frame scaled
/// to `width` pixels: no bytes is an error, so is a length that is not a
/// whole number of rows (no length is, for a width of 0); otherwise the
/// height is the number of rows.
pub open spec fn raw_frame_outcome(rgba: Seq<u8>, width: u32) -> Result<(u32, u32), MediaError> {
    if rgba.len() == 0 {
        Err(MediaError::NoFrameData)
    } else if row_stride(width) == 0 || (rgba.len() as int) % row_stride(width) != 0 {
        Err(
            MediaError::FrameLengthMismatch {
                len: rgba.len() as usize,
                stride: row_stride(width) as usize,
                width,
            },
        )
    } else {
        Ok((width, ((rgba.len() as int) / row_stride(width)) as u32))
    }
}

/// Build a [`DecodedFrame`] from the bytes ffmpeg printed for a frame
/// scaled to `out_width` pixels.
///
/// Fails with [`MediaError::NoFrameData`] when there are no bytes, and with
/// [`MediaError::FrameLengthMismatch`] when their count is not a multiple
/// of the row stride `out_width * 4` (always, for a width of 0).  The
/// height is the number of rows, so the data holds `width * height * 4`
/// bytes whenever that number of rows fits in a `u32`.
pub fn frame_from_raw(rgba: Vec<u8>, out_width: u32) -> (r: Result<DecodedFrame, MediaError>)
    requires
        row_stride(out_width) <= usize::MAX,
    ensures
        match (r, raw_frame_outcome(rgba@, out_width)) {
            (Ok(frame), Ok((w, h))) => frame.width == w && frame.height == h && frame.rgba@
                == rgba@,
            (Err(e), Err(f)) => e == f,
            _ => false,
        },
        r matches Ok(frame) ==> ((rgba@.len() as int) / row_stride(out_width) <= u32::MAX
            ==> frame.rgba@.len() == frame.width * frame.height * 4),
{
    if rgba.len() == 0 {
        return Err(MediaError::NoFrameData);
    }
    let stride: usize = out_width as usize * 4;
    if stride == 0 || rgba.len() % stride != 0 {
        return Err(MediaError::FrameLengthMismatch { len: rgba.len(), stride, width: out_width });
    }
    let out_height: u32 = (rgba.len() / stride) as u32;
    proof {
        let n = rgba@.len() as int;
        let st = stride as int;
        vstd::arithmetic::div_mod::lemma_fundamental_div_mod(n, st);
        if n / st <= u32::MAX {
            assert(out_height == n / st);
            assert(n == out_width * out_height * 4) by (nonlinear_arith)
                requires
                    n == st * (n / st) + n % st,
                    n % st == 0,
                    st == out_width * 4,
                    out_height == n / st,
            ;
        }
    }
    Ok(DecodedFrame { width: out_width, height: out_height, rgba })
}

/// The arguments of the one-frame `ffmpeg` run for the file at `path`:
/// seek (before the input, so the demuxer seeks) to `timestamp` ticks, take
/// one frame, scale it to `out_width` pixels wide with an even height that
/// keeps the aspect ratio, and print it as raw RGBA to standard output,
/// reporting only errors.
pub open spec fn frame_args(path: Seq<char>, timestamp: i64, out_width: u32) -> Seq<Seq<char>> {
    seq![
        "-ss"@,
        seconds_text(timestamp as int),
        "-i"@,
        path,
        "-vframes"@,
        "1"@,
        "-vf"@,
        "scale="@ + decimal(out_width as nat) + ":-2"@,
        "-f"@,
        "rawvideo"@,
        "-pix_fmt"@,
        "rgba"@,
        "-v"@,
        "error"@,
        "pipe:1"@,
    ]
}

/// The arguments to run `ffmpeg` with to extract the frame of the file at
/// `path` at `timestamp` ticks, `out_width` pixels wide (see [`frame_args`]).
pub fn frame_extract_args(path: &str, timestamp: i64, out_width: u32) -> (r: Vec<String>)
    ensures
        texts(r@) == frame_args(path@, timestamp, out_width),
{
    let mut args: Vec<String> = Vec::new();
    assert(texts(args@) =~= Seq::<Seq<char>>::empty());
    push_lit(&mut args, "-ss");
    push_arg(&mut args, seconds_arg(timestamp));
    push_lit(&mut args, "-i");
    push_lit(&mut args, path);
    push_lit(&mut args, "-vframes");
    push_lit(&mut args, "1");
    push_lit(&mut args, "-vf");
    let mut scale = String::new();
    scale.append("scale=");
    push_decimal(&mut scale, out_width as u128);
    scale.append(":-2");
    assert(scale@ =~= "scale="@ + decimal(out_width as nat) + ":-2"@);
    push_arg(&mut args, scale);
    push_lit(&mut args, "-f");
    push_lit(&mut args, "rawvideo");
    push_lit(&mut args, "-pix_fmt");
    push_lit(&mut args, "rgba");
    push_lit(&mut args, "-v");
    push_lit(&mut args, "error");
    push_lit(&mut args, "pipe:1");
    assert(texts(args@) =~= frame_args(path@, timestamp, out_width));
    args
}

} // verus!
