//! FFmpeg setup status — the states the background setup of the ffmpeg
//! binary goes through, and how the interface follows them.

use vstd::prelude::*;

verus! {

/// Status updates sent from the FFmpeg setup background thread to the UI.
#[derive(Debug, Clone)]
pub enum FfmpegStatus {
    /// Checking whether FFmpeg is already present.
    Checking,
    /// Downloading FFmpeg. Shows an indeterminate spinner.
    Downloading,
    /// FFmpeg is ready to use.
    Ready,
    /// Setup failed with an error message.
    Failed(String),
}

/// The status after checking whether the ffmpeg binary is on disk: ready
/// when it is, otherwise a download starts.
pub fn status_after_presence_check(present: bool) -> (r: FfmpegStatus)
    ensures
        present ==> r is Ready,
        !present ==> r is Downloading,
{
    if present {
        FfmpegStatus::Ready
    } else {
        FfmpegStatus::Downloading
    }
}

/// The status after the download of ffmpeg finished: ready, or failed with
/// the download error and advice.
pub fn status_after_download(result: Result<(), String>) -> (r: FfmpegStatus)
    ensures
        match result {
            Ok(()) => r is Ready,
            Err(e) => r matches FfmpegStatus::Failed(m) && m@ == "Failed to download FFmpeg: "@ + e@
                + "\n\nCheck your internet connection and restart VidCut."@,
        },
{
    match result {
        Ok(()) => FfmpegStatus::Ready,
        Err(e) => {
            let mut m = "Failed to download FFmpeg: ".to_owned();
            m.append(e.as_str());
            m.append("\n\nCheck your internet connection and restart VidCut.");
            FfmpegStatus::Failed(m)
        },
    }
}

} // verus!
