//! The pure parts of the media layer: file kind detection, probe results,
//! export planning and the ffmpeg command line, raw frame decoding, and the
//! status of the ffmpeg setup.  Running ffmpeg, reading files and talking
//! to threads is left to the application.

pub mod audio;
pub mod decoder;
pub mod encoder;
pub mod error;
pub mod ffmpeg_manager;
pub mod frame_cache;
pub mod frame_extractor;
pub mod thumbnail;
