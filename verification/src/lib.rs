//! `vidcut` — the verified core of the VidCut video editor.
//!
//! The crate holds the editing model (clips, tracks, timeline, project),
//! the undo/redo command system, the playback transport, and the pure
//! parts of the media layer (asset detection, export planning, frame
//! decoding of raw ffmpeg output).  Every time value is an integer count
//! of [`time::TICKS_PER_SECOND`]-ths of a second.

pub mod time;
pub mod text;
pub mod ids;
pub mod clip;
pub mod track;
pub mod clip_order;
pub mod timeline;
pub mod media_asset;
pub mod project;
pub mod media;
pub mod commands;
pub mod editor;
pub mod transport;
pub mod timeline_edit;
pub mod overlap;
pub mod media_actions;
pub mod timecode;
