# VidCut

A native video editor: media browser, timeline with clip drag / trim /
snap / overlap detection, undo and redo, J/K/L playback, and export to
MP4 / MOV / MKV through `ffmpeg`.

The editing core is a library verified with Verus; the window around it is
ordinary Rust.

## Layout

- `src/` — the verified library `vidcut`.
  - `time`, `text`, `timecode`: integer time (ticks of 1/705 600 000 s),
    decimal text and parsing, the time labels of the interface.
  - `clip`, `track`, `timeline`, `clip_order`, `project`, `media_asset`,
    `ids`: the project model.
  - `commands`: the undoable add / delete / move / trim commands and the
    undo history, with the laws that undo restores what a command changed.
  - `editor`, `transport`, `timeline_edit`, `media_actions`: the editor's
    state and every action of the interface on it.
  - `overlap`: the laws that the edits which check for overlap keep the
    clips of every track apart.
  - `media`: file kinds and probe results, the ffmpeg export plan and
    progress, raw frame decoding, the ffmpeg setup states.
- `tests/` — tests of the library on concrete values.
- `app/` — the window (egui), dialogs, files, threads, and the calls to
  `ffmpeg`, `ffprobe`, `mp4` and `symphonia`.
