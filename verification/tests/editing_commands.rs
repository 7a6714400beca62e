use vidcut::clip::Clip;
use vidcut::clip_order::{insert_clip_by_start, position_of_clip, retain_other_ids, sort_clips_by_start};
use vidcut::commands::add_clip::AddClipCommand;
use vidcut::commands::delete_clip::DeleteClipCommand;
use vidcut::commands::edit::EditCommand;
use vidcut::commands::move_clip::MoveClipCommand;
use vidcut::commands::trim_clip::TrimClipCommand;
use vidcut::commands::{Command, CommandHistory};
use vidcut::time::TICKS_PER_SECOND;
use vidcut::timeline::{max_clip_end, Timeline};
use vidcut::track::{Track, TrackType};

const TPS: i64 = TICKS_PER_SECOND;

fn clip(id: u128, track: u128, start: i64, end: i64) -> Clip {
    Clip {
        id,
        asset_id: 900 + id,
        track_id: track,
        timeline_start: start,
        timeline_end: end,
        source_start: 0,
        source_end: end - start,
    }
}

fn timeline_with(track_ids: &[u128]) -> Timeline {
    let mut tl = Timeline::default();
    for &id in track_ids {
        let mut t = Track::new("Video 1".to_string(), TrackType::Video);
        t.id = id;
        tl.tracks.push(t);
    }
    tl
}

fn ids(tl: &Timeline, track: usize) -> Vec<u128> {
    tl.tracks[track].clips.iter().map(|c| c.id).collect()
}

fn starts(tl: &Timeline, track: usize) -> Vec<i64> {
    tl.tracks[track].clips.iter().map(|c| c.timeline_start).collect()
}

#[test]
fn new_track_is_empty() {
    let t = Track::new("Audio 2".to_string(), TrackType::Audio);
    assert_eq!(t.name, "Audio 2");
    assert_eq!(t.track_type, TrackType::Audio);
    assert!(t.clips.is_empty());
    assert!(!t.muted && !t.locked);
    // A random (version 4) id.
    assert_eq!((t.id >> 76) & 0xf, 4);
    assert_eq!((t.id >> 62) & 0x3, 2);
}

#[test]
fn clip_duration() {
    assert_eq!(clip(1, 1, TPS, 3 * TPS).duration(), 2 * TPS);
}

#[test]
fn stable_sort_and_insertion() {
    let mut v = vec![clip(1, 1, 5, 6), clip(2, 1, 1, 2), clip(3, 1, 5, 7), clip(4, 1, 0, 1)];
    sort_clips_by_start(&mut v);
    assert_eq!(v.iter().map(|c| c.id).collect::<Vec<_>>(), vec![4, 2, 1, 3]);
    insert_clip_by_start(&mut v, clip(5, 1, 5, 9));
    assert_eq!(v.iter().map(|c| c.id).collect::<Vec<_>>(), vec![4, 2, 1, 3, 5]);
    assert_eq!(position_of_clip(&v, 3), Some(3));
    assert_eq!(position_of_clip(&v, 77), None);
    retain_other_ids(&mut v, 1);
    assert_eq!(v.iter().map(|c| c.id).collect::<Vec<_>>(), vec![4, 2, 3, 5]);
    assert_eq!(max_clip_end(&v), 9);
    assert_eq!(max_clip_end(&vec![]), 0);
}

#[test]
fn add_then_undo_restores_timeline() {
    let mut tl = timeline_with(&[10, 20]);
    tl.tracks[0].clips.push(clip(1, 10, 0, TPS));
    tl.tracks[0].clips.push(clip(2, 10, 4 * TPS, 5 * TPS));
    tl.recompute_duration();
    let mut cmd = AddClipCommand::new(clip(3, 10, 2 * TPS, 3 * TPS));
    cmd.execute(&mut tl);
    assert_eq!(ids(&tl, 0), vec![1, 3, 2]);
    assert_eq!(tl.duration, 5 * TPS);
    assert_eq!(cmd.label(), "Add Clip");
    cmd.undo(&mut tl);
    assert_eq!(ids(&tl, 0), vec![1, 2]);
    assert_eq!(tl.duration, 5 * TPS);
    // A clip for a track that does not exist changes nothing but the duration.
    let mut lost = AddClipCommand::new(clip(4, 99, 0, 100 * TPS));
    lost.execute(&mut tl);
    assert_eq!(ids(&tl, 0), vec![1, 2]);
    assert!(tl.tracks[1].clips.is_empty());
}

#[test]
fn delete_then_undo_restores_timeline() {
    let mut tl = timeline_with(&[10]);
    tl.tracks[0].clips.push(clip(1, 10, 0, TPS));
    tl.tracks[0].clips.push(clip(2, 10, TPS, 8 * TPS));
    tl.recompute_duration();
    let mut cmd = DeleteClipCommand::new(clip(2, 10, TPS, 8 * TPS));
    cmd.execute(&mut tl);
    assert_eq!(ids(&tl, 0), vec![1]);
    assert_eq!(tl.duration, TPS);
    assert_eq!(cmd.label(), "Delete Clip");
    cmd.undo(&mut tl);
    assert_eq!(ids(&tl, 0), vec![1, 2]);
    assert_eq!(tl.duration, 8 * TPS);
}

#[test]
fn move_then_undo_restores_timeline() {
    let mut tl = timeline_with(&[10]);
    tl.tracks[0].clips.push(clip(1, 10, 0, TPS));
    tl.tracks[0].clips.push(clip(2, 10, 2 * TPS, 3 * TPS));
    tl.recompute_duration();
    let mut cmd = MoveClipCommand::new(1, 10, 0, 5 * TPS, TPS);
    cmd.execute(&mut tl);
    assert_eq!(ids(&tl, 0), vec![2, 1]);
    assert_eq!(starts(&tl, 0), vec![2 * TPS, 5 * TPS]);
    assert_eq!(tl.duration, 6 * TPS);
    assert_eq!(cmd.label(), "Move Clip");
    cmd.undo(&mut tl);
    assert_eq!(ids(&tl, 0), vec![1, 2]);
    assert_eq!(starts(&tl, 0), vec![0, 2 * TPS]);
    assert_eq!(tl.duration, 3 * TPS);
}

#[test]
fn move_before_zero_is_clamped() {
    let mut tl = timeline_with(&[10]);
    tl.tracks[0].clips.push(clip(1, 10, 2 * TPS, 3 * TPS));
    let mut cmd = MoveClipCommand::new(1, 10, 2 * TPS, -4 * TPS, TPS);
    cmd.execute(&mut tl);
    assert_eq!(starts(&tl, 0), vec![0]);
    assert_eq!(tl.tracks[0].clips[0].timeline_end, TPS);
}

#[test]
fn trim_then_undo_restores_timeline() {
    let mut tl = timeline_with(&[10]);
    let mut c = clip(1, 10, TPS, 4 * TPS);
    c.source_start = 0;
    c.source_end = 3 * TPS;
    tl.tracks[0].clips.push(c);
    tl.recompute_duration();
    let mut cmd = TrimClipCommand::new(1, 10, TPS, 4 * TPS, 0, 3 * TPS, 2 * TPS, 4 * TPS, TPS, 3 * TPS);
    cmd.execute(&mut tl);
    let t = tl.tracks[0].clips[0];
    assert_eq!((t.timeline_start, t.timeline_end, t.source_start, t.source_end), (2 * TPS, 4 * TPS, TPS, 3 * TPS));
    assert_eq!(cmd.label(), "Trim Clip");
    cmd.undo(&mut tl);
    assert_eq!(tl.tracks[0].clips[0], c);
    assert_eq!(tl.duration, 4 * TPS);
}

#[test]
fn history_undo_redo_and_labels() {
    let mut tl = timeline_with(&[10]);
    let mut h: CommandHistory<EditCommand> = CommandHistory::new();
    assert!(!h.can_undo() && !h.can_redo());
    assert_eq!(h.undo_label(), None);
    assert_eq!(h.redo_label(), None);
    assert!(!h.undo(&mut tl));
    assert!(!h.redo(&mut tl));
    assert!(h.has_room());
    h.push(EditCommand::Add(AddClipCommand::new(clip(1, 10, 0, TPS))), &mut tl);
    h.push(EditCommand::Move(MoveClipCommand::new(1, 10, 0, 3 * TPS, TPS)), &mut tl);
    assert_eq!(starts(&tl, 0), vec![3 * TPS]);
    assert_eq!(h.undo_label(), Some("Move Clip"));
    assert!(h.undo(&mut tl));
    assert_eq!(starts(&tl, 0), vec![0]);
    assert_eq!(h.redo_label(), Some("Move Clip"));
    assert_eq!(h.undo_label(), Some("Add Clip"));
    assert!(h.redo(&mut tl));
    assert_eq!(starts(&tl, 0), vec![3 * TPS]);
    assert!(h.undo(&mut tl));
    assert!(h.undo(&mut tl));
    assert!(tl.tracks[0].clips.is_empty());
    assert!(h.can_redo() && !h.can_undo());
    // A new command discards the redo stack.
    h.push(EditCommand::Add(AddClipCommand::new(clip(2, 10, 0, TPS))), &mut tl);
    assert!(!h.can_redo());
    assert_eq!(h.undo_label(), Some("Add Clip"));
    assert_eq!(ids(&tl, 0), vec![2]);
}

#[test]
fn default_history_is_empty() {
    let h: CommandHistory<EditCommand> = CommandHistory::default();
    assert!(!h.can_undo());
    assert!(!h.can_redo());
}

#[test]
fn delete_then_undo_keeps_the_original_index() {
    let mut tl = timeline_with(&[10]);
    tl.tracks[0].clips.push(clip(1, 10, 0, TPS));
    tl.tracks[0].clips.push(clip(2, 10, 0, 2 * TPS));
    tl.recompute_duration();
    let mut cmd = DeleteClipCommand::new(clip(1, 10, 0, TPS));
    cmd.execute(&mut tl);
    assert_eq!(ids(&tl, 0), vec![2]);
    assert_eq!(cmd.position, Some(0));
    cmd.undo(&mut tl);
    assert_eq!(ids(&tl, 0), vec![1, 2]);
    assert_eq!(tl.duration, 2 * TPS);
}

#[test]
fn trim_past_the_next_clip_resorts_the_track() {
    let mut tl = timeline_with(&[10]);
    tl.tracks[0].clips.push(clip(1, 10, 0, 10 * TPS));
    tl.tracks[0].clips.push(clip(2, 10, 20 * TPS, 30 * TPS));
    tl.recompute_duration();
    let mut cmd = TrimClipCommand::new(
        1, 10, 0, 10 * TPS, 0, 10 * TPS, 25 * TPS, 28 * TPS, 0, 3 * TPS,
    );
    cmd.execute(&mut tl);
    assert_eq!(ids(&tl, 0), vec![2, 1]);
    assert_eq!(starts(&tl, 0), vec![20 * TPS, 25 * TPS]);
    assert_eq!(tl.duration, 30 * TPS);
    cmd.undo(&mut tl);
    assert_eq!(ids(&tl, 0), vec![1, 2]);
    assert_eq!(starts(&tl, 0), vec![0, 20 * TPS]);
}

#[test]
fn every_edit_can_be_undone_and_redone() {
    let mut tl = timeline_with(&[10]);
    let mut h: CommandHistory<EditCommand> = CommandHistory::new();
    for k in 0..5u128 {
        let start = (k as i64) * 2 * TPS;
        h.push(EditCommand::Add(AddClipCommand::new(clip(k + 1, 10, start, start + TPS))), &mut tl);
    }
    assert_eq!(tl.tracks[0].clips.len(), 5);
    for _ in 0..5 {
        assert!(h.undo(&mut tl));
    }
    assert!(!h.undo(&mut tl));
    assert!(tl.tracks[0].clips.is_empty());
    for _ in 0..5 {
        assert!(h.redo(&mut tl));
    }
    assert!(!h.redo(&mut tl));
    assert_eq!(ids(&tl, 0), vec![1, 2, 3, 4, 5]);
}

#[test]
fn trim_then_undo_keeps_the_clip_order() {
    let mut tl = timeline_with(&[10]);
    tl.tracks[0].clips.push(clip(1, 10, 0, TPS));
    tl.tracks[0].clips.push(clip(2, 10, 0, 2 * TPS));
    tl.recompute_duration();
    let before = tl.tracks[0].clips.clone();
    let mut cmd = TrimClipCommand::new(1, 10, 0, TPS, 0, TPS, 5 * TPS, 6 * TPS, 0, TPS);
    cmd.execute(&mut tl);
    assert_eq!(ids(&tl, 0), vec![2, 1]);
    assert_eq!(tl.duration, 6 * TPS);
    cmd.undo(&mut tl);
    assert_eq!(tl.tracks[0].clips, before);
    assert_eq!(tl.duration, 2 * TPS);
}
