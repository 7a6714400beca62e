//! `AddClipCommand` — places a new clip onto a track.
//!
//! On **execute** the clip is inserted into the correct track.
//! On **undo** the clip is removed again by its id.

use vstd::prelude::*;

use crate::clip::Clip;
use crate::clip_order::{
    insert_by_start, lemma_remove_id_sorted, lemma_sort_by_start, lemma_insert_by_start_index, lemma_remove_id_unique, lemma_sort_push,
    lemma_sort_sorted_identity, remove_id, retain_other_ids, sort_by_start, sort_clips_by_start,
    sorted_by_start,
};
use crate::commands::Command;
use crate::timeline::{
    duration_is_computed, find_track, lemma_find_track, lemma_tracks_max_end_bounds, tracks_sorted,
    with_computed_duration, with_track_clips, Timeline, TimelineView,
};

verus! {

/// `tl` with `clip` added to the first track whose id is `clip.track_id`
/// (the track's clips then sorted by start), and its duration recomputed.
pub open spec fn clip_added(tl: TimelineView, clip: Clip) -> TimelineView {
    with_computed_duration(
        match find_track(tl.tracks, clip.track_id) {
            Some(i) => with_track_clips(tl, i, sort_by_start(tl.tracks[i].clips.push(clip))),
            None => tl,
        },
    )
}

/// `tl` with every clip whose id is `clip.id` removed from the first track
/// whose id is `clip.track_id`, and its duration recomputed.
pub open spec fn clip_removed(tl: TimelineView, clip: Clip) -> TimelineView {
    with_computed_duration(
        match find_track(tl.tracks, clip.track_id) {
            Some(i) => with_track_clips(tl, i, remove_id(tl.tracks[i].clips, clip.id)),
            None => tl,
        },
    )
}

/// Adds `clip` to the first track with id `clip.track_id`, keeping the
/// track sorted, then recomputes the duration.
pub fn add_clip_to_timeline(timeline: &mut Timeline, clip: Clip)
    ensures
        final(timeline)@ == clip_added(old(timeline)@, clip),
{
    let ghost old_tl = timeline@;
    proof {
        lemma_find_track(old_tl.tracks, clip.track_id);
    }
    match timeline.position_of_track(clip.track_id) {
        Some(i) => {
            let track = &mut timeline.tracks[i];
            track.clips.push(clip);
            sort_clips_by_start(&mut track.clips);
            proof {
                let want = with_track_clips(old_tl, i as int, sort_by_start(old_tl.tracks[i as int].clips.push(clip)));
                assert(timeline@.tracks =~= want.tracks);
            }
        },
        None => {},
    }
    timeline.recompute_duration();
}

/// Removes every clip whose id is `clip.id` from the first track with id
/// `clip.track_id`, then recomputes the duration.
pub fn remove_clip_from_timeline(timeline: &mut Timeline, clip: Clip)
    ensures
        final(timeline)@ == clip_removed(old(timeline)@, clip),
{
    let ghost old_tl = timeline@;
    proof {
        lemma_find_track(old_tl.tracks, clip.track_id);
    }
    match timeline.position_of_track(clip.track_id) {
        Some(i) => {
            let track = &mut timeline.tracks[i];
            retain_other_ids(&mut track.clips, clip.id);
            proof {
                let want = with_track_clips(old_tl, i as int, remove_id(old_tl.tracks[i as int].clips, clip.id));
                assert(timeline@.tracks =~= want.tracks);
            }
        },
        None => {},
    }
    timeline.recompute_duration();
}

/// Inserts `clip` into the track identified by `clip.track_id`.
pub struct AddClipCommand {
    /// The clip to add.
    pub clip: Clip,
}

impl AddClipCommand {
    /// Create a new command that will add `clip` to the timeline.
    pub fn new(clip: Clip) -> (c: Self)
        ensures
            c.clip == clip,
    {
        Self { clip }
    }
}

/// The timelines on which adding `clip` and undoing it gives the timeline
/// back: the duration is the computed one and the target track, if there is
/// one, is sorted by start and holds no clip with the id of `clip`.
pub open spec fn add_restorable(tl: TimelineView, clip: Clip) -> bool {
    &&& duration_is_computed(tl)
    &&& match find_track(tl.tracks, clip.track_id) {
        Some(i) => sorted_by_start(tl.tracks[i].clips) && forall|j: int|
            0 <= j < tl.tracks[i].clips.len() ==> tl.tracks[i].clips[j].id != clip.id,
        None => true,
    }
}

/// Law: undoing the addition of a clip right after it was added gives back
/// the timeline, whenever the target track is sorted by start and does not
/// hold the clip's id already, and the duration is the computed one.
pub proof fn lemma_add_then_undo(tl: TimelineView, clip: Clip)
    requires
        add_restorable(tl, clip),
    ensures
        clip_removed(clip_added(tl, clip), clip) == tl,
{
    lemma_find_track(tl.tracks, clip.track_id);
    match find_track(tl.tracks, clip.track_id) {
        Some(i) => {
            let s = tl.tracks[i].clips;
            lemma_sort_push(s, clip);
            lemma_sort_sorted_identity(s);
            lemma_insert_by_start_index(s, clip);
            let k = choose|k: int|
                #![trigger s.insert(k, clip)]
                0 <= k <= s.len() && insert_by_start(s, clip) == s.insert(k, clip) && (forall|j: int|
                    k <= j < s.len() ==> s[j].timeline_start > clip.timeline_start) && (k > 0
                    ==> s[k - 1].timeline_start <= clip.timeline_start);
            let s2 = s.insert(k, clip);
            lemma_remove_id_unique(s2, clip.id, k);
            assert(s2.remove(k) =~= s);
            let mid = clip_added(tl, clip);
            assert(mid.tracks[i].clips == s2);
            lemma_find_track(mid.tracks, clip.track_id);
            assert(find_track(mid.tracks, clip.track_id) == Some(i));
            assert(clip_removed(mid, clip).tracks =~= tl.tracks);
        },
        None => {
            let mid = clip_added(tl, clip);
            assert(mid.tracks == tl.tracks);
            assert(clip_removed(mid, clip).tracks =~= tl.tracks);
        },
    }
}

impl Command for AddClipCommand {
    open spec fn executed(&self, tl: TimelineView) -> TimelineView {
        clip_added(tl, self.clip)
    }

    open spec fn recorded(&self, tl: TimelineView) -> Self {
        *self
    }

    open spec fn undone(&self, tl: TimelineView) -> TimelineView {
        clip_removed(tl, self.clip)
    }

    open spec fn restorable(&self, tl: TimelineView) -> bool {
        add_restorable(tl, self.clip)
    }

    open spec fn label_view(&self) -> Seq<char> {
        "Add Clip"@
    }

    proof fn lemma_recorded_label(&self, tl: TimelineView) {
    }

    proof fn lemma_undo_restores(&self, tl: TimelineView) {
        lemma_add_then_undo(tl, self.clip);
    }

    fn execute(&mut self, timeline: &mut Timeline) {
        add_clip_to_timeline(timeline, self.clip);
    }

    fn undo(&mut self, timeline: &mut Timeline) {
        remove_clip_from_timeline(timeline, self.clip);
    }

    fn label(&self) -> (r: &str) {
        "Add Clip"
    }
}

/// Law: adding a clip keeps every track sorted by start, and leaves the
/// timeline's duration the one its clips give.
pub proof fn lemma_add_keeps_tracks_sorted(tl: TimelineView, clip: Clip)
    requires
        tracks_sorted(tl),
    ensures
        tracks_sorted(clip_added(tl, clip)),
        duration_is_computed(clip_added(tl, clip)),
{
    lemma_find_track(tl.tracks, clip.track_id);
    match find_track(tl.tracks, clip.track_id) {
        Some(i) => {
            lemma_sort_by_start(tl.tracks[i].clips.push(clip));
            let t2 = with_track_clips(tl, i, sort_by_start(tl.tracks[i].clips.push(clip)));
            assert forall|j: int| 0 <= j < t2.tracks.len() implies sorted_by_start(
                #[trigger] t2.tracks[j].clips,
            ) by {
                if j != i {
                    assert(t2.tracks[j] == tl.tracks[j]);
                }
            }
            lemma_tracks_max_end_bounds(t2.tracks);
        },
        None => {
            lemma_tracks_max_end_bounds(tl.tracks);
        },
    }
}

/// Law: removing a clip keeps every track sorted by start, and leaves the
/// timeline's duration the one its clips give.
pub proof fn lemma_remove_keeps_tracks_sorted(tl: TimelineView, clip: Clip)
    requires
        tracks_sorted(tl),
    ensures
        tracks_sorted(clip_removed(tl, clip)),
        duration_is_computed(clip_removed(tl, clip)),
{
    lemma_find_track(tl.tracks, clip.track_id);
    match find_track(tl.tracks, clip.track_id) {
        Some(i) => {
            assert(sorted_by_start(tl.tracks[i].clips));
            lemma_remove_id_sorted(tl.tracks[i].clips, clip.id);
            let t2 = with_track_clips(tl, i, remove_id(tl.tracks[i].clips, clip.id));
            assert forall|j: int| 0 <= j < t2.tracks.len() implies sorted_by_start(
                #[trigger] t2.tracks[j].clips,
            ) by {
                if j != i {
                    assert(t2.tracks[j] == tl.tracks[j]);
                }
            }
            lemma_tracks_max_end_bounds(t2.tracks);
        },
        None => {
            lemma_tracks_max_end_bounds(tl.tracks);
        },
    }
}

} // verus!
