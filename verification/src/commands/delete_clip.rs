//! `DeleteClipCommand` — removes a clip from a track.
//!
//! On **execute**: removes the clip from its track, noting where it was.
//! On **undo**: re-inserts the clip at its original position.

use vstd::prelude::*;

use crate::clip::Clip;
use crate::clip_order::{find_clip, lemma_find_clip, lemma_remove_id_unique, position_of_clip};
use crate::commands::add_clip::{
    add_clip_to_timeline, clip_added, clip_removed, remove_clip_from_timeline,
};
use crate::commands::Command;
use crate::timeline::{
    duration_is_computed, find_track, lemma_find_track, lemma_find_track_with_clips,
    with_computed_duration, with_track_clips, Timeline, TimelineView,
};

verus! {

/// Removes a clip from the timeline.
pub struct DeleteClipCommand {
    /// The clip to delete (kept here for undo).
    pub clip: Clip,
    /// Where the clip stood on its track when the command was last executed
    /// (`None` before that, or when it was not found).
    pub position: Option<usize>,
}

impl DeleteClipCommand {
    /// Create a delete command for the given clip.
    pub fn new(clip: Clip) -> (c: Self)
        ensures
            c.clip == clip,
            c.position is None,
    {
        Self { clip, position: None }
    }
}

/// The index of the first clip with the id of `clip` on the first track
/// with its track id in `tl`, if there is one.
pub open spec fn position_in(tl: TimelineView, clip: Clip) -> Option<usize> {
    match find_track(tl.tracks, clip.track_id) {
        Some(i) => match find_clip(tl.tracks[i].clips, clip.id) {
            Some(k) => Some(k as usize),
            None => None,
        },
        None => None,
    }
}

/// `tl` with `clip` put back at `position` on the first track with its track
/// id (at the end when the track has become shorter), and its duration
/// recomputed; without a position, `clip` is added in start order.
pub open spec fn clip_restored(tl: TimelineView, clip: Clip, position: Option<usize>) -> TimelineView {
    match position {
        Some(q) => with_computed_duration(
            match find_track(tl.tracks, clip.track_id) {
                Some(i) => {
                    let s = tl.tracks[i].clips;
                    let at = if q < s.len() { q as int } else { s.len() as int };
                    with_track_clips(tl, i, s.insert(at, clip))
                },
                None => tl,
            },
        ),
        None => clip_added(tl, clip),
    }
}

/// The timelines on which deleting `clip` and undoing it gives the timeline
/// back: the duration is the computed one and the target track, if there is
/// one, holds `clip` itself as its only clip with that id.
pub open spec fn delete_restorable(tl: TimelineView, clip: Clip) -> bool {
    &&& duration_is_computed(tl)
    &&& match find_track(tl.tracks, clip.track_id) {
        Some(i) => {
            let s = tl.tracks[i].clips;
            &&& s.len() <= usize::MAX
            &&& exists|k: int|
                0 <= k < s.len() && #[trigger] s[k] == clip && (forall|j: int|
                    0 <= j < s.len() && j != k ==> s[j].id != clip.id)
        },
        None => true,
    }
}

/// Law: undoing the deletion of a clip right after it was deleted puts it
/// back where it was and gives back the timeline, whenever the clip is the
/// only one with its id on its track and the duration is the computed one.
pub proof fn lemma_delete_then_undo(tl: TimelineView, clip: Clip)
    requires
        delete_restorable(tl, clip),
    ensures
        clip_restored(clip_removed(tl, clip), clip, position_in(tl, clip)) == tl,
{
    lemma_find_track(tl.tracks, clip.track_id);
    let mid = clip_removed(tl, clip);
    match find_track(tl.tracks, clip.track_id) {
        Some(i) => {
            let s = tl.tracks[i].clips;
            let k = choose|k: int|
                0 <= k < s.len() && #[trigger] s[k] == clip && (forall|j: int|
                    0 <= j < s.len() && j != k ==> s[j].id != clip.id);
            lemma_find_clip(s, clip.id);
            assert(find_clip(s, clip.id) == Some(k)) by {
                let f = find_clip(s, clip.id)->0;
                if f != k {
                    assert(s[f].id == clip.id);
                }
            }
            lemma_remove_id_unique(s, clip.id, k);
            let r = s.remove(k);
            lemma_find_track_with_clips(tl, i, r, clip.track_id);
            assert(mid.tracks[i].clips == r);
            assert(r.insert(k, clip) =~= s);
            assert(clip_restored(mid, clip, position_in(tl, clip)).tracks =~= tl.tracks);
        },
        None => {
            assert(clip_added(mid, clip).tracks =~= tl.tracks);
        },
    }
}

impl Command for DeleteClipCommand {
    open spec fn executed(&self, tl: TimelineView) -> TimelineView {
        clip_removed(tl, self.clip)
    }

    open spec fn recorded(&self, tl: TimelineView) -> Self {
        DeleteClipCommand { clip: self.clip, position: position_in(tl, self.clip) }
    }

    open spec fn undone(&self, tl: TimelineView) -> TimelineView {
        clip_restored(tl, self.clip, self.position)
    }

    open spec fn restorable(&self, tl: TimelineView) -> bool {
        delete_restorable(tl, self.clip)
    }

    open spec fn label_view(&self) -> Seq<char> {
        "Delete Clip"@
    }

    proof fn lemma_recorded_label(&self, tl: TimelineView) {
    }

    proof fn lemma_undo_restores(&self, tl: TimelineView) {
        lemma_delete_then_undo(tl, self.clip);
    }

    fn execute(&mut self, timeline: &mut Timeline) {
        proof {
            lemma_find_track(timeline@.tracks, self.clip.track_id);
        }
        self.position = match timeline.position_of_track(self.clip.track_id) {
            Some(i) => {
                proof {
                    lemma_find_clip(timeline@.tracks[i as int].clips, self.clip.id);
                }
                position_of_clip(&timeline.tracks[i].clips, self.clip.id)
            },
            None => None,
        };
        remove_clip_from_timeline(timeline, self.clip);
    }

    fn undo(&mut self, timeline: &mut Timeline) {
        match self.position {
            Some(q) => restore_clip_at(timeline, self.clip, q),
            None => add_clip_to_timeline(timeline, self.clip),
        }
    }

    fn label(&self) -> (r: &str) {
        "Delete Clip"
    }
}

/// Puts `clip` back at position `q` of its track, as [`clip_restored`] says.
fn restore_clip_at(timeline: &mut Timeline, clip: Clip, q: usize)
    ensures
        final(timeline)@ == clip_restored(old(timeline)@, clip, Some(q)),
{
    let ghost old_tl = timeline@;
    proof {
        lemma_find_track(old_tl.tracks, clip.track_id);
    }
    match timeline.position_of_track(clip.track_id) {
        Some(i) => {
            let track = &mut timeline.tracks[i];
            let ghost s = track.clips@;
            let n = track.clips.len();
            let at = if q < n {
                q
            } else {
                n
            };
            track.clips.insert(at, clip);
            proof {
                let want = with_track_clips(old_tl, i as int, s.insert(at as int, clip));
                assert(timeline@.tracks =~= want.tracks);
            }
        },
        None => {},
    }
    timeline.recompute_duration();
}

} // verus!
