//! `MoveClipCommand` — moves a clip to a new timeline position.
//!
//! On **execute**: updates `timeline_start` and `timeline_end` of the clip.
//! On **undo**: restores the original position.

use vstd::prelude::*;

use crate::clip::Clip;
use crate::clip_order::{
    find_clip, lemma_find_clip, lemma_sort_by_start, lemma_sort_sorted_identity,
    lemma_sorted_permutation_unique, position_of_clip, sort_by_start, sort_clips_by_start,
    sorted_by_start, strictly_sorted_by_start,
};
use crate::commands::Command;
use crate::time::{sat_add, spec_max, spec_sat_add};
use crate::timeline::{
    duration_is_computed, find_track, lemma_find_track, lemma_find_track_with_clips,
    lemma_tracks_max_end_bounds, tracks_sorted, with_computed_duration, with_track_clips, Timeline,
    TimelineView,
};

verus! {

broadcast use vstd::seq_lib::group_seq_properties, vstd::multiset::group_multiset_axioms;

/// `c` placed to start at `new_start` (or at 0 when `new_start` is
/// negative) and to last `duration`.
pub open spec fn clip_placed_at(c: Clip, new_start: i64, duration: i64) -> Clip {
    let s = spec_max(new_start as int, 0) as i64;
    Clip { timeline_start: s, timeline_end: spec_sat_add(s as int, duration as int) as i64, ..c }
}

/// `tl` after moving the first clip with id `clip_id` on the first track
/// with id `track_id` to `new_start` (clamped at 0) for `duration`: that
/// track's clips are then sorted by start (also when no clip has the id),
/// and the duration is recomputed.
pub open spec fn clip_move_applied(
    tl: TimelineView,
    track_id: u128,
    clip_id: u128,
    new_start: i64,
    duration: i64,
) -> TimelineView {
    with_computed_duration(
        match find_track(tl.tracks, track_id) {
            Some(i) => {
                let s = tl.tracks[i].clips;
                let s2 = match find_clip(s, clip_id) {
                    Some(k) => s.update(k, clip_placed_at(s[k], new_start, duration)),
                    None => s,
                };
                with_track_clips(tl, i, sort_by_start(s2))
            },
            None => tl,
        },
    )
}

/// Moves a clip, as [`clip_move_applied`] says.
pub fn apply_move(
    timeline: &mut Timeline,
    track_id: u128,
    clip_id: u128,
    new_start: i64,
    duration: i64,
)
    ensures
        final(timeline)@ == clip_move_applied(old(timeline)@, track_id, clip_id, new_start, duration),
{
    let ghost old_tl = timeline@;
    proof {
        lemma_find_track(old_tl.tracks, track_id);
    }
    match timeline.position_of_track(track_id) {
        Some(i) => {
            let track = &mut timeline.tracks[i];
            let ghost s = track.clips@;
            proof {
                lemma_find_clip(s, clip_id);
            }
            match position_of_clip(&track.clips, clip_id) {
                Some(k) => {
                    let start = if new_start < 0 {
                        0
                    } else {
                        new_start
                    };
                    let end = sat_add(start, duration);
                    let clip = &mut track.clips[k];
                    clip.timeline_start = start;
                    clip.timeline_end = end;
                    proof {
                        assert(track.clips@ =~= s.update(
                            k as int,
                            clip_placed_at(s[k as int], new_start, duration),
                        ));
                    }
                },
                None => {},
            }
            sort_clips_by_start(&mut track.clips);
            proof {
                let s2 = match find_clip(s, clip_id) {
                    Some(k) => s.update(k, clip_placed_at(s[k], new_start, duration)),
                    None => s,
                };
                let want = with_track_clips(old_tl, i as int, sort_by_start(s2));
                assert(timeline@.tracks =~= want.tracks);
            }
        },
        None => {},
    }
    timeline.recompute_duration();
}

/// Moves a clip identified by `clip_id` from `old_start` to `new_start`.
pub struct MoveClipCommand {
    /// The clip to move.
    pub clip_id: u128,
    /// The track the clip is on.
    pub track_id: u128,
    /// Original timeline start (for undo).
    pub old_start: i64,
    /// New timeline start (for execute).
    pub new_start: i64,
    /// Duration of the clip (unchanged by move).
    pub duration: i64,
}

impl MoveClipCommand {
    /// Create a move command for a clip that starts at `old_start`.
    pub fn new(clip_id: u128, track_id: u128, old_start: i64, new_start: i64, duration: i64) -> (c:
        Self)
        ensures
            c.clip_id == clip_id,
            c.track_id == track_id,
            c.old_start == old_start,
            c.new_start == new_start,
            c.duration == duration,
    {
        Self { clip_id, track_id, old_start, new_start, duration }
    }
}

/// The timelines on which moving a clip from `old_start` to `new_start` and
/// moving it back restores the timeline: the duration is the computed one,
/// and on the target track, if there is one, either no clip has the id and
/// the clips are sorted by start, or the clips have strictly increasing
/// starts, no other clip has the moved clip's id, and the clip starts at
/// `old_start >= 0` and ends at `old_start + duration`.
pub open spec fn move_restorable(
    tl: TimelineView,
    track_id: u128,
    clip_id: u128,
    old_start: i64,
    duration: i64,
) -> bool {
    &&& duration_is_computed(tl)
    &&& match find_track(tl.tracks, track_id) {
        Some(i) => {
            let s = tl.tracks[i].clips;
            match find_clip(s, clip_id) {
                Some(k) => {
                    &&& strictly_sorted_by_start(s)
                    &&& forall|j: int| 0 <= j < s.len() && j != k ==> s[j].id != clip_id
                    &&& old_start >= 0
                    &&& s[k].timeline_start == old_start
                    &&& s[k].timeline_end == old_start + duration
                },
                None => sorted_by_start(s),
            }
        },
        None => true,
    }
}

pub(crate) proof fn lemma_strict_is_sorted(s: Seq<Clip>)
    requires
        strictly_sorted_by_start(s),
    ensures
        sorted_by_start(s),
{
    assert forall|i: int, j: int| 0 <= i <= j < s.len() implies s[i].timeline_start
        <= s[j].timeline_start by {
        if i < j {
        }
    }
}

/// Replacing the one clip with id `id` of a strictly sorted track by `m`
/// (with the same id) and sorting, then replacing the first clip with that
/// id by the old clip again and sorting, gives the track back.
pub proof fn lemma_replace_and_restore(s: Seq<Clip>, k: int, m: Clip, id: u128)
    requires
        strictly_sorted_by_start(s),
        0 <= k < s.len(),
        s[k].id == id,
        m.id == id,
        forall|j: int| 0 <= j < s.len() && j != k ==> s[j].id != id,
    ensures
        find_clip(sort_by_start(s.update(k, m)), id) is Some,
        ({
            let p = sort_by_start(s.update(k, m));
            let k2 = find_clip(p, id)->0;
            &&& 0 <= k2 < p.len()
            &&& p[k2] == m
            &&& sort_by_start(p.update(k2, s[k])) == s
        }),
{
    lemma_strict_is_sorted(s);
    let s2 = s.update(k, m);
    let p = sort_by_start(s2);
    lemma_sort_by_start(s2);
    p.to_multiset_ensures();
    s2.to_multiset_ensures();
    lemma_find_clip(p, id);
    assert(find_clip(p, id) is Some) by {
        assert(s2[k] == m);
        assert(s2.contains(m));
        assert(s2.to_multiset().count(m) > 0);
        assert(p.contains(m));
        let t = choose|t: int| 0 <= t < p.len() && p[t] == m;
        assert(p[t].id == id);
    }
    let k2 = find_clip(p, id)->0;
    assert(p[k2] == m) by {
        assert(p.contains(p[k2]));
        assert(p.to_multiset().count(p[k2]) > 0);
        assert(s2.contains(p[k2]));
        let t = choose|t: int| 0 <= t < s2.len() && s2[t] == p[k2];
        if t != k {
            assert(s2[t] == s[t]);
        }
    }
    let q_in = p.update(k2, s[k]);
    let q = sort_by_start(q_in);
    lemma_sort_by_start(q_in);
    vstd::seq_lib::to_multiset_update(s, k, m);
    vstd::seq_lib::to_multiset_update(p, k2, s[k]);
    assert(q_in.to_multiset() =~= s.to_multiset()) by {
        s.to_multiset_ensures();
        assert(s.contains(s[k]));
    }
    lemma_sorted_permutation_unique(s, q);
}

/// Law: moving a clip and undoing the move gives back the timeline, on
/// every timeline that [`move_restorable`] admits.
pub proof fn lemma_move_then_undo(
    tl: TimelineView,
    track_id: u128,
    clip_id: u128,
    old_start: i64,
    new_start: i64,
    duration: i64,
)
    requires
        move_restorable(tl, track_id, clip_id, old_start, duration),
    ensures
        clip_move_applied(
            clip_move_applied(tl, track_id, clip_id, new_start, duration),
            track_id,
            clip_id,
            old_start,
            duration,
        ) == tl,
{
    lemma_find_track(tl.tracks, track_id);
    let mid = clip_move_applied(tl, track_id, clip_id, new_start, duration);
    match find_track(tl.tracks, track_id) {
        Some(i) => {
            let s = tl.tracks[i].clips;
            lemma_find_clip(s, clip_id);
            match find_clip(s, clip_id) {
                Some(k) => {
                    let m = clip_placed_at(s[k], new_start, duration);
                    let p = sort_by_start(s.update(k, m));
                    lemma_replace_and_restore(s, k, m, clip_id);
                    lemma_find_track_with_clips(tl, i, p, track_id);
                    assert(mid.tracks[i].clips == p);
                    let k2 = find_clip(p, clip_id)->0;
                    assert(clip_placed_at(m, old_start, duration) == s[k]);
                    lemma_find_track_with_clips(mid, i, sort_by_start(p.update(k2, s[k])), track_id);
                    assert(clip_move_applied(mid, track_id, clip_id, old_start, duration).tracks
                        =~= tl.tracks);
                },
                None => {
                    lemma_sort_sorted_identity(s);
                    lemma_find_track_with_clips(tl, i, s, track_id);
                    assert(mid.tracks =~= tl.tracks);
                },
            }
        },
        None => {},
    }
}

impl Command for MoveClipCommand {
    open spec fn executed(&self, tl: TimelineView) -> TimelineView {
        clip_move_applied(tl, self.track_id, self.clip_id, self.new_start, self.duration)
    }

    open spec fn recorded(&self, tl: TimelineView) -> Self {
        *self
    }

    open spec fn undone(&self, tl: TimelineView) -> TimelineView {
        clip_move_applied(tl, self.track_id, self.clip_id, self.old_start, self.duration)
    }

    open spec fn restorable(&self, tl: TimelineView) -> bool {
        move_restorable(tl, self.track_id, self.clip_id, self.old_start, self.duration)
    }

    open spec fn label_view(&self) -> Seq<char> {
        "Move Clip"@
    }

    proof fn lemma_recorded_label(&self, tl: TimelineView) {
    }

    proof fn lemma_undo_restores(&self, tl: TimelineView) {
        lemma_move_then_undo(
            tl,
            self.track_id,
            self.clip_id,
            self.old_start,
            self.new_start,
            self.duration,
        );
    }

    fn execute(&mut self, timeline: &mut Timeline) {
        apply_move(timeline, self.track_id, self.clip_id, self.new_start, self.duration);
    }

    fn undo(&mut self, timeline: &mut Timeline) {
        apply_move(timeline, self.track_id, self.clip_id, self.old_start, self.duration);
    }

    fn label(&self) -> (r: &str) {
        "Move Clip"
    }
}

/// Law: moving a clip keeps every track sorted by start, and leaves the
/// timeline's duration the one its clips give.
pub proof fn lemma_move_keeps_tracks_sorted(
    tl: TimelineView,
    track_id: u128,
    clip_id: u128,
    new_start: i64,
    duration: i64,
)
    requires
        tracks_sorted(tl),
    ensures
        tracks_sorted(clip_move_applied(tl, track_id, clip_id, new_start, duration)),
        duration_is_computed(clip_move_applied(tl, track_id, clip_id, new_start, duration)),
{
    lemma_find_track(tl.tracks, track_id);
    match find_track(tl.tracks, track_id) {
        Some(i) => {
            let s = tl.tracks[i].clips;
            let s2 = match find_clip(s, clip_id) {
                Some(k) => s.update(k, clip_placed_at(s[k], new_start, duration)),
                None => s,
            };
            lemma_sort_by_start(s2);
            let t2 = with_track_clips(tl, i, sort_by_start(s2));
            assert forall|j: int| 0 <= j < t2.tracks.len() implies sorted_by_start(
                #[trigger] t2.tracks[j].clips,
            ) by {
                if j != i {
                    assert(t2.tracks[j] == tl.tracks[j]);
                }
            }
            lemma_tracks_max_end_bounds(t2.tracks);
        },
        None => {
            lemma_tracks_max_end_bounds(tl.tracks);
        },
    }
}

/// Law: moving a clip changes nothing but where it sits on the timeline.
/// The track afterwards holds the same clips as before, except that the
/// moved clip is replaced by itself — same id, asset, track, source in and
/// out points — starting at `new_start` (0 when that is negative) and
/// ending `duration` later (within the range of `i64`); every other track
/// is unchanged.
pub proof fn lemma_move_changes_only_position(
    tl: TimelineView,
    track_id: u128,
    clip_id: u128,
    new_start: i64,
    duration: i64,
)
    ensures
        ({
            let after = clip_move_applied(tl, track_id, clip_id, new_start, duration);
            match find_track(tl.tracks, track_id) {
                Some(i) => {
                    let s = tl.tracks[i].clips;
                    &&& after.tracks.len() == tl.tracks.len()
                    &&& forall|j: int| 0 <= j < tl.tracks.len() && j != i ==> after.tracks[j] == tl.tracks[j]
                    &&& after.tracks[i].id == tl.tracks[i].id
                    &&& match find_clip(s, clip_id) {
                        Some(k) => {
                            let start: i64 = if new_start < 0 { 0 } else { new_start };
                            let moved = Clip {
                                timeline_start: start,
                                timeline_end: spec_sat_add(start as int, duration as int) as i64,
                                ..s[k]
                            };
                            after.tracks[i].clips.to_multiset() == s.to_multiset().insert(moved).remove(s[k])
                        },
                        None => after.tracks[i].clips.to_multiset() == s.to_multiset(),
                    }
                },
                None => after.tracks == tl.tracks,
            }
        }),
{
    lemma_find_track(tl.tracks, track_id);
    match find_track(tl.tracks, track_id) {
        Some(i) => {
            let s = tl.tracks[i].clips;
            lemma_find_clip(s, clip_id);
            match find_clip(s, clip_id) {
                Some(k) => {
                    let u = s.update(k, clip_placed_at(s[k], new_start, duration));
                    lemma_sort_by_start(u);
                    vstd::seq_lib::to_multiset_update(s, k, clip_placed_at(s[k], new_start, duration));
                },
                None => {
                    lemma_sort_by_start(s);
                },
            }
        },
        None => {},
    }
}

} // verus!
