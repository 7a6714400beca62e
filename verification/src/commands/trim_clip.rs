//! `TrimClipCommand` — adjusts the in/out points of an existing clip.
//!
//! Stores the *previous* in/out values so the edit can be undone exactly.
//! A trimmed clip moves to its place by start on its track; undo puts it
//! back where it stood.

use vstd::prelude::*;

use crate::clip::Clip;
use crate::clip_order::{
    find_clip, insert_by_start, insert_clip_by_start, lemma_find_clip, lemma_find_first_is,
    lemma_insert_by_start_index, lemma_insert_by_start_multiset, lemma_insert_by_start_sorted,
    position_of_clip, sorted_by_start,
};
use crate::commands::Command;
use crate::timeline::{
    duration_is_computed, find_track, lemma_find_track, lemma_find_track_with_clips,
    lemma_tracks_max_end_bounds, tracks_sorted, with_computed_duration, with_track_clips, Timeline,
    TimelineView,
};

verus! {

/// The four in/out points of a clip.
#[derive(Debug, Clone, Copy)]
pub struct ClipBounds {
    pub timeline_start: i64,
    pub timeline_end: i64,
    pub source_start: i64,
    pub source_end: i64,
}

/// `c` with its in/out points set to `b`.
pub open spec fn clip_with_bounds(c: Clip, b: ClipBounds) -> Clip {
    Clip {
        timeline_start: b.timeline_start,
        timeline_end: b.timeline_end,
        source_start: b.source_start,
        source_end: b.source_end,
        ..c
    }
}

/// The index of the first clip with id `clip_id` on the first track with
/// id `track_id` in `tl`, if there is one.
pub open spec fn trim_position(tl: TimelineView, track_id: u128, clip_id: u128) -> Option<usize> {
    match find_track(tl.tracks, track_id) {
        Some(i) => match find_clip(tl.tracks[i].clips, clip_id) {
            Some(k) => Some(k as usize),
            None => None,
        },
        None => None,
    }
}

/// `tl` with the in/out points of the first clip with id `clip_id` on the
/// first track with id `track_id` set to `b`, the clip then moved to its
/// place by start among the other clips of that track (which keep their
/// order), and the duration recomputed.  Nothing but the duration changes
/// when there is no such clip.
pub open spec fn clip_trim_applied(tl: TimelineView, track_id: u128, clip_id: u128, b: ClipBounds) -> TimelineView {
    with_computed_duration(
        match find_track(tl.tracks, track_id) {
            Some(i) => {
                let s = tl.tracks[i].clips;
                match find_clip(s, clip_id) {
                    Some(k) => with_track_clips(tl, i, insert_by_start(s.remove(k), clip_with_bounds(s[k], b))),
                    None => tl,
                }
            },
            None => tl,
        },
    )
}

/// `tl` with the in/out points of the first clip with id `clip_id` on the
/// first track with id `track_id` set to `b` and the clip put back at index
/// `q` of that track (at the end when the track has become shorter), the
/// other clips keeping their order, and the duration recomputed.
pub open spec fn clip_trim_put_back(tl: TimelineView, track_id: u128, clip_id: u128, b: ClipBounds, q: usize) -> TimelineView {
    with_computed_duration(
        match find_track(tl.tracks, track_id) {
            Some(i) => {
                let s = tl.tracks[i].clips;
                match find_clip(s, clip_id) {
                    Some(k) => {
                        let r = s.remove(k);
                        let at = if q < r.len() { q as int } else { r.len() as int };
                        with_track_clips(tl, i, r.insert(at, clip_with_bounds(s[k], b)))
                    },
                    None => tl,
                }
            },
            None => tl,
        },
    )
}

/// Sets the in/out points of a clip, as [`clip_trim_applied`] says, and
/// returns where the clip stood before.
pub fn apply_trim(timeline: &mut Timeline, track_id: u128, clip_id: u128, b: ClipBounds) -> (r: Option<usize>)
    ensures
        final(timeline)@ == clip_trim_applied(old(timeline)@, track_id, clip_id, b),
        r == trim_position(old(timeline)@, track_id, clip_id),
{
    let ghost old_tl = timeline@;
    proof {
        lemma_find_track(old_tl.tracks, track_id);
    }
    let r = match timeline.position_of_track(track_id) {
        Some(i) => {
            let track = &mut timeline.tracks[i];
            let ghost s = track.clips@;
            proof {
                lemma_find_clip(s, clip_id);
            }
            match position_of_clip(&track.clips, clip_id) {
                Some(k) => {
                    let mut clip = track.clips.remove(k);
                    clip.timeline_start = b.timeline_start;
                    clip.timeline_end = b.timeline_end;
                    clip.source_start = b.source_start;
                    clip.source_end = b.source_end;
                    insert_clip_by_start(&mut track.clips, clip);
                    proof {
                        assert(clip == clip_with_bounds(s[k as int], b));
                        let want = with_track_clips(
                            old_tl,
                            i as int,
                            insert_by_start(s.remove(k as int), clip_with_bounds(s[k as int], b)),
                        );
                        assert(timeline@.tracks =~= want.tracks);
                    }
                    Some(k)
                },
                None => {
                    proof {
                        assert(timeline@.tracks =~= old_tl.tracks);
                    }
                    None
                },
            }
        },
        None => None,
    };
    timeline.recompute_duration();
    r
}

/// Gives a clip back its in/out points at index `q`, as
/// [`clip_trim_put_back`] says.
fn put_back_trim(timeline: &mut Timeline, track_id: u128, clip_id: u128, b: ClipBounds, q: usize)
    ensures
        final(timeline)@ == clip_trim_put_back(old(timeline)@, track_id, clip_id, b, q),
{
    let ghost old_tl = timeline@;
    proof {
        lemma_find_track(old_tl.tracks, track_id);
    }
    match timeline.position_of_track(track_id) {
        Some(i) => {
            let track = &mut timeline.tracks[i];
            let ghost s = track.clips@;
            proof {
                lemma_find_clip(s, clip_id);
            }
            match position_of_clip(&track.clips, clip_id) {
                Some(k) => {
                    let mut clip = track.clips.remove(k);
                    clip.timeline_start = b.timeline_start;
                    clip.timeline_end = b.timeline_end;
                    clip.source_start = b.source_start;
                    clip.source_end = b.source_end;
                    let n = track.clips.len();
                    let at = if q < n {
                        q
                    } else {
                        n
                    };
                    track.clips.insert(at, clip);
                    proof {
                        assert(clip == clip_with_bounds(s[k as int], b));
                        let r = s.remove(k as int);
                        let want = with_track_clips(old_tl, i as int, r.insert(at as int, clip));
                        assert(timeline@.tracks =~= want.tracks);
                    }
                },
                None => {
                    proof {
                        assert(timeline@.tracks =~= old_tl.tracks);
                    }
                },
            }
        },
        None => {},
    }
    timeline.recompute_duration();
}

/// Trims a clip's timeline and source in/out points.
pub struct TrimClipCommand {
    /// The clip to trim (identified by id).
    clip_id: u128,
    /// The track the clip lives on (for fast lookup).
    track_id: u128,
    /// Values applied by execute.
    new_bounds: ClipBounds,
    /// Previous values restored by undo.
    old_bounds: ClipBounds,
    /// Where the clip stood on its track when the command was last executed
    /// (`None` before that, or when it was not found).
    position: Option<usize>,
}

/// The mathematical value of a [`TrimClipCommand`].
pub struct TrimView {
    pub clip_id: u128,
    pub track_id: u128,
    pub new_bounds: ClipBounds,
    pub old_bounds: ClipBounds,
    pub position: Option<usize>,
}

impl View for TrimClipCommand {
    type V = TrimView;

    closed spec fn view(&self) -> TrimView {
        TrimView {
            clip_id: self.clip_id,
            track_id: self.track_id,
            new_bounds: self.new_bounds,
            old_bounds: self.old_bounds,
            position: self.position,
        }
    }
}

impl TrimClipCommand {
    /// Create a trim command.
    ///
    /// `old_*` values are the current clip state; `new_*` values are what the
    /// edit should apply.
    pub fn new(
        clip_id: u128,
        track_id: u128,
        old_timeline_start: i64,
        old_timeline_end: i64,
        old_source_start: i64,
        old_source_end: i64,
        new_timeline_start: i64,
        new_timeline_end: i64,
        new_source_start: i64,
        new_source_end: i64,
    ) -> (c: Self)
        ensures
            c@.clip_id == clip_id,
            c@.track_id == track_id,
            c@.old_bounds == (ClipBounds {
                timeline_start: old_timeline_start,
                timeline_end: old_timeline_end,
                source_start: old_source_start,
                source_end: old_source_end,
            }),
            c@.new_bounds == (ClipBounds {
                timeline_start: new_timeline_start,
                timeline_end: new_timeline_end,
                source_start: new_source_start,
                source_end: new_source_end,
            }),
            c@.position is None,
    {
        Self {
            clip_id,
            track_id,
            new_bounds: ClipBounds {
                timeline_start: new_timeline_start,
                timeline_end: new_timeline_end,
                source_start: new_source_start,
                source_end: new_source_end,
            },
            old_bounds: ClipBounds {
                timeline_start: old_timeline_start,
                timeline_end: old_timeline_end,
                source_start: old_source_start,
                source_end: old_source_end,
            },
            position: None,
        }
    }
}

/// The timelines on which trimming a clip and undoing the trim gives the
/// timeline back: the duration is the computed one, and on the target
/// track, if the clip is there, no other clip has its id and it has exactly
/// the old bounds.
pub open spec fn trim_restorable(tl: TimelineView, track_id: u128, clip_id: u128, old_bounds: ClipBounds) -> bool {
    &&& duration_is_computed(tl)
    &&& match find_track(tl.tracks, track_id) {
        Some(i) => {
            let s = tl.tracks[i].clips;
            match find_clip(s, clip_id) {
                Some(k) => {
                    &&& s.len() <= usize::MAX
                    &&& forall|j: int| 0 <= j < s.len() && j != k ==> s[j].id != clip_id
                    &&& clip_with_bounds(s[k], old_bounds) == s[k]
                },
                None => true,
            }
        },
        None => true,
    }
}

/// When clip `k` of `s` is the only one with its id, taking it out and
/// inserting `m` (with that id) by start leaves `m` as the first clip with
/// the id, and taking it out again gives `s` without clip `k`.
proof fn lemma_moved_clip_found(s: Seq<Clip>, k: int, m: Clip) -> (k2: int)
    requires
        0 <= k < s.len(),
        m.id == s[k].id,
        forall|j: int| 0 <= j < s.len() && j != k ==> s[j].id != m.id,
    ensures
        find_clip(insert_by_start(s.remove(k), m), m.id) == Some(k2),
        0 <= k2 < insert_by_start(s.remove(k), m).len(),
        insert_by_start(s.remove(k), m)[k2] == m,
        insert_by_start(s.remove(k), m).remove(k2) == s.remove(k),
{
    let r = s.remove(k);
    assert forall|j: int| 0 <= j < r.len() implies r[j].id != m.id by {
        if j < k {
            assert(r[j] == s[j]);
        } else {
            assert(r[j] == s[j + 1]);
        }
    }
    lemma_insert_by_start_index(r, m);
    let k2 = choose|k2: int|
        #![trigger r.insert(k2, m)]
        0 <= k2 <= r.len() && insert_by_start(r, m) == r.insert(k2, m) && (forall|j: int|
            k2 <= j < r.len() ==> r[j].timeline_start > m.timeline_start) && (k2 > 0
            ==> r[k2 - 1].timeline_start <= m.timeline_start);
    let t = r.insert(k2, m);
    assert forall|j: int| 0 <= j < k2 implies t[j].id != m.id by {
        assert(t[j] == r[j]);
    }
    lemma_find_first_is(t, m.id, k2);
    assert(t.remove(k2) =~= r);
    k2
}

/// Law: trimming a clip and then putting it back with its old bounds where
/// it stood gives back the timeline, clip order included, on every
/// timeline that [`trim_restorable`] admits.
pub proof fn lemma_trim_then_undo(
    tl: TimelineView,
    track_id: u128,
    clip_id: u128,
    old_bounds: ClipBounds,
    new_bounds: ClipBounds,
)
    requires
        trim_restorable(tl, track_id, clip_id, old_bounds),
    ensures
        ({
            let mid = clip_trim_applied(tl, track_id, clip_id, new_bounds);
            match trim_position(tl, track_id, clip_id) {
                Some(q) => clip_trim_put_back(mid, track_id, clip_id, old_bounds, q) == tl,
                None => clip_trim_applied(mid, track_id, clip_id, old_bounds) == tl,
            }
        }),
{
    lemma_find_track(tl.tracks, track_id);
    let mid = clip_trim_applied(tl, track_id, clip_id, new_bounds);
    match find_track(tl.tracks, track_id) {
        Some(i) => {
            let s = tl.tracks[i].clips;
            lemma_find_clip(s, clip_id);
            match find_clip(s, clip_id) {
                Some(k) => {
                    let m = clip_with_bounds(s[k], new_bounds);
                    let r = s.remove(k);
                    let t = insert_by_start(r, m);
                    let k2 = lemma_moved_clip_found(s, k, m);
                    lemma_find_track_with_clips(tl, i, t, track_id);
                    assert(mid.tracks[i].clips == t);
                    assert(clip_with_bounds(t[k2], old_bounds) == s[k]);
                    assert(r.insert(k, s[k]) =~= s);
                    lemma_find_track_with_clips(mid, i, s, track_id);
                    assert(clip_trim_put_back(mid, track_id, clip_id, old_bounds, k as usize).tracks
                        =~= tl.tracks);
                },
                None => {
                    assert(mid.tracks =~= tl.tracks);
                },
            }
        },
        None => {},
    }
}

/// Law: trimming a clip changes nothing but its four in/out points: its
/// track afterwards holds the same clips as before, except that the trimmed
/// clip is replaced by itself — same id, asset and track — with the in/out
/// points of `b`; every other track is unchanged.
pub proof fn lemma_trim_changes_only_bounds(tl: TimelineView, track_id: u128, clip_id: u128, b: ClipBounds)
    ensures
        ({
            let after = clip_trim_applied(tl, track_id, clip_id, b);
            match find_track(tl.tracks, track_id) {
                Some(i) => {
                    let s = tl.tracks[i].clips;
                    &&& after.tracks.len() == tl.tracks.len()
                    &&& forall|j: int| 0 <= j < tl.tracks.len() && j != i ==> after.tracks[j] == tl.tracks[j]
                    &&& after.tracks[i].id == tl.tracks[i].id
                    &&& match find_clip(s, clip_id) {
                        Some(k) => {
                            let trimmed = Clip {
                                timeline_start: b.timeline_start,
                                timeline_end: b.timeline_end,
                                source_start: b.source_start,
                                source_end: b.source_end,
                                ..s[k]
                            };
                            after.tracks[i].clips.to_multiset() == s.to_multiset().remove(s[k]).insert(trimmed)
                        },
                        None => after.tracks[i].clips == s,
                    }
                },
                None => after.tracks == tl.tracks,
            }
        }),
{
    lemma_find_track(tl.tracks, track_id);
    match find_track(tl.tracks, track_id) {
        Some(i) => {
            let s = tl.tracks[i].clips;
            lemma_find_clip(s, clip_id);
            match find_clip(s, clip_id) {
                Some(k) => {
                    let m = clip_with_bounds(s[k], b);
                    lemma_insert_by_start_multiset(s.remove(k), m);
                    s.to_multiset_ensures();
                },
                None => {},
            }
        },
        None => {},
    }
}

/// Law: trimming a clip keeps every track sorted by start, and leaves the
/// timeline's duration the one its clips give.
pub proof fn lemma_trim_keeps_tracks_sorted(tl: TimelineView, track_id: u128, clip_id: u128, b: ClipBounds)
    requires
        tracks_sorted(tl),
    ensures
        tracks_sorted(clip_trim_applied(tl, track_id, clip_id, b)),
        duration_is_computed(clip_trim_applied(tl, track_id, clip_id, b)),
{
    lemma_find_track(tl.tracks, track_id);
    match find_track(tl.tracks, track_id) {
        Some(i) => {
            let s = tl.tracks[i].clips;
            lemma_find_clip(s, clip_id);
            match find_clip(s, clip_id) {
                Some(k) => {
                    let r = s.remove(k);
                    assert(sorted_by_start(s));
                    assert forall|a: int, c: int| 0 <= a <= c < r.len() implies r[a].timeline_start
                        <= r[c].timeline_start by {
                        let a2 = if a < k { a } else { a + 1 };
                        let c2 = if c < k { c } else { c + 1 };
                        assert(r[a] == s[a2]);
                        assert(r[c] == s[c2]);
                    }
                    let m = clip_with_bounds(s[k], b);
                    lemma_insert_by_start_sorted(r, m);
                    let t2 = with_track_clips(tl, i, insert_by_start(r, m));
                    assert forall|j: int| 0 <= j < t2.tracks.len() implies sorted_by_start(
                        #[trigger] t2.tracks[j].clips,
                    ) by {
                        if j != i {
                            assert(t2.tracks[j] == tl.tracks[j]);
                        }
                    }
                    lemma_tracks_max_end_bounds(t2.tracks);
                },
                None => {
                    lemma_tracks_max_end_bounds(tl.tracks);
                },
            }
        },
        None => {
            lemma_tracks_max_end_bounds(tl.tracks);
        },
    }
}

impl TrimClipCommand {
    /// Executing the command on `tl` notes where the clip stood there and
    /// changes nothing else in the command.
    pub proof fn lemma_recorded(&self, tl: TimelineView)
        ensures
            self.recorded(tl)@ == (TrimView { position: trim_position(tl, self@.track_id, self@.clip_id), ..self@ }),
    {
    }
}

impl Command for TrimClipCommand {
    open spec fn executed(&self, tl: TimelineView) -> TimelineView {
        clip_trim_applied(tl, self@.track_id, self@.clip_id, self@.new_bounds)
    }

    closed spec fn recorded(&self, tl: TimelineView) -> Self {
        TrimClipCommand { position: trim_position(tl, self@.track_id, self@.clip_id), ..*self }
    }

    open spec fn undone(&self, tl: TimelineView) -> TimelineView {
        match self@.position {
            Some(q) => clip_trim_put_back(tl, self@.track_id, self@.clip_id, self@.old_bounds, q),
            None => clip_trim_applied(tl, self@.track_id, self@.clip_id, self@.old_bounds),
        }
    }

    open spec fn restorable(&self, tl: TimelineView) -> bool {
        trim_restorable(tl, self@.track_id, self@.clip_id, self@.old_bounds)
    }

    open spec fn label_view(&self) -> Seq<char> {
        "Trim Clip"@
    }

    proof fn lemma_recorded_label(&self, tl: TimelineView) {
    }

    proof fn lemma_undo_restores(&self, tl: TimelineView) {
        lemma_trim_then_undo(tl, self@.track_id, self@.clip_id, self@.old_bounds, self@.new_bounds);
    }

    fn execute(&mut self, timeline: &mut Timeline) {
        self.position = apply_trim(timeline, self.track_id, self.clip_id, self.new_bounds);
    }

    fn undo(&mut self, timeline: &mut Timeline) {
        match self.position {
            Some(q) => put_back_trim(timeline, self.track_id, self.clip_id, self.old_bounds, q),
            None => {
                apply_trim(timeline, self.track_id, self.clip_id, self.old_bounds);
            },
        }
    }

    fn label(&self) -> (r: &str) {
        "Trim Clip"
    }
}

} // verus!
