//! Clips kept apart: no two clips of a track overlap by more than the edit
//! tolerance, and every edit that checks for overlap first keeps it so.

use vstd::prelude::*;

use crate::clip::Clip;
use crate::clip_order::{
    find_clip, insert_by_start, lemma_find_clip, lemma_insert_by_start_multiset, lemma_sort_by_start,
    sort_by_start,
};
use crate::commands::move_clip::{clip_move_applied, clip_placed_at};
use crate::commands::trim_clip::{clip_trim_applied, clip_with_bounds, ClipBounds};
use crate::editor::TrimDragState;
use crate::time::{spec_max, spec_sat_add, spec_sat_sub};
use crate::timeline::{find_track, lemma_find_track, with_computed_duration, with_track_clips, TimelineView};
use crate::timeline_edit::{clip_fields_set, clip_with_fields, overlaps, EDIT_TOLERANCE};

verus! {

broadcast use vstd::seq_lib::group_seq_properties, vstd::multiset::group_multiset_axioms;

/// Clips `a` and `b` overlap by more than the edit tolerance (a symmetric
/// relation).
pub open spec fn clips_overlap(a: Clip, b: Clip) -> bool {
    a.timeline_end > b.timeline_start + EDIT_TOLERANCE && a.timeline_start < b.timeline_end
        - EDIT_TOLERANCE
}

/// No two clips of `s` with different ids overlap.
pub open spec fn clips_apart(s: Seq<Clip>) -> bool {
    forall|a: Clip, b: Clip|
        #![trigger s.contains(a), s.contains(b)]
        s.contains(a) && s.contains(b) && a.id != b.id ==> !clips_overlap(a, b)
}

/// No track of `tl` holds two overlapping clips with different ids.
pub open spec fn tracks_apart(tl: TimelineView) -> bool {
    forall|i: int| 0 <= i < tl.tracks.len() ==> clips_apart(#[trigger] tl.tracks[i].clips)
}

/// At most one clip of the first track with id `track_id` has id `clip_id`.
pub open spec fn id_at_most_once(tl: TimelineView, track_id: u128, clip_id: u128) -> bool {
    match find_track(tl.tracks, track_id) {
        Some(i) => forall|j: int, k: int|
            0 <= j < tl.tracks[i].clips.len() && 0 <= k < tl.tracks[i].clips.len() && (
            #[trigger] tl.tracks[i].clips[j]).id == clip_id && (#[trigger] tl.tracks[i].clips[k]).id
                == clip_id ==> j == k,
        None => true,
    }
}

/// The first clip with id `clip_id` on the first track with id `track_id`.
pub open spec fn clip_on(tl: TimelineView, track_id: u128, clip_id: u128) -> Option<Clip> {
    match find_track(tl.tracks, track_id) {
        Some(i) => match find_clip(tl.tracks[i].clips, clip_id) {
            Some(k) => Some(tl.tracks[i].clips[k]),
            None => None,
        },
        None => None,
    }
}

/// The span `[start, start + duration)` overlaps no clip of `s` whose id is
/// not `id`.
pub open spec fn span_clear(s: Seq<Clip>, id: u128, start: int, duration: int) -> bool {
    forall|y: Clip|
        #[trigger] s.contains(y) && y.id != id ==> !(start + duration > y.timeline_start
            + EDIT_TOLERANCE && start < y.timeline_end - EDIT_TOLERANCE)
}

/// Every clip of `t` is `m` or a clip of `s` with another id.
pub open spec fn only_replaced(s: Seq<Clip>, t: Seq<Clip>, m: Clip) -> bool {
    forall|x: Clip| #[trigger] t.contains(x) ==> (x == m || (s.contains(x) && x.id != m.id))
}

proof fn lemma_apart_after_placing(s: Seq<Clip>, t: Seq<Clip>, m: Clip, start: int, duration: int)
    requires
        clips_apart(s),
        span_clear(s, m.id, start, duration),
        start <= m.timeline_start,
        m.timeline_end <= start + duration,
        only_replaced(s, t, m),
    ensures
        clips_apart(t),
{
    assert forall|a: Clip, b: Clip|
        #![trigger t.contains(a), t.contains(b)]
        t.contains(a) && t.contains(b) && a.id != b.id implies !clips_overlap(a, b) by {
        if a == m {
            assert(s.contains(b) && b.id != m.id);
        } else if b == m {
            assert(s.contains(a) && a.id != m.id);
        } else {
            assert(s.contains(a) && s.contains(b));
        }
    }
}

proof fn lemma_update_only_replaced(s: Seq<Clip>, k: int, m: Clip)
    requires
        0 <= k < s.len(),
        m.id == s[k].id,
        forall|j: int| 0 <= j < s.len() && j != k ==> s[j].id != m.id,
    ensures
        only_replaced(s, s.update(k, m), m),
{
    let t = s.update(k, m);
    assert forall|x: Clip| #[trigger] t.contains(x) implies (x == m || (s.contains(x) && x.id != m.id)) by {
        let j = choose|j: int| 0 <= j < t.len() && t[j] == x;
        if j != k {
            assert(s[j] == x);
        }
    }
}

proof fn lemma_reinsert_only_replaced(s: Seq<Clip>, k: int, m: Clip)
    requires
        0 <= k < s.len(),
        m.id == s[k].id,
        forall|j: int| 0 <= j < s.len() && j != k ==> s[j].id != m.id,
    ensures
        only_replaced(s, insert_by_start(s.remove(k), m), m),
{
    let r = s.remove(k);
    let t = insert_by_start(r, m);
    lemma_insert_by_start_multiset(r, m);
    t.to_multiset_ensures();
    r.to_multiset_ensures();
    assert forall|x: Clip| #[trigger] t.contains(x) implies (x == m || (s.contains(x) && x.id != m.id)) by {
        if x != m {
            assert(t.to_multiset().count(x) > 0);
            assert(r.to_multiset().count(x) > 0);
            assert(r.contains(x));
            let j = choose|j: int| 0 <= j < r.len() && r[j] == x;
            if j < k {
                assert(r[j] == s[j]);
            } else {
                assert(r[j] == s[j + 1]);
            }
        }
    }
}

proof fn lemma_sort_same_contents(u: Seq<Clip>)
    ensures
        forall|x: Clip| #[trigger] sort_by_start(u).contains(x) ==> u.contains(x),
{
    lemma_sort_by_start(u);
    let t = sort_by_start(u);
    t.to_multiset_ensures();
    u.to_multiset_ensures();
    assert forall|x: Clip| #[trigger] t.contains(x) implies u.contains(x) by {
        assert(t.to_multiset().count(x) > 0);
    }
}

proof fn lemma_clear_of_track(tl: TimelineView, track_id: u128, clip_id: u128, start: int, duration: int, i: int)
    requires
        find_track(tl.tracks, track_id) == Some(i),
        0 <= i < tl.tracks.len(),
        !overlaps(tl, track_id, clip_id, start, duration),
    ensures
        span_clear(tl.tracks[i].clips, clip_id, start, duration),
{
    let s = tl.tracks[i].clips;
    assert forall|y: Clip| #[trigger] s.contains(y) && y.id != clip_id implies !(start + duration
        > y.timeline_start + EDIT_TOLERANCE && start < y.timeline_end - EDIT_TOLERANCE) by {
        let j = choose|j: int| 0 <= j < s.len() && s[j] == y;
        assert(s[j] == y);
    }
}

proof fn lemma_track_replaced(tl: TimelineView, i: int, t: Seq<Clip>)
    requires
        tracks_apart(tl),
        0 <= i < tl.tracks.len(),
        clips_apart(t),
    ensures
        tracks_apart(with_computed_duration(with_track_clips(tl, i, t))),
{
    let t2 = with_computed_duration(with_track_clips(tl, i, t));
    assert forall|j: int| 0 <= j < t2.tracks.len() implies clips_apart(#[trigger] t2.tracks[j].clips) by {
        if j != i {
            assert(t2.tracks[j] == tl.tracks[j]);
        }
    }
}

/// Replacing clip `k` of track `i` by `m`, within a clear span, keeps the
/// timeline apart; `t` is the new clip sequence of the track.
proof fn lemma_place_on_track(
    tl: TimelineView,
    track_id: u128,
    clip_id: u128,
    i: int,
    k: int,
    m: Clip,
    t: Seq<Clip>,
    start: int,
    duration: int,
)
    requires
        tracks_apart(tl),
        id_at_most_once(tl, track_id, clip_id),
        find_track(tl.tracks, track_id) == Some(i),
        find_clip(tl.tracks[i].clips, clip_id) == Some(k),
        m.id == clip_id,
        !overlaps(tl, track_id, clip_id, start, duration),
        start <= m.timeline_start,
        m.timeline_end <= start + duration,
        only_replaced(tl.tracks[i].clips, t, m),
    ensures
        tracks_apart(with_computed_duration(with_track_clips(tl, i, t))),
{
    lemma_find_track(tl.tracks, track_id);
    lemma_clear_of_track(tl, track_id, clip_id, start, duration, i);
    lemma_apart_after_placing(tl.tracks[i].clips, t, m, start, duration);
    lemma_track_replaced(tl, i, t);
}

/// The clip `k` of the track `i` is the only one with its id there.
proof fn lemma_only_one(tl: TimelineView, track_id: u128, clip_id: u128, i: int, k: int)
    requires
        id_at_most_once(tl, track_id, clip_id),
        find_track(tl.tracks, track_id) == Some(i),
        0 <= i < tl.tracks.len(),
        0 <= k < tl.tracks[i].clips.len(),
        tl.tracks[i].clips[k].id == clip_id,
    ensures
        forall|j: int|
            0 <= j < tl.tracks[i].clips.len() && j != k ==> tl.tracks[i].clips[j].id != clip_id,
{
    assert forall|j: int| 0 <= j < tl.tracks[i].clips.len() && j != k implies tl.tracks[i].clips[j].id
        != clip_id by {
        if tl.tracks[i].clips[j].id == clip_id {
            assert(tl.tracks[i].clips[k].id == clip_id);
        }
    }
}

/// Law: dragging a clip body to a start at or after 0 keeps the tracks
/// free of overlaps whenever the new span overlaps no other clip of the
/// track (what the drag checks) and the clip's id occurs once there.
pub proof fn lemma_body_drag_keeps_apart(tl: TimelineView, track_id: u128, clip_id: u128, start: i64, duration: i64)
    requires
        tracks_apart(tl),
        id_at_most_once(tl, track_id, clip_id),
        start >= 0,
        !overlaps(tl, track_id, clip_id, start as int, duration as int),
    ensures
        tracks_apart(
            clip_fields_set(
                tl,
                track_id,
                clip_id,
                Some(start),
                Some(spec_sat_add(start as int, duration as int) as i64),
                None,
                None,
            ),
        ),
{
    lemma_find_track(tl.tracks, track_id);
    let te = Some(spec_sat_add(start as int, duration as int) as i64);
    match find_track(tl.tracks, track_id) {
        Some(i) => {
            let s = tl.tracks[i].clips;
            lemma_find_clip(s, clip_id);
            match find_clip(s, clip_id) {
                Some(k) => {
                    let m = clip_with_fields(s[k], Some(start), te, None, None);
                    lemma_only_one(tl, track_id, clip_id, i, k);
                    lemma_update_only_replaced(s, k, m);
                    lemma_place_on_track(tl, track_id, clip_id, i, k, m, s.update(k, m), start as int, duration as int);
                },
                None => {
                    assert(with_computed_duration(tl).tracks == tl.tracks);
                },
            }
        },
        None => {
            assert(with_computed_duration(tl).tracks == tl.tracks);
        },
    }
}

/// Law: dragging the left trim handle keeps the tracks free of overlaps
/// whenever the trimmed span of trim state `t` overlaps no other clip of
/// the track (what the drag checks), the clip ends where `t` says, its id
/// occurs once there, and the span's length fits in `i64`.
pub proof fn lemma_left_trim_drag_keeps_apart(tl: TimelineView, track_id: u128, clip_id: u128, t: TrimDragState)
    requires
        tracks_apart(tl),
        id_at_most_once(tl, track_id, clip_id),
        t.cur_timeline_end - t.cur_timeline_start <= i64::MAX,
        !overlaps(
            tl,
            track_id,
            clip_id,
            t.cur_timeline_start as int,
            spec_sat_sub(t.cur_timeline_end as int, t.cur_timeline_start as int),
        ),
        match clip_on(tl, track_id, clip_id) {
            Some(c) => c.timeline_end == t.cur_timeline_end,
            None => true,
        },
    ensures
        tracks_apart(
            clip_fields_set(
                tl,
                track_id,
                clip_id,
                Some(t.cur_timeline_start),
                None,
                Some(t.cur_source_start),
                None,
            ),
        ),
{
    lemma_find_track(tl.tracks, track_id);
    let d = spec_sat_sub(t.cur_timeline_end as int, t.cur_timeline_start as int);
    match find_track(tl.tracks, track_id) {
        Some(i) => {
            let s = tl.tracks[i].clips;
            lemma_find_clip(s, clip_id);
            match find_clip(s, clip_id) {
                Some(k) => {
                    let m = clip_with_fields(s[k], Some(t.cur_timeline_start), None, Some(t.cur_source_start), None);
                    lemma_only_one(tl, track_id, clip_id, i, k);
                    lemma_update_only_replaced(s, k, m);
                    lemma_place_on_track(tl, track_id, clip_id, i, k, m, s.update(k, m), t.cur_timeline_start as int, d);
                },
                None => {
                    assert(with_computed_duration(tl).tracks == tl.tracks);
                },
            }
        },
        None => {
            assert(with_computed_duration(tl).tracks == tl.tracks);
        },
    }
}

/// Law: dragging the right trim handle keeps the tracks free of overlaps
/// whenever the trimmed span of trim state `t` overlaps no other clip of
/// the track (what the drag checks), the clip starts where `t` says, its
/// id occurs once there, and the span's length fits in `i64`.
pub proof fn lemma_right_trim_drag_keeps_apart(tl: TimelineView, track_id: u128, clip_id: u128, t: TrimDragState)
    requires
        tracks_apart(tl),
        id_at_most_once(tl, track_id, clip_id),
        t.cur_timeline_end - t.cur_timeline_start <= i64::MAX,
        !overlaps(
            tl,
            track_id,
            clip_id,
            t.cur_timeline_start as int,
            spec_sat_sub(t.cur_timeline_end as int, t.cur_timeline_start as int),
        ),
        match clip_on(tl, track_id, clip_id) {
            Some(c) => c.timeline_start == t.cur_timeline_start,
            None => true,
        },
    ensures
        tracks_apart(
            clip_fields_set(
                tl,
                track_id,
                clip_id,
                None,
                Some(t.cur_timeline_end),
                None,
                Some(t.cur_source_end),
            ),
        ),
{
    lemma_find_track(tl.tracks, track_id);
    let d = spec_sat_sub(t.cur_timeline_end as int, t.cur_timeline_start as int);
    match find_track(tl.tracks, track_id) {
        Some(i) => {
            let s = tl.tracks[i].clips;
            lemma_find_clip(s, clip_id);
            match find_clip(s, clip_id) {
                Some(k) => {
                    let m = clip_with_fields(s[k], None, Some(t.cur_timeline_end), None, Some(t.cur_source_end));
                    lemma_only_one(tl, track_id, clip_id, i, k);
                    lemma_update_only_replaced(s, k, m);
                    lemma_place_on_track(tl, track_id, clip_id, i, k, m, s.update(k, m), t.cur_timeline_start as int, d);
                },
                None => {
                    assert(with_computed_duration(tl).tracks == tl.tracks);
                },
            }
        },
        None => {
            assert(with_computed_duration(tl).tracks == tl.tracks);
        },
    }
}

/// Law: moving a clip keeps the tracks free of overlaps whenever the span
/// it moves to (its start kept at or after 0) overlaps no other clip of the
/// track and its id occurs once there.
pub proof fn lemma_move_keeps_apart(tl: TimelineView, track_id: u128, clip_id: u128, new_start: i64, duration: i64)
    requires
        tracks_apart(tl),
        id_at_most_once(tl, track_id, clip_id),
        !overlaps(tl, track_id, clip_id, spec_max(new_start as int, 0), duration as int),
    ensures
        tracks_apart(clip_move_applied(tl, track_id, clip_id, new_start, duration)),
{
    lemma_find_track(tl.tracks, track_id);
    match find_track(tl.tracks, track_id) {
        Some(i) => {
            let s = tl.tracks[i].clips;
            lemma_find_clip(s, clip_id);
            match find_clip(s, clip_id) {
                Some(k) => {
                    let m = clip_placed_at(s[k], new_start, duration);
                    let u = s.update(k, m);
                    lemma_only_one(tl, track_id, clip_id, i, k);
                    lemma_update_only_replaced(s, k, m);
                    lemma_sort_same_contents(u);
                    lemma_place_on_track(
                        tl,
                        track_id,
                        clip_id,
                        i,
                        k,
                        m,
                        sort_by_start(u),
                        spec_max(new_start as int, 0),
                        duration as int,
                    );
                },
                None => {
                    lemma_sort_same_contents(s);
                    lemma_track_replaced(tl, i, sort_by_start(s));
                },
            }
        },
        None => {
            assert(with_computed_duration(tl).tracks == tl.tracks);
        },
    }
}

/// Law: trimming a clip to bounds `b` keeps the tracks free of overlaps
/// whenever the new span overlaps no other clip of the track, the clip's id
/// occurs once there, and the span's length fits in `i64`.
pub proof fn lemma_trim_keeps_apart(tl: TimelineView, track_id: u128, clip_id: u128, b: ClipBounds)
    requires
        tracks_apart(tl),
        id_at_most_once(tl, track_id, clip_id),
        b.timeline_end - b.timeline_start <= i64::MAX,
        !overlaps(
            tl,
            track_id,
            clip_id,
            b.timeline_start as int,
            spec_sat_sub(b.timeline_end as int, b.timeline_start as int),
        ),
    ensures
        tracks_apart(clip_trim_applied(tl, track_id, clip_id, b)),
{
    lemma_find_track(tl.tracks, track_id);
    match find_track(tl.tracks, track_id) {
        Some(i) => {
            let s = tl.tracks[i].clips;
            lemma_find_clip(s, clip_id);
            match find_clip(s, clip_id) {
                Some(k) => {
                    let m = clip_with_bounds(s[k], b);
                    lemma_only_one(tl, track_id, clip_id, i, k);
                    lemma_reinsert_only_replaced(s, k, m);
                    lemma_place_on_track(
                        tl,
                        track_id,
                        clip_id,
                        i,
                        k,
                        m,
                        insert_by_start(s.remove(k), m),
                        b.timeline_start as int,
                        spec_sat_sub(b.timeline_end as int, b.timeline_start as int),
                    );
                },
                None => {
                    assert(with_computed_duration(tl).tracks == tl.tracks);
                },
            }
        },
        None => {
            assert(with_computed_duration(tl).tracks == tl.tracks);
        },
    }
}

} // verus!
