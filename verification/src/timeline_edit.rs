//! Interactive timeline editing: snapping to frames, overlap detection, and
//! the live updates made while a clip body or a trim handle is dragged.

use vstd::prelude::*;
use vstd::arithmetic::div_mod::{
    lemma_div_multiples_vanish, lemma_fundamental_div_mod, lemma_mod_multiples_basic,
};

use crate::clip::Clip;
use crate::clip_order::{find_clip, lemma_find_clip, position_of_clip};
use crate::commands::edit::EditCommand;
use crate::commands::trim_clip::{ClipBounds, TrimClipCommand};
use crate::commands::move_clip::MoveClipCommand;
use crate::commands::{history_pushed, Command};
use crate::editor::{app_wf, project_view, same_jobs, TrimDragState, TrimEdge, DragState, VidCutApp};
use crate::project::{Project, ProjectView};
use crate::time::{sat_add, sat_sub, spec_max, spec_min, spec_sat_add, spec_sat_sub};
use crate::timeline::{
    find_track, lemma_find_track, with_computed_duration, with_track_clips, Timeline, TimelineView,
};
use crate::transport::clamp_i64;

verus! {

/// Shortest clip a trim leaves: 0.05 s.
pub const MIN_CLIP_DURATION: i64 = 35_280_000;

/// Tolerance of overlap checks and of drag commits: 0.001 s.
pub const EDIT_TOLERANCE: i64 = 705_600;

/// `t / d` rounded to the nearest integer, halves away from zero (`d > 0`).
pub open spec fn round_div(t: int, d: int) -> int
    decreases (if t >= 0 { 0int } else { 1int }),
{
    if d <= 0 {
        0
    } else if t >= 0 {
        if 2 * (t % d) >= d {
            t / d + 1
        } else {
            t / d
        }
    } else {
        -round_div(-t, d)
    }
}

/// `t` snapped to the nearest multiple of the frame duration `frame_dur`
/// (halves away from zero, clamped to `i64`); `t` itself when `frame_dur <= 0`.
pub open spec fn snapped(t: int, frame_dur: int) -> int {
    if frame_dur <= 0 {
        t
    } else {
        clamp_i64(round_div(t, frame_dur) * frame_dur)
    }
}

/// Rounding `t >= 0` to multiples of `d` lands on a multiple at most half
/// of `d` away.
proof fn lemma_round_div_nonneg(t: int, d: int)
    requires
        t >= 0,
        d > 0,
    ensures
        round_div(t, d) >= 0,
        2 * (round_div(t, d) * d - t) <= d,
        2 * (t - round_div(t, d) * d) <= d,
{
    lemma_fundamental_div_mod(t, d);
    let q = t / d;
    let r = t % d;
    assert(0 <= r < d);
    assert(q >= 0) by (nonlinear_arith)
        requires
            t >= 0,
            d > 0,
            t == d * q + r,
            r < d,
    ;
    if 2 * r >= d {
        assert((q + 1) * d - t == d - r) by (nonlinear_arith)
            requires
                t == d * q + r,
        ;
    } else {
        assert(q * d - t == -r) by (nonlinear_arith)
            requires
                t == d * q + r,
        ;
    }
}

/// Law: snapping to frames of `frame_dur > 0` ticks lands on a whole number
/// of frames at most half a frame from `t` (when that stays within `i64`);
/// without a frame duration nothing is snapped.
pub proof fn lemma_snap_is_nearest_frame(t: int, frame_dur: int)
    requires
        i64::MIN + frame_dur <= t <= i64::MAX - frame_dur,
    ensures
        frame_dur <= 0 ==> snapped(t, frame_dur) == t,
        frame_dur > 0 ==> snapped(t, frame_dur) % frame_dur == 0,
        frame_dur > 0 ==> 2 * (snapped(t, frame_dur) - t) <= frame_dur,
        frame_dur > 0 ==> 2 * (t - snapped(t, frame_dur)) <= frame_dur,
{
    if frame_dur > 0 {
        let k = round_div(t, frame_dur);
        if t >= 0 {
            lemma_round_div_nonneg(t, frame_dur);
        } else {
            lemma_round_div_nonneg(-t, frame_dur);
            assert(k == -round_div(-t, frame_dur));
            assert(k * frame_dur == -(round_div(-t, frame_dur) * frame_dur)) by (nonlinear_arith)
                requires
                    k == -round_div(-t, frame_dur),
            ;
        }
        assert(clamp_i64(k * frame_dur) == k * frame_dur);
        lemma_mod_multiples_basic(k, frame_dur);
    }
}

/// Snap a time value to the nearest frame boundary.
pub fn snap_to_frame(t: i64, frame_dur: i64) -> (r: i64)
    ensures
        r == snapped(t as int, frame_dur as int),
{
    if frame_dur <= 0 {
        return t;
    }
    let a: i128 = if t >= 0 {
        t as i128
    } else {
        -(t as i128)
    };
    let d = frame_dur as i128;
    let q = a / d;
    let rem = a % d;
    let rq: i128 = if 2 * rem >= d {
        q + 1
    } else {
        q
    };
    let signed: i128 = if t >= 0 {
        rq
    } else {
        -rq
    };
    assert(-0x8000_0000_0000_0001i128 <= signed <= 0x8000_0000_0000_0001i128) by (nonlinear_arith)
        requires
            0 <= a <= 0x8000_0000_0000_0000i128,
            d >= 1,
            q == a / d,
            rq == q || rq == q + 1,
            signed == rq || signed == -rq,
    {
        assert(q <= a);
    }
    assert(-0x8000_0000_0000_0001i128 * 0x8000_0000_0000_0000i128 <= signed * d
        <= 0x8000_0000_0000_0001i128 * 0x8000_0000_0000_0000i128) by (nonlinear_arith)
        requires
            -0x8000_0000_0000_0001i128 <= signed <= 0x8000_0000_0000_0001i128,
            1 <= d <= 0x8000_0000_0000_0000i128,
    {
    }
    let prod = signed * d;
    proof {
        reveal_with_fuel(round_div, 2);
        assert(round_div(a as int, frame_dur as int) == rq);
        assert(round_div(t as int, frame_dur as int) == signed);
    }
    if prod > i64::MAX as i128 {
        i64::MAX
    } else if prod < i64::MIN as i128 {
        i64::MIN
    } else {
        prod as i64
    }
}

/// Placing a clip over `[start, start + duration)` on the first track with
/// id `track_id` overlaps, beyond the tolerance, a clip other than `clip_id`.
pub open spec fn overlaps(
    tl: TimelineView,
    track_id: u128,
    clip_id: u128,
    start: int,
    duration: int,
) -> bool {
    match find_track(tl.tracks, track_id) {
        Some(i) => exists|j: int|
            0 <= j < tl.tracks[i].clips.len() && (#[trigger] tl.tracks[i].clips[j]).id != clip_id
                && start + duration > tl.tracks[i].clips[j].timeline_start + EDIT_TOLERANCE
                && start < tl.tracks[i].clips[j].timeline_end - EDIT_TOLERANCE,
        None => false,
    }
}

/// Check if placing a clip at `start` with `duration` on `track_id` would
/// overlap any other clip (excluding `clip_id` itself).
pub fn would_overlap(
    project: &Project,
    track_id: u128,
    clip_id: u128,
    start: i64,
    duration: i64,
) -> (r: bool)
    ensures
        r == overlaps(project.timeline@, track_id, clip_id, start as int, duration as int),
{
    let ghost tl = project.timeline@;
    proof {
        lemma_find_track(tl.tracks, track_id);
    }
    match project.timeline.position_of_track(track_id) {
        Some(i) => {
            let clips = &project.timeline.tracks[i].clips;
            let end = (start as i128) + (duration as i128);
            let n = clips.len();
            let mut j: usize = 0;
            while j < n
                invariant
                    n == clips@.len(),
                    tl == project.timeline@,
                    find_track(tl.tracks, track_id) == Some(i as int),
                    i < tl.tracks.len(),
                    clips@ == tl.tracks[i as int].clips,
                    0 <= j <= n,
                    end == start + duration,
                    forall|m: int|
                        0 <= m < j ==> !((#[trigger] clips@[m]).id != clip_id && end
                            > clips@[m].timeline_start + EDIT_TOLERANCE && start
                            < clips@[m].timeline_end - EDIT_TOLERANCE),
                decreases n - j,
            {
                let other = &clips[j];
                if other.id != clip_id && end > (other.timeline_start as i128) + (EDIT_TOLERANCE as i128)
                    && (start as i128) < (other.timeline_end as i128) - (EDIT_TOLERANCE as i128) {
                    proof {
                        let jj = j as int;
                        let c = tl.tracks[i as int].clips[jj];
                        assert(c == clips@[jj]);
                        assert(0 <= jj < tl.tracks[i as int].clips.len() && c.id != clip_id
                            && start + duration > c.timeline_start + EDIT_TOLERANCE && start
                            < c.timeline_end - EDIT_TOLERANCE);
                        assert(overlaps(tl, track_id, clip_id, start as int, duration as int));
                    }
                    return true;
                }
                j = j + 1;
            }
            false
        },
        None => false,
    }
}

/// `c` with the fields given as `Some` replaced.
pub open spec fn clip_with_fields(
    c: Clip,
    ts: Option<i64>,
    te: Option<i64>,
    ss: Option<i64>,
    se: Option<i64>,
) -> Clip {
    Clip {
        timeline_start: match ts {
            Some(v) => v,
            None => c.timeline_start,
        },
        timeline_end: match te {
            Some(v) => v,
            None => c.timeline_end,
        },
        source_start: match ss {
            Some(v) => v,
            None => c.source_start,
        },
        source_end: match se {
            Some(v) => v,
            None => c.source_end,
        },
        ..c
    }
}

/// `tl` with the given fields of the first clip with id `clip_id` on the
/// first track with id `track_id` replaced (no re-sorting), and its duration
/// recomputed.
pub open spec fn clip_fields_set(
    tl: TimelineView,
    track_id: u128,
    clip_id: u128,
    ts: Option<i64>,
    te: Option<i64>,
    ss: Option<i64>,
    se: Option<i64>,
) -> TimelineView {
    with_computed_duration(
        match find_track(tl.tracks, track_id) {
            Some(i) => {
                let s = tl.tracks[i].clips;
                match find_clip(s, clip_id) {
                    Some(k) => with_track_clips(tl, i, s.update(k, clip_with_fields(s[k], ts, te, ss, se))),
                    None => tl,
                }
            },
            None => tl,
        },
    )
}

/// Law: the live updates of a drag touch only the dragged clip, in place,
/// and only the fields that drag moves: a body drag its start and end, a
/// left trim its start and source start, a right trim its end and source
/// end.  Its id, asset, track and other points stay, as do all other clips
/// and tracks.
pub proof fn lemma_live_drags_touch_only_their_fields(tl: TimelineView, track_id: u128, clip_id: u128, a: i64, b: i64)
    ensures
        ({
            let body = clip_fields_set(tl, track_id, clip_id, Some(a), Some(b), None, None);
            let left = clip_fields_set(tl, track_id, clip_id, Some(a), None, Some(b), None);
            let right = clip_fields_set(tl, track_id, clip_id, None, Some(a), None, Some(b));
            match find_track(tl.tracks, track_id) {
                Some(i) => {
                    let s = tl.tracks[i].clips;
                    &&& body.tracks.len() == tl.tracks.len() && left.tracks.len() == tl.tracks.len()
                        && right.tracks.len() == tl.tracks.len()
                    &&& forall|j: int|
                        0 <= j < tl.tracks.len() && j != i ==> body.tracks[j] == tl.tracks[j]
                            && left.tracks[j] == tl.tracks[j] && right.tracks[j] == tl.tracks[j]
                    &&& match find_clip(s, clip_id) {
                        Some(k) => {
                            &&& body.tracks[i].clips == s.update(k, Clip { timeline_start: a, timeline_end: b, ..s[k] })
                            &&& left.tracks[i].clips == s.update(k, Clip { timeline_start: a, source_start: b, ..s[k] })
                            &&& right.tracks[i].clips == s.update(k, Clip { timeline_end: a, source_end: b, ..s[k] })
                        },
                        None => body.tracks == tl.tracks && left.tracks == tl.tracks && right.tracks == tl.tracks,
                    }
                },
                None => body.tracks == tl.tracks && left.tracks == tl.tracks && right.tracks == tl.tracks,
            }
        }),
{
    lemma_find_track(tl.tracks, track_id);
    match find_track(tl.tracks, track_id) {
        Some(i) => {
            lemma_find_clip(tl.tracks[i].clips, clip_id);
        },
        None => {},
    }
}

/// Sets the given fields of a clip, as [`clip_fields_set`] says.
pub fn set_clip_fields(
    timeline: &mut Timeline,
    track_id: u128,
    clip_id: u128,
    ts: Option<i64>,
    te: Option<i64>,
    ss: Option<i64>,
    se: Option<i64>,
)
    ensures
        final(timeline)@ == clip_fields_set(old(timeline)@, track_id, clip_id, ts, te, ss, se),
{
    let ghost old_tl = timeline@;
    proof {
        lemma_find_track(old_tl.tracks, track_id);
    }
    match timeline.position_of_track(track_id) {
        Some(i) => {
            let track = &mut timeline.tracks[i];
            let ghost s = track.clips@;
            proof {
                lemma_find_clip(s, clip_id);
            }
            match position_of_clip(&track.clips, clip_id) {
                Some(k) => {
                    let clip = &mut track.clips[k];
                    match ts {
                        Some(v) => clip.timeline_start = v,
                        None => {},
                    }
                    match te {
                        Some(v) => clip.timeline_end = v,
                        None => {},
                    }
                    match ss {
                        Some(v) => clip.source_start = v,
                        None => {},
                    }
                    match se {
                        Some(v) => clip.source_end = v,
                        None => {},
                    }
                    proof {
                        let s2 = s.update(k as int, clip_with_fields(s[k as int], ts, te, ss, se));
                        assert(track.clips@ =~= s2);
                        assert(timeline@.tracks =~= with_track_clips(old_tl, i as int, s2).tracks);
                    }
                },
                None => {
                    proof {
                        assert(timeline@.tracks =~= old_tl.tracks);
                    }
                },
            }
        },
        None => {},
    }
    timeline.recompute_duration();
}

/// The start a body drag by `delta` proposes for drag state `d`: the
/// current start moved by `delta`, kept at or after 0, snapped to a frame.
pub open spec fn proposed_start(d: DragState, delta: i64, frame_dur: i64) -> int {
    snapped(spec_max(spec_sat_add(d.current_start as int, delta as int), 0), frame_dur as int)
}

/// Law: a body drag proposes a start never before 0; without snapping it
/// is the current start moved by `delta` whenever that is not before 0.
pub proof fn lemma_body_drag_start(d: DragState, delta: i64, frame_dur: i64)
    requires
        i64::MIN <= d.current_start + delta <= i64::MAX,
    ensures
        proposed_start(d, delta, frame_dur) >= 0,
        frame_dur <= 0 && d.current_start + delta >= 0 ==> proposed_start(d, delta, frame_dur)
            == d.current_start + delta,
{
    let raw = spec_max(spec_sat_add(d.current_start as int, delta as int), 0);
    if frame_dur > 0 {
        lemma_round_div_nonneg(raw, frame_dur as int);
        assert(round_div(raw, frame_dur as int) * frame_dur >= 0) by (nonlinear_arith)
            requires
                round_div(raw, frame_dur as int) >= 0,
                frame_dur > 0,
        ;
    }
}

/// The trim state after dragging the left edge by `delta`: the start moves
/// (kept at or after 0 and at least the minimum clip length before the
/// end), snapped to a frame, and the source start follows by the same
/// amount from its original value, kept at or after 0.
pub open spec fn left_trimmed(td: TrimDragState, delta: i64, frame_dur: i64) -> TrimDragState {
    let raw = spec_min(
        spec_max(spec_sat_add(td.cur_timeline_start as int, delta as int), 0),
        spec_sat_sub(td.cur_timeline_end as int, MIN_CLIP_DURATION as int),
    );
    let new_start = snapped(raw, frame_dur as int);
    let amount = spec_sat_sub(new_start, td.orig_timeline_start as int);
    TrimDragState {
        cur_timeline_start: new_start as i64,
        cur_source_start: spec_max(spec_sat_add(td.orig_source_start as int, amount), 0) as i64,
        ..td
    }
}

/// The trim state after dragging the right edge by `delta`: the end moves
/// (kept at least the minimum clip length after the start), snapped to a
/// frame, and the source end follows by the same amount from its original
/// value, kept at least the minimum clip length after the source start.
pub open spec fn right_trimmed(td: TrimDragState, delta: i64, frame_dur: i64) -> TrimDragState {
    let raw = spec_max(
        spec_sat_add(td.cur_timeline_end as int, delta as int),
        spec_sat_add(td.cur_timeline_start as int, MIN_CLIP_DURATION as int),
    );
    let new_end = snapped(raw, frame_dur as int);
    let amount = spec_sat_sub(new_end, td.orig_timeline_end as int);
    TrimDragState {
        cur_timeline_end: new_end as i64,
        cur_source_end: spec_max(
            spec_sat_add(td.orig_source_end as int, amount),
            spec_sat_add(td.cur_source_start as int, MIN_CLIP_DURATION as int),
        ) as i64,
        ..td
    }
}

/// Law: without snapping, a left trim drag moves the start by `delta`,
/// except that it never goes before 0 nor leaves the clip shorter than the
/// minimum clip length (the length wins when both bind).
pub proof fn lemma_left_trim_start_follows_drag(td: TrimDragState, delta: i64, frame_dur: i64)
    requires
        frame_dur <= 0,
        i64::MIN <= td.cur_timeline_start + delta <= i64::MAX,
        i64::MIN <= td.cur_timeline_end - MIN_CLIP_DURATION,
    ensures
        ({
            let st = left_trimmed(td, delta, frame_dur).cur_timeline_start;
            &&& st <= td.cur_timeline_end - MIN_CLIP_DURATION
            &&& td.cur_timeline_end - MIN_CLIP_DURATION >= 0 ==> st >= 0
            &&& 0 <= td.cur_timeline_start + delta <= td.cur_timeline_end - MIN_CLIP_DURATION ==> st
                == td.cur_timeline_start + delta
        }),
{
}

/// Law: without snapping, a right trim drag moves the end by `delta`,
/// except that it never leaves the clip shorter than the minimum clip
/// length.
pub proof fn lemma_right_trim_end_follows_drag(td: TrimDragState, delta: i64, frame_dur: i64)
    requires
        frame_dur <= 0,
        i64::MIN <= td.cur_timeline_end + delta <= i64::MAX,
        td.cur_timeline_start + MIN_CLIP_DURATION <= i64::MAX,
    ensures
        ({
            let en = right_trimmed(td, delta, frame_dur).cur_timeline_end;
            &&& en >= td.cur_timeline_start + MIN_CLIP_DURATION
            &&& td.cur_timeline_end + delta >= td.cur_timeline_start + MIN_CLIP_DURATION ==> en
                == td.cur_timeline_end + delta
        }),
{
}

/// Law: a left trim drag moves only the start and the source start, and
/// the source start follows the total distance the start has moved from
/// where the trim began (never below 0), however the drag was split into
/// steps; the start stays at or before the minimum clip length ahead of the
/// end, up to snapping.
pub proof fn lemma_left_trim_source_follows(td: TrimDragState, delta: i64, frame_dur: i64)
    requires
        i64::MIN <= left_trimmed(td, delta, frame_dur).cur_timeline_start - td.orig_timeline_start
            <= i64::MAX,
        i64::MIN <= td.orig_source_start + (left_trimmed(td, delta, frame_dur).cur_timeline_start
            - td.orig_timeline_start) <= i64::MAX,
    ensures
        ({
            let t2 = left_trimmed(td, delta, frame_dur);
            &&& t2.cur_source_start == if td.orig_source_start + (t2.cur_timeline_start
                - td.orig_timeline_start) >= 0 {
                td.orig_source_start + (t2.cur_timeline_start - td.orig_timeline_start)
            } else {
                0
            }
            &&& t2 == (TrimDragState {
                cur_timeline_start: t2.cur_timeline_start,
                cur_source_start: t2.cur_source_start,
                ..td
            })
        }),
{
}

/// Law: a right trim drag moves only the end and the source end, and the
/// source end follows the total distance the end has moved from where the
/// trim began, however the drag was split into steps, but stays at least
/// the minimum clip length after the source start.
pub proof fn lemma_right_trim_source_follows(td: TrimDragState, delta: i64, frame_dur: i64)
    requires
        i64::MIN <= right_trimmed(td, delta, frame_dur).cur_timeline_end - td.orig_timeline_end
            <= i64::MAX,
        i64::MIN <= td.orig_source_end + (right_trimmed(td, delta, frame_dur).cur_timeline_end
            - td.orig_timeline_end) <= i64::MAX,
        td.cur_source_start + MIN_CLIP_DURATION <= i64::MAX,
    ensures
        ({
            let t2 = right_trimmed(td, delta, frame_dur);
            let follow = td.orig_source_end + (t2.cur_timeline_end - td.orig_timeline_end);
            &&& t2.cur_source_end == if follow >= td.cur_source_start + MIN_CLIP_DURATION {
                follow
            } else {
                td.cur_source_start + MIN_CLIP_DURATION
            }
            &&& t2 == (TrimDragState {
                cur_timeline_end: t2.cur_timeline_end,
                cur_source_end: t2.cur_source_end,
                ..td
            })
        }),
{
}

/// Whether trimming `clip_id` to the span of trim state `t` keeps it off the
/// other clips of its track (always so without a project).
pub open spec fn trim_allowed(project: Option<Project>, track_id: u128, clip_id: u128, t: TrimDragState) -> bool {
    match project {
        Some(p) => !overlaps(
            p@.timeline,
            track_id,
            clip_id,
            t.cur_timeline_start as int,
            spec_sat_sub(t.cur_timeline_end as int, t.cur_timeline_start as int),
        ),
        None => true,
    }
}

/// `|a - b|` exceeds the edit tolerance.
pub open spec fn moved_beyond_tolerance(a: int, b: int) -> bool {
    a - b > EDIT_TOLERANCE || b - a > EDIT_TOLERANCE
}

fn beyond_tolerance(a: i64, b: i64) -> (r: bool)
    ensures
        r == moved_beyond_tolerance(a as int, b as int),
{
    let d = (a as i128) - (b as i128);
    d > EDIT_TOLERANCE as i128 || -d > EDIT_TOLERANCE as i128
}

impl VidCutApp {
    fn trim_fits(&self, clip_id: u128, t: &TrimDragState) -> (r: bool)
        ensures
            r == trim_allowed(self.project, t.track_id, clip_id, *t),
    {
        match &self.project {
            Some(p) => !would_overlap(
                p,
                t.track_id,
                clip_id,
                t.cur_timeline_start,
                sat_sub(t.cur_timeline_end, t.cur_timeline_start),
            ),
            None => true,
        }
    }

    /// The clip body being dragged moved by `delta` ticks: when the drag is
    /// of `clip_id`, its start moves to the proposed (non-negative, snapped)
    /// start unless that would overlap another clip of `track_id`, and the
    /// clip on the timeline follows live (not re-sorted, not recorded).
    pub fn drag_clip_body_by(&mut self, clip_id: u128, track_id: u128, delta: i64, frame_dur: i64)
        ensures
            same_jobs(*final(self), *old(self)),
            match old(self).dragging {
                Some(d) => if d.clip_id == clip_id {
                    let s = proposed_start(d, delta, frame_dur);
                    let allowed = match project_view(old(self).project) {
                        Some(p) => !overlaps(p.timeline, track_id, clip_id, s, d.duration as int),
                        None => true,
                    };
                    if allowed {
                        &&& final(self).dragging == Some(DragState { current_start: s as i64, ..d })
                        &&& project_view(final(self).project) == match project_view(old(self).project) {
                            Some(p) => Some(
                                ProjectView {
                                    timeline: clip_fields_set(
                                        p.timeline,
                                        d.track_id,
                                        clip_id,
                                        Some(s as i64),
                                        Some(spec_sat_add(s, d.duration as int) as i64),
                                        None,
                                        None,
                                    ),
                                    ..p
                                },
                            ),
                            None => None,
                        }
                    } else {
                        final(self).dragging == old(self).dragging && final(self).project == old(self).project
                    }
                } else {
                    final(self).dragging == old(self).dragging && final(self).project == old(self).project
                },
                None => final(self).dragging == old(self).dragging && final(self).project == old(self).project,
            },
            final(self).history == old(self).history,
            final(self).trim_dragging == old(self).trim_dragging,
            final(self).selected_clip_id == old(self).selected_clip_id,
            same_playback(*final(self), *old(self)),
    {
        let d = match self.dragging {
            Some(d) => d,
            None => return,
        };
        if d.clip_id != clip_id {
            return;
        }
        let moved = sat_add(d.current_start, delta);
        let raw = if moved >= 0 {
            moved
        } else {
            0
        };
        let s = snap_to_frame(raw, frame_dur);
        let allowed = match &self.project {
            Some(p) => !would_overlap(p, track_id, clip_id, s, d.duration),
            None => true,
        };
        if allowed {
            self.dragging = Some(DragState { current_start: s, ..d });
            match &mut self.project {
                Some(p) => {
                    let end = sat_add(s, d.duration);
                    set_clip_fields(&mut p.timeline, d.track_id, clip_id, Some(s), Some(end), None, None);
                },
                None => {},
            }
        }
    }

    /// The left trim handle of `clip_id` dragged by `delta` ticks: the trim
    /// state moves as [`left_trimmed`] says and the clip's start and source
    /// start follow live (not recorded) — unless the trimmed clip would then
    /// overlap another clip of its track, when nothing changes.
    pub fn drag_trim_left_by(&mut self, clip_id: u128, delta: i64, frame_dur: i64)
        ensures
            same_jobs(*final(self), *old(self)),
            match old(self).trim_dragging {
                Some(td) => if td.clip_id == clip_id && td.edge == TrimEdge::Left {
                    let t2 = left_trimmed(td, delta, frame_dur);
                    if trim_allowed(old(self).project, td.track_id, clip_id, t2) {
                        &&& final(self).trim_dragging == Some(t2)
                        &&& project_view(final(self).project) == match project_view(old(self).project) {
                            Some(p) => Some(
                                ProjectView {
                                    timeline: clip_fields_set(
                                        p.timeline,
                                        td.track_id,
                                        clip_id,
                                        Some(t2.cur_timeline_start),
                                        None,
                                        Some(t2.cur_source_start),
                                        None,
                                    ),
                                    ..p
                                },
                            ),
                            None => None,
                        }
                    } else {
                        final(self).trim_dragging == old(self).trim_dragging && final(self).project == old(self).project
                    }
                } else {
                    final(self).trim_dragging == old(self).trim_dragging && final(self).project == old(self).project
                },
                None => final(self).trim_dragging == old(self).trim_dragging && final(self).project == old(self).project,
            },
            final(self).history == old(self).history,
            final(self).dragging == old(self).dragging,
            final(self).selected_clip_id == old(self).selected_clip_id,
            same_playback(*final(self), *old(self)),
    {
        let td = match self.trim_dragging {
            Some(td) => td,
            None => return,
        };
        if td.clip_id != clip_id || td.edge != TrimEdge::Left {
            return;
        }
        let moved = sat_add(td.cur_timeline_start, delta);
        let lo = if moved >= 0 {
            moved
        } else {
            0
        };
        let hi = sat_sub(td.cur_timeline_end, MIN_CLIP_DURATION);
        let raw = if lo <= hi {
            lo
        } else {
            hi
        };
        let new_start = snap_to_frame(raw, frame_dur);
        let amount = sat_sub(new_start, td.orig_timeline_start);
        let ss = sat_add(td.orig_source_start, amount);
        let new_ss = if ss >= 0 {
            ss
        } else {
            0
        };
        let t2 = TrimDragState { cur_timeline_start: new_start, cur_source_start: new_ss, ..td };
        if !self.trim_fits(clip_id, &t2) {
            return;
        }
        self.trim_dragging = Some(t2);
        match &mut self.project {
            Some(p) => {
                set_clip_fields(&mut p.timeline, td.track_id, clip_id, Some(new_start), None, Some(new_ss), None);
            },
            None => {},
        }
    }

    /// The right trim handle of `clip_id` dragged by `delta` ticks: the trim
    /// state moves as [`right_trimmed`] says and the clip's end and source
    /// end follow live (not recorded) — unless the trimmed clip would then
    /// overlap another clip of its track, when nothing changes.
    pub fn drag_trim_right_by(&mut self, clip_id: u128, delta: i64, frame_dur: i64)
        ensures
            same_jobs(*final(self), *old(self)),
            match old(self).trim_dragging {
                Some(td) => if td.clip_id == clip_id && td.edge == TrimEdge::Right {
                    let t2 = right_trimmed(td, delta, frame_dur);
                    if trim_allowed(old(self).project, td.track_id, clip_id, t2) {
                        &&& final(self).trim_dragging == Some(t2)
                        &&& project_view(final(self).project) == match project_view(old(self).project) {
                            Some(p) => Some(
                                ProjectView {
                                    timeline: clip_fields_set(
                                        p.timeline,
                                        td.track_id,
                                        clip_id,
                                        None,
                                        Some(t2.cur_timeline_end),
                                        None,
                                        Some(t2.cur_source_end),
                                    ),
                                    ..p
                                },
                            ),
                            None => None,
                        }
                    } else {
                        final(self).trim_dragging == old(self).trim_dragging && final(self).project == old(self).project
                    }
                } else {
                    final(self).trim_dragging == old(self).trim_dragging && final(self).project == old(self).project
                },
                None => final(self).trim_dragging == old(self).trim_dragging && final(self).project == old(self).project,
            },
            final(self).history == old(self).history,
            final(self).dragging == old(self).dragging,
            final(self).selected_clip_id == old(self).selected_clip_id,
            same_playback(*final(self), *old(self)),
    {
        let td = match self.trim_dragging {
            Some(td) => td,
            None => return,
        };
        if td.clip_id != clip_id || td.edge != TrimEdge::Right {
            return;
        }
        let moved = sat_add(td.cur_timeline_end, delta);
        let lo = sat_add(td.cur_timeline_start, MIN_CLIP_DURATION);
        let raw = if moved >= lo {
            moved
        } else {
            lo
        };
        let new_end = snap_to_frame(raw, frame_dur);
        let amount = sat_sub(new_end, td.orig_timeline_end);
        let se = sat_add(td.orig_source_end, amount);
        let min_se = sat_add(td.cur_source_start, MIN_CLIP_DURATION);
        let new_se = if se >= min_se {
            se
        } else {
            min_se
        };
        let t2 = TrimDragState { cur_timeline_end: new_end, cur_source_end: new_se, ..td };
        if !self.trim_fits(clip_id, &t2) {
            return;
        }
        self.trim_dragging = Some(t2);
        match &mut self.project {
            Some(p) => {
                set_clip_fields(&mut p.timeline, td.track_id, clip_id, None, Some(new_end), None, Some(new_se));
            },
            None => {},
        }
    }

    /// The body drag of `clip_id` ended: the drag state is cleared, and when
    /// the drag was of this clip and moved it beyond the tolerance, the move
    /// is recorded as a command from the original start.
    pub fn finish_clip_drag(&mut self, clip_id: u128)
        requires
            app_wf(*old(self)),
            old(self).history@.cursor < usize::MAX,
        ensures
            same_jobs(*final(self), *old(self)),
            final(self).dragging is None,
            match old(self).dragging {
                Some(d) => if d.clip_id == clip_id && moved_beyond_tolerance(
                    d.current_start as int,
                    d.original_start as int,
                ) {
                    let cmd = EditCommand::Move(
                        MoveClipCommand {
                            clip_id: d.clip_id,
                            track_id: d.track_id,
                            old_start: d.original_start,
                            new_start: d.current_start,
                            duration: d.duration,
                        },
                    );
                    match project_view(old(self).project) {
                        Some(p) => {
                            &&& final(self).history@ == history_pushed(old(self).history@, cmd)
                            &&& project_view(final(self).project) == Some(
                                ProjectView { timeline: cmd.executed(p.timeline), ..p },
                            )
                        },
                        None => final(self).history@ == old(self).history@ && final(self).project is None,
                    }
                } else {
                    final(self).history == old(self).history && final(self).project == old(self).project
                },
                None => final(self).history == old(self).history && final(self).project == old(self).project,
            },
            final(self).trim_dragging == old(self).trim_dragging,
            final(self).selected_clip_id == old(self).selected_clip_id,
            same_playback(*final(self), *old(self)),
            app_wf(*final(self)),
    {
        let taken = self.dragging.take();
        match taken {
            Some(d) => {
                if d.clip_id == clip_id && beyond_tolerance(d.current_start, d.original_start) {
                    self.action_commit_move_clip(
                        d.clip_id,
                        d.track_id,
                        d.original_start,
                        d.current_start,
                        d.duration,
                    );
                }
            },
            None => {},
        }
    }

    /// The drag of the `edge` trim handle of `clip_id` ended: the trim state
    /// is cleared, and when it was of this clip and edge and moved that edge
    /// beyond the tolerance, the trim is recorded as a command from the
    /// original bounds to the current ones.
    pub fn finish_trim_drag(&mut self, clip_id: u128, edge: TrimEdge)
        requires
            app_wf(*old(self)),
            old(self).history@.cursor < usize::MAX,
        ensures
            same_jobs(*final(self), *old(self)),
            final(self).trim_dragging is None,
            match old(self).trim_dragging {
                Some(td) => if td.clip_id == clip_id && td.edge == edge && (match edge {
                    TrimEdge::Left => moved_beyond_tolerance(
                        td.cur_timeline_start as int,
                        td.orig_timeline_start as int,
                    ),
                    TrimEdge::Right => moved_beyond_tolerance(
                        td.cur_timeline_end as int,
                        td.orig_timeline_end as int,
                    ),
                }) {
                    exists|cmd: TrimClipCommand|
                        {
                            &&& cmd@.clip_id == clip_id
                            &&& cmd@.track_id == td.track_id
                            &&& cmd@.position is None
                            &&& cmd@.old_bounds == (ClipBounds {
                                timeline_start: td.orig_timeline_start,
                                timeline_end: td.orig_timeline_end,
                                source_start: td.orig_source_start,
                                source_end: td.orig_source_end,
                            })
                            &&& cmd@.new_bounds == (ClipBounds {
                                timeline_start: td.cur_timeline_start,
                                timeline_end: td.cur_timeline_end,
                                source_start: td.cur_source_start,
                                source_end: td.cur_source_end,
                            })
                            &&& match project_view(old(self).project) {
                                Some(p) => {
                                    &&& final(self).history@ == history_pushed(
                                        old(self).history@,
                                        EditCommand::Trim(cmd).recorded(p.timeline),
                                    )
                                    &&& project_view(final(self).project) == Some(
                                        ProjectView {
                                            timeline: EditCommand::Trim(cmd).executed(p.timeline),
                                            ..p
                                        },
                                    )
                                },
                                None => final(self).history@ == old(self).history@
                                    && final(self).project is None,
                            }
                        }
                } else {
                    final(self).history == old(self).history && final(self).project == old(self).project
                },
                None => final(self).history == old(self).history && final(self).project == old(self).project,
            },
            final(self).dragging == old(self).dragging,
            final(self).selected_clip_id == old(self).selected_clip_id,
            same_playback(*final(self), *old(self)),
            app_wf(*final(self)),
    {
        let taken = self.trim_dragging.take();
        match taken {
            Some(td) => {
                let moved = match edge {
                    TrimEdge::Left => beyond_tolerance(td.cur_timeline_start, td.orig_timeline_start),
                    TrimEdge::Right => beyond_tolerance(td.cur_timeline_end, td.orig_timeline_end),
                };
                if td.clip_id == clip_id && td.edge == edge && moved {
                    self.action_commit_trim_clip(
                        clip_id,
                        td.track_id,
                        td.orig_timeline_start,
                        td.orig_timeline_end,
                        td.orig_source_start,
                        td.orig_source_end,
                        td.cur_timeline_start,
                        td.cur_timeline_end,
                        td.cur_source_start,
                        td.cur_source_end,
                    );
                }
            },
            None => {},
        }
    }
}

/// The playback fields editing leaves alone: playhead, playing, speed, and
/// the selected asset.
pub open spec fn same_playback(a: VidCutApp, b: VidCutApp) -> bool {
    &&& a.playhead == b.playhead
    &&& a.is_playing == b.is_playing
    &&& a.playback_speed == b.playback_speed
    &&& a.selected_asset_id == b.selected_asset_id
}

proof fn lemma_round_div_near(t: int, d: int)
    requires
        d > 0,
    ensures
        2 * (round_div(t, d) * d - t) <= d,
        2 * (t - round_div(t, d) * d) <= d,
    decreases (if t >= 0 { 0int } else { 1int }),
{
    if t >= 0 {
        lemma_fundamental_div_mod(t, d);
        assert((t / d + 1) * d == d * (t / d) + d) by (nonlinear_arith);
        assert((t / d) * d == d * (t / d)) by (nonlinear_arith);
    } else {
        lemma_round_div_near(-t, d);
        assert(round_div(t, d) * d == -(round_div(-t, d) * d)) by (nonlinear_arith)
            requires
                round_div(t, d) == -round_div(-t, d),
        ;
    }
}

proof fn lemma_round_div_multiple(k: int, d: int)
    requires
        d > 0,
    ensures
        round_div(k * d, d) == k,
    decreases (if k >= 0 { 0int } else { 1int }),
{
    if k >= 0 {
        assert(k * d >= 0) by (nonlinear_arith)
            requires
                k >= 0,
                d > 0,
        ;
        lemma_mod_multiples_basic(k, d);
        assert(k * d == d * k) by (nonlinear_arith);
        lemma_div_multiples_vanish(k, d);
    } else {
        assert(k * d < 0) by (nonlinear_arith)
            requires
                k < 0,
                d > 0,
        ;
        assert(-(k * d) == (-k) * d) by (nonlinear_arith);
        lemma_round_div_multiple(-k, d);
    }
}

/// Law: snapping lands on a frame boundary within half a frame of the
/// time, and snapping a snapped time changes nothing — whenever that
/// boundary lies within the range of `i64`.
pub proof fn lemma_snap_to_frame_boundary(t: int, frame_dur: int)
    requires
        frame_dur > 0,
        i64::MIN <= round_div(t, frame_dur) * frame_dur <= i64::MAX,
    ensures
        snapped(t, frame_dur) % frame_dur == 0,
        2 * (snapped(t, frame_dur) - t) <= frame_dur,
        2 * (t - snapped(t, frame_dur)) <= frame_dur,
        snapped(snapped(t, frame_dur), frame_dur) == snapped(t, frame_dur),
{
    let k = round_div(t, frame_dur);
    lemma_mod_multiples_basic(k, frame_dur);
    lemma_round_div_near(t, frame_dur);
    lemma_round_div_multiple(k, frame_dur);
}

} // verus!
