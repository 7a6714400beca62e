//! Timeline — the master sequence of tracks and their clips.
//!
//! A [`Timeline`] owns all [`Track`]s. Its duration is derived from the
//! latest clip end-point across all tracks, though it can also be set
//! explicitly for sequences with tailing silence/black.

use vstd::prelude::*;

use crate::clip::Clip;
use crate::clip_order::sorted_by_start;
use crate::time::spec_max;
use crate::track::{Track, TrackView};

verus! {

/// The master sequence that holds all tracks.
#[derive(Debug)]
pub struct Timeline {
    /// Ordered list of video and audio tracks.
    pub tracks: Vec<Track>,
    /// Total duration of the timeline in ticks.
    /// May be set explicitly or computed from clip extents.
    pub duration: i64,
}

/// The mathematical value of a [`Timeline`].
#[verifier::ext_equal]
pub struct TimelineView {
    pub tracks: Seq<TrackView>,
    pub duration: i64,
}

impl View for Timeline {
    type V = TimelineView;

    open spec fn view(&self) -> TimelineView {
        TimelineView { tracks: self.tracks@.map_values(|t: Track| t@), duration: self.duration }
    }
}

/// The latest end point among `clips`, and 0 when there is none later.
pub open spec fn clips_max_end(clips: Seq<Clip>) -> int
    decreases clips.len(),
{
    if clips.len() == 0 {
        0
    } else {
        spec_max(clips_max_end(clips.drop_last()), clips.last().timeline_end as int)
    }
}

/// The latest clip end point over all `tracks`, and 0 when there is none later.
pub open spec fn tracks_max_end(tracks: Seq<TrackView>) -> int
    decreases tracks.len(),
{
    if tracks.len() == 0 {
        0
    } else {
        spec_max(tracks_max_end(tracks.drop_last()), clips_max_end(tracks.last().clips))
    }
}

/// `tl` with its duration recomputed from its clips.
pub open spec fn with_computed_duration(tl: TimelineView) -> TimelineView {
    TimelineView { tracks: tl.tracks, duration: tracks_max_end(tl.tracks) as i64 }
}

/// The duration of `tl` is the one its clips give.
pub open spec fn duration_is_computed(tl: TimelineView) -> bool {
    tl.duration == tracks_max_end(tl.tracks)
}

/// Every track of `tl` holds its clips sorted by `timeline_start`.
pub open spec fn tracks_sorted(tl: TimelineView) -> bool {
    forall|i: int| 0 <= i < tl.tracks.len() ==> sorted_by_start(#[trigger] tl.tracks[i].clips)
}

/// Index of the first track of `tracks` whose id is `id`, if any.
pub open spec fn find_track(tracks: Seq<TrackView>, id: u128) -> Option<int>
    decreases tracks.len(),
{
    if tracks.len() == 0 {
        None
    } else if tracks[0].id == id {
        Some(0)
    } else {
        match find_track(tracks.drop_first(), id) {
            Some(k) => Some(k + 1),
            None => None,
        }
    }
}

/// `tl` with the clips of track `i` replaced by `clips`.
pub open spec fn with_track_clips(tl: TimelineView, i: int, clips: Seq<Clip>) -> TimelineView {
    TimelineView {
        tracks: tl.tracks.update(i, TrackView { clips: clips, ..tl.tracks[i] }),
        duration: tl.duration,
    }
}

pub proof fn lemma_clips_max_end_bounds(clips: Seq<Clip>)
    ensures
        0 <= clips_max_end(clips) <= i64::MAX,
        forall|j: int| 0 <= j < clips.len() ==> clips[j].timeline_end <= clips_max_end(clips),
    decreases clips.len(),
{
    if clips.len() > 0 {
        lemma_clips_max_end_bounds(clips.drop_last());
        assert forall|j: int| 0 <= j < clips.len() implies clips[j].timeline_end <= clips_max_end(
            clips,
        ) by {
            if j < clips.len() - 1 {
                assert(clips[j] == clips.drop_last()[j]);
            }
        }
    }
}

pub proof fn lemma_tracks_max_end_bounds(tracks: Seq<TrackView>)
    ensures
        0 <= tracks_max_end(tracks) <= i64::MAX,
    decreases tracks.len(),
{
    if tracks.len() > 0 {
        lemma_tracks_max_end_bounds(tracks.drop_last());
        lemma_clips_max_end_bounds(tracks.last().clips);
    }
}

pub proof fn lemma_find_track(tracks: Seq<TrackView>, id: u128)
    ensures
        match find_track(tracks, id) {
            Some(k) => 0 <= k < tracks.len() && tracks[k].id == id && forall|j: int|
                0 <= j < k ==> tracks[j].id != id,
            None => forall|j: int| 0 <= j < tracks.len() ==> tracks[j].id != id,
        },
    decreases tracks.len(),
{
    if tracks.len() > 0 {
        lemma_find_track(tracks.drop_first(), id);
        if tracks[0].id != id {
            match find_track(tracks.drop_first(), id) {
                Some(k) => {
                    assert forall|j: int| 0 <= j < k + 1 implies tracks[j].id != id by {
                        if j > 0 {
                            assert(tracks[j] == tracks.drop_first()[j - 1]);
                        }
                    }
                },
                None => {
                    assert forall|j: int| 0 <= j < tracks.len() implies tracks[j].id != id by {
                        if j > 0 {
                            assert(tracks[j] == tracks.drop_first()[j - 1]);
                        }
                    }
                },
            }
        }
    }
}

/// Replacing the clips of a track does not change which track an id finds.
pub proof fn lemma_find_track_with_clips(tl: TimelineView, i: int, clips: Seq<Clip>, id: u128)
    requires
        0 <= i < tl.tracks.len(),
    ensures
        find_track(with_track_clips(tl, i, clips).tracks, id) == find_track(tl.tracks, id),
{
    let t2 = with_track_clips(tl, i, clips).tracks;
    lemma_find_track(tl.tracks, id);
    lemma_find_track(t2, id);
    assert forall|j: int| 0 <= j < t2.len() implies t2[j].id == tl.tracks[j].id by {}
    match find_track(tl.tracks, id) {
        Some(k) => {
            lemma_find_track_is(t2, id, k);
        },
        None => {
            lemma_find_track_none(t2, id);
        },
    }
}

proof fn lemma_find_track_is(tracks: Seq<TrackView>, id: u128, k: int)
    requires
        0 <= k < tracks.len(),
        tracks[k].id == id,
        forall|j: int| 0 <= j < k ==> tracks[j].id != id,
    ensures
        find_track(tracks, id) == Some(k),
{
    lemma_find_track(tracks, id);
}

proof fn lemma_find_track_none(tracks: Seq<TrackView>, id: u128)
    requires
        forall|j: int| 0 <= j < tracks.len() ==> tracks[j].id != id,
    ensures
        find_track(tracks, id) is None,
{
    lemma_find_track(tracks, id);
}

/// The latest end point among `clips`, and 0 when there is none later.
pub fn max_clip_end(clips: &Vec<Clip>) -> (r: i64)
    ensures
        r == clips_max_end(clips@),
{
    let m = clips.len();
    let mut best: i64 = 0;
    let mut j: usize = 0;
    while j < m
        invariant
            m == clips@.len(),
            0 <= j <= m,
            best == clips_max_end(clips@.take(j as int)),
        decreases m - j,
    {
        proof {
            assert(clips@.take(j + 1).drop_last() =~= clips@.take(j as int));
        }
        if clips[j].timeline_end > best {
            best = clips[j].timeline_end;
        }
        j = j + 1;
    }
    proof {
        assert(clips@.take(m as int) =~= clips@);
    }
    best
}

impl Default for Timeline {
    fn default() -> (t: Timeline)
        ensures
            t@.tracks == Seq::<TrackView>::empty(),
            t@.duration == 0,
    {
        let t = Timeline { tracks: Vec::new(), duration: 0 };
        assert(t@.tracks =~= Seq::<TrackView>::empty());
        t
    }
}

impl Timeline {
    /// Recompute `duration` from the maximum clip end point across all tracks
    /// (0 when no clip ends later).
    pub fn recompute_duration(&mut self)
        ensures
            final(self)@ == with_computed_duration(old(self)@),
    {
        let ghost tracks = self@.tracks;
        let mut best: i64 = 0;
        let n = self.tracks.len();
        let mut i: usize = 0;
        while i < n
            invariant
                self@.tracks == tracks,
                n == tracks.len(),
                0 <= i <= n,
                best == tracks_max_end(tracks.take(i as int)),
            decreases n - i,
        {
            let best_here = max_clip_end(&self.tracks[i].clips);
            proof {
                assert(tracks.take(i + 1).drop_last() =~= tracks.take(i as int));
                assert(tracks[i as int].clips == self.tracks[i as int].clips@);
            }
            if best_here > best {
                best = best_here;
            }
            i = i + 1;
        }
        proof {
            assert(tracks.take(n as int) =~= tracks);
        }
        self.duration = best;
    }

    /// Index of the first track whose id is `id`.
    pub fn position_of_track(&self, id: u128) -> (r: Option<usize>)
        ensures
            match r {
                Some(k) => find_track(self@.tracks, id) == Some(k as int),
                None => find_track(self@.tracks, id) is None,
            },
    {
        let n = self.tracks.len();
        let mut i: usize = 0;
        while i < n
            invariant
                n == self@.tracks.len(),
                0 <= i <= n,
                forall|j: int| 0 <= j < i ==> self@.tracks[j].id != id,
            decreases n - i,
        {
            if self.tracks[i].id == id {
                proof {
                    lemma_find_track_is(self@.tracks, id, i as int);
                }
                return Some(i);
            }
            i = i + 1;
        }
        proof {
            lemma_find_track_none(self@.tracks, id);
        }
        None
    }
}

} // verus!
