//! Transport — play, pause, stop, frame steps and the J/K/L shuttle keys.
//!
//! The playback speed is counted in quarters of normal speed: 4 is normal
//! speed forwards, -4 normal speed backwards, and the shuttle keys move it
//! over 0.25x, 0.5x, 1x, 2x and 4x in either direction.

use vstd::prelude::*;

use crate::editor::{frame_ticks, same_jobs, VidCutApp};
use crate::time::{sat_add, sat_sub, spec_max, spec_min, spec_sat_add, spec_sat_sub};
use crate::timeline_edit::{snap_to_frame, snapped};

verus! {

/// The editing fields the transport leaves alone.
pub open spec fn same_editing(a: VidCutApp, b: VidCutApp) -> bool {
    &&& a.project == b.project
    &&& a.history == b.history
    &&& a.selected_asset_id == b.selected_asset_id
    &&& a.selected_clip_id == b.selected_clip_id
    &&& a.dragging == b.dragging
    &&& a.trim_dragging == b.trim_dragging
}

/// The speed after pressing J while playing at `speed`: one unit (4
/// quarters) slower, kept within reverse 0.25x..4x.
pub open spec fn j_speed(speed: int) -> int {
    if speed - 4 < -16 {
        -16
    } else if speed - 4 > -1 {
        -1
    } else {
        speed - 4
    }
}

/// The speed after pressing L while playing at `speed`: the first of
/// 0.25x, 0.5x, 1x, 2x, 4x faster than `speed` (or than stopped, for a
/// reverse speed), and 4x past the end.
pub open spec fn l_speed(speed: int) -> int {
    let s = spec_max(speed, 0);
    if 1 > s {
        1
    } else if 2 > s {
        2
    } else if 4 > s {
        4
    } else if 8 > s {
        8
    } else {
        16
    }
}

/// `x / 4`, rounded toward zero.
pub open spec fn quarter_toward_zero(x: int) -> int {
    if x >= 0 {
        x / 4
    } else {
        -((-x) / 4)
    }
}

/// `x` clamped to the range of `i64`.
pub open spec fn clamp_i64(x: int) -> int {
    if x > i64::MAX {
        i64::MAX as int
    } else if x < i64::MIN {
        i64::MIN as int
    } else {
        x
    }
}

/// The playhead after `dt` ticks of playback at `speed` quarters, before
/// the boundary checks.
pub open spec fn advanced_playhead(playhead: int, dt: int, speed: int) -> int {
    clamp_i64(playhead + quarter_toward_zero(dt * speed))
}

/// Law: L steps through the speeds 0.25x, 0.5x, 1x, 2x and 4x (1, 2, 4, 8
/// and 16 quarters): it picks the slowest of them that is faster than the
/// current speed (than stopped, for a reverse speed), and stays at 4x past
/// the end.
pub proof fn lemma_l_speed_steps_up(speed: int)
    ensures
        ({
            let r = l_speed(speed);
            let cur = if speed > 0 { speed } else { 0 };
            &&& r == 1 || r == 2 || r == 4 || r == 8 || r == 16
            &&& cur < 16 ==> r > cur
            &&& cur >= 16 ==> r == 16
            &&& (1 > cur ==> r <= 1) && (2 > cur ==> r <= 2) && (4 > cur ==> r <= 4) && (8 > cur ==> r <= 8)
        }),
{
}

/// Law: J slows the speed by one unit (4 quarters), within reverse 4x to
/// reverse 0.25x (-16 to -1 quarters).
pub proof fn lemma_j_speed_steps_down(speed: int)
    ensures
        -16 <= j_speed(speed) <= -1,
        -16 <= speed - 4 <= -1 ==> j_speed(speed) == speed - 4,
        speed - 4 < -16 ==> j_speed(speed) == -16,
        speed - 4 > -1 ==> j_speed(speed) == -1,
{
}

/// Law: `dt` ticks of playback at `speed` quarters move the playhead by
/// `dt * speed / 4` ticks, rounded toward zero (when the result stays well
/// inside the range of `i64`): forward at a positive speed, backward at a
/// negative one, and by less than one tick away from the exact amount.
pub proof fn lemma_playhead_moves_by_speed(playhead: int, dt: int, speed: int)
    requires
        i64::MIN <= playhead <= i64::MAX,
        i64::MIN <= playhead - dt * speed,
        playhead - dt * speed <= i64::MAX,
        i64::MIN <= playhead + dt * speed,
        playhead + dt * speed <= i64::MAX,
    ensures
        ({
            let moved = advanced_playhead(playhead, dt, speed) - playhead;
            &&& dt * speed >= 0 ==> 4 * moved <= dt * speed < 4 * moved + 4
            &&& dt * speed < 0 ==> 4 * moved - 4 < dt * speed <= 4 * moved
        }),
{
    let p = dt * speed;
    let q = quarter_toward_zero(p);
    if p >= 0 {
        assert(4 * q <= p < 4 * q + 4);
    } else {
        assert(4 * ((-p) / 4) <= -p < 4 * ((-p) / 4) + 4);
    }
}

impl VidCutApp {
    /// Space: resume at normal speed when paused by K, otherwise toggle
    /// playing (starting at normal speed).
    pub fn action_play_pause(&mut self)
        ensures
            same_jobs(*final(self), *old(self)),
            if old(self).is_playing && old(self).playback_speed == 0 {
                final(self).is_playing && final(self).playback_speed == 4
            } else {
                &&& final(self).is_playing == !old(self).is_playing
                &&& final(self).playback_speed == if final(self).is_playing {
                    4
                } else {
                    old(self).playback_speed
                }
            },
            final(self).playhead == old(self).playhead,
            same_editing(*final(self), *old(self)),
    {
        if self.is_playing && self.playback_speed == 0 {
            self.playback_speed = 4;
            self.is_playing = true;
        } else {
            self.is_playing = !self.is_playing;
            if self.is_playing {
                self.playback_speed = 4;
            }
        }
    }

    /// Stop playback at normal speed with the playhead at 0.
    pub fn action_stop(&mut self)
        ensures
            same_jobs(*final(self), *old(self)),
            !final(self).is_playing,
            final(self).playback_speed == 4,
            final(self).playhead == 0,
            same_editing(*final(self), *old(self)),
    {
        self.is_playing = false;
        self.playback_speed = 4;
        self.playhead = 0;
    }

    /// Step forward by one frame, stopping playback; the playhead goes no
    /// further than the project duration (or one frame, if that is longer).
    pub fn action_step_forward(&mut self)
        ensures
            same_jobs(*final(self), *old(self)),
            !final(self).is_playing,
            ({
                let fd = frame_ticks(
                    match old(self).project {
                        Some(p) => p.settings.fps,
                        None => 30u32,
                    },
                );
                let dur = match old(self).project {
                    Some(p) => p.timeline.duration as int,
                    None => 0,
                };
                final(self).playhead == spec_min(
                    spec_sat_add(old(self).playhead as int, fd),
                    spec_max(dur, fd),
                )
            }),
            final(self).playback_speed == old(self).playback_speed,
            same_editing(*final(self), *old(self)),
    {
        self.is_playing = false;
        let frame_dur = self.frame_duration();
        let dur = self.project_duration();
        let next = sat_add(self.playhead, frame_dur);
        let limit = if dur >= frame_dur {
            dur
        } else {
            frame_dur
        };
        self.playhead = if next <= limit {
            next
        } else {
            limit
        };
    }

    /// Step backward by one frame, stopping playback; the playhead stays at
    /// or after 0.
    /// A click on the ruler at `t` ticks: the playhead moves there, snapped
    /// to a frame of the project's rate, and not before 0.
    pub fn seek_to(&mut self, t: i64)
        ensures
            same_jobs(*final(self), *old(self)),
            ({
                let fd = frame_ticks(
                    match old(self).project {
                        Some(p) => p.settings.fps,
                        None => 30u32,
                    },
                );
                final(self).playhead == spec_max(snapped(t as int, fd), 0)
            }),
            final(self).is_playing == old(self).is_playing,
            final(self).playback_speed == old(self).playback_speed,
            same_editing(*final(self), *old(self)),
    {
        let frame_dur = self.frame_duration();
        let s = snap_to_frame(t, frame_dur);
        self.playhead = if s >= 0 {
            s
        } else {
            0
        };
    }

    pub fn action_step_backward(&mut self)
        ensures
            same_jobs(*final(self), *old(self)),
            !final(self).is_playing,
            ({
                let fd = frame_ticks(
                    match old(self).project {
                        Some(p) => p.settings.fps,
                        None => 30u32,
                    },
                );
                final(self).playhead == spec_max(spec_sat_sub(old(self).playhead as int, fd), 0)
            }),
            final(self).playback_speed == old(self).playback_speed,
            same_editing(*final(self), *old(self)),
    {
        self.is_playing = false;
        let frame_dur = self.frame_duration();
        let prev = sat_sub(self.playhead, frame_dur);
        self.playhead = if prev >= 0 {
            prev
        } else {
            0
        };
    }

    /// J key — play in reverse at normal speed, or, while playing, one step
    /// slower (further into reverse).
    pub fn action_j(&mut self)
        ensures
            same_jobs(*final(self), *old(self)),
            final(self).is_playing,
            final(self).playback_speed == if old(self).is_playing {
                j_speed(old(self).playback_speed as int)
            } else {
                -4
            },
            final(self).playhead == old(self).playhead,
            same_editing(*final(self), *old(self)),
    {
        if !self.is_playing {
            self.is_playing = true;
            self.playback_speed = -4;
        } else {
            let s = self.playback_speed;
            self.playback_speed = if s < -12 {
                -16
            } else if s > 3 {
                -1
            } else {
                s - 4
            };
        }
    }

    /// K key — pause, resetting to normal speed.
    pub fn action_k(&mut self)
        ensures
            same_jobs(*final(self), *old(self)),
            !final(self).is_playing,
            final(self).playback_speed == 4,
            final(self).playhead == old(self).playhead,
            same_editing(*final(self), *old(self)),
    {
        self.is_playing = false;
        self.playback_speed = 4;
    }

    /// L key — play at normal speed, or, while playing, step up to the next
    /// faster speed.
    pub fn action_l(&mut self)
        ensures
            same_jobs(*final(self), *old(self)),
            final(self).is_playing,
            final(self).playback_speed == if old(self).is_playing {
                l_speed(old(self).playback_speed as int)
            } else {
                4
            },
            final(self).playhead == old(self).playhead,
            same_editing(*final(self), *old(self)),
    {
        if !self.is_playing {
            self.is_playing = true;
            self.playback_speed = 4;
        } else {
            let s = if self.playback_speed > 0 {
                self.playback_speed
            } else {
                0
            };
            self.playback_speed = if 1 > s {
                1
            } else if 2 > s {
                2
            } else if 4 > s {
                4
            } else if 8 > s {
                8
            } else {
                16
            };
        }
    }

    /// Advance the playhead by `dt` ticks of wall-clock time while playing:
    /// playback stops (at normal speed) at 0 when the playhead runs before
    /// the start, and rewinds to 0 when it runs past a non-zero duration.
    /// Nothing happens while stopped.
    pub fn advance_playback(&mut self, dt: i64)
        requires
            dt >= 0,
        ensures
            same_jobs(*final(self), *old(self)),
            ({
                let dur = match old(self).project {
                    Some(p) => p.timeline.duration as int,
                    None => 0,
                };
                let p = advanced_playhead(
                    old(self).playhead as int,
                    dt as int,
                    old(self).playback_speed as int,
                );
                if !old(self).is_playing {
                    final(self).playhead == old(self).playhead && !final(self).is_playing
                        && final(self).playback_speed == old(self).playback_speed
                } else if p < 0 {
                    final(self).playhead == 0 && !final(self).is_playing
                        && final(self).playback_speed == 4
                } else if dur > 0 && p > dur {
                    final(self).playhead == 0 && !final(self).is_playing
                        && final(self).playback_speed == 4
                } else {
                    final(self).playhead == p && final(self).is_playing
                        && final(self).playback_speed == old(self).playback_speed
                }
            }),
            same_editing(*final(self), *old(self)),
    {
        if !self.is_playing {
            return;
        }
        let d128 = dt as i128;
        let s128 = self.playback_speed as i128;
        assert(-0x1_0000_0000_0000_0000_0000_0000i128 <= d128 * s128 <= 0x1_0000_0000_0000_0000_0000_0000i128)
            by (nonlinear_arith)
            requires
                0 <= d128 <= 0x8000_0000_0000_0000i128,
                -0x8000_0000i128 <= s128 <= 0x8000_0000i128,
        {
            assert(d128 * s128 <= 0x8000_0000_0000_0000i128 * 0x8000_0000i128);
            assert(d128 * s128 >= 0x8000_0000_0000_0000i128 * (-0x8000_0000i128));
        }
        let prod = d128 * s128;
        let delta = if prod >= 0 {
            prod / 4
        } else {
            -((-prod) / 4)
        };
        let sum = (self.playhead as i128) + delta;
        let p: i64 = if sum > i64::MAX as i128 {
            i64::MAX
        } else if sum < i64::MIN as i128 {
            i64::MIN
        } else {
            sum as i64
        };
        let dur = self.project_duration();
        if p < 0 {
            self.playhead = 0;
            self.is_playing = false;
            self.playback_speed = 4;
        } else if dur > 0 && p > dur {
            self.is_playing = false;
            self.playback_speed = 4;
            self.playhead = 0;
        } else {
            self.playhead = p;
        }
    }
}

/// Law: the J and L keys keep the playback speed within reverse 4x and
/// forward 4x (16 quarters either way): J always plays in reverse, L
/// always forward.
pub proof fn lemma_shuttle_speed_bounds(speed: int)
    ensures
        -16 <= j_speed(speed) <= -1,
        1 <= l_speed(speed) <= 16,
{
}

} // verus!
