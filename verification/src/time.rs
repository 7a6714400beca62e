//! Time arithmetic on integer ticks.
//!
//! One second is `TICKS_PER_SECOND` ticks (705 600 000, the "flick"),
//! which every common frame rate (24, 25, 30, 48, 50, 60, 90, 100, 120)
//! and audio rate divides exactly, so frame boundaries are exact integers.

use vstd::prelude::*;

verus! {

/// Number of ticks in one second.
pub const TICKS_PER_SECOND: i64 = 705_600_000;

/// `a + b`, clamped to the range of `i64`.
pub open spec fn spec_sat_add(a: int, b: int) -> int {
    if a + b > i64::MAX {
        i64::MAX as int
    } else if a + b < i64::MIN {
        i64::MIN as int
    } else {
        a + b
    }
}

/// `a - b`, clamped to the range of `i64`.
pub open spec fn spec_sat_sub(a: int, b: int) -> int {
    spec_sat_add(a, -b)
}

/// Adds two tick values, saturating at the bounds of `i64`.
pub fn sat_add(a: i64, b: i64) -> (r: i64)
    ensures
        r == spec_sat_add(a as int, b as int),
{
    if b >= 0 {
        if a > i64::MAX - b {
            i64::MAX
        } else {
            a + b
        }
    } else {
        if a < i64::MIN - b {
            i64::MIN
        } else {
            a + b
        }
    }
}

/// Subtracts two tick values, saturating at the bounds of `i64`.
pub fn sat_sub(a: i64, b: i64) -> (r: i64)
    ensures
        r == spec_sat_sub(a as int, b as int),
{
    if b >= 0 {
        if a < i64::MIN + b {
            i64::MIN
        } else {
            a - b
        }
    } else {
        if a > i64::MAX + b {
            i64::MAX
        } else {
            a - b
        }
    }
}

/// The larger of two integers.
pub open spec fn spec_max(a: int, b: int) -> int {
    if a >= b {
        a
    } else {
        b
    }
}

/// The smaller of two integers.
pub open spec fn spec_min(a: int, b: int) -> int {
    if a <= b {
        a
    } else {
        b
    }
}

/// The ticks in a duration of `secs` seconds and `nanos` nanoseconds
/// (`nanos` below one second), rounded down and capped at `i64::MAX`.
pub open spec fn duration_ticks_of(secs: u64, nanos: u32) -> int {
    let t = secs * TICKS_PER_SECOND + nanos * TICKS_PER_SECOND / 1_000_000_000;
    if t > i64::MAX {
        i64::MAX as int
    } else {
        t
    }
}

/// The ticks in a duration of `secs` seconds and `nanos` nanoseconds (see
/// [`duration_ticks_of`]).
pub fn duration_ticks(secs: u64, nanos: u32) -> (r: i64)
    ensures
        r == duration_ticks_of(secs, nanos),
{
    let t: u128 = secs as u128 * 705_600_000 + nanos as u128 * 705_600_000 / 1_000_000_000;
    if t > i64::MAX as u128 {
        i64::MAX
    } else {
        t as i64
    }
}

} // verus!
