//! Time labels shown by the interface: the `HH:MM:SS:FF` playhead
//! timecode, the labels of the timeline ruler and the spacing of its ticks.

use vstd::prelude::*;

use crate::text::{decimal, decimal_padded, push_decimal, push_decimal_padded};
use crate::media_asset::{MediaAsset, MediaAssetView};
use crate::time::TICKS_PER_SECOND;

verus! {

/// The playhead timecode of `t` ticks: hours, minutes, seconds and the frame
/// within the second at 30 frames per second, each at least two digits
/// (times before 0 show as 0).
pub open spec fn timecode_text(t: int) -> Seq<char> {
    let a: nat = if t < 0 { 0 } else { t as nat };
    let tps = TICKS_PER_SECOND as nat;
    let h = a / (3600 * tps);
    let m = (a % (3600 * tps)) / (60 * tps);
    let s = (a % (60 * tps)) / tps;
    let f = (a % tps) * 30 / tps;
    decimal_padded(h, 2) + ":"@ + decimal_padded(m, 2) + ":"@ + decimal_padded(s, 2) + ":"@
        + decimal_padded(f, 2)
}

/// The `HH:MM:SS:FF` timecode of `t` ticks (see [`timecode_text`]).
pub fn timecode(t: i64) -> (r: String)
    ensures
        r@ == timecode_text(t as int),
{
    let a: u128 = if t < 0 {
        0
    } else {
        t as u128
    };
    let tps: u128 = 705_600_000;
    let h = a / (3600 * tps);
    let m = (a % (3600 * tps)) / (60 * tps);
    let s = (a % (60 * tps)) / tps;
    let f = (a % tps) * 30 / tps;
    let mut r = String::new();
    push_decimal_padded(&mut r, h, 2);
    r.append(":");
    push_decimal_padded(&mut r, m, 2);
    r.append(":");
    push_decimal_padded(&mut r, s, 2);
    r.append(":");
    push_decimal_padded(&mut r, f, 2);
    assert(r@ =~= timecode_text(t as int));
    r
}

/// The ruler label at `t` ticks: `<minutes>:<seconds>` with two-digit
/// seconds from the first minute on, `<seconds>s` before (times before 0
/// show as `0s`).
pub open spec fn ruler_label_text(t: int) -> Seq<char> {
    let a: nat = if t < 0 { 0 } else { t as nat };
    let tps = TICKS_PER_SECOND as nat;
    let m = a / (60 * tps);
    let s = (a % (60 * tps)) / tps;
    if m > 0 {
        decimal(m) + ":"@ + decimal_padded(s, 2)
    } else {
        decimal(s) + "s"@
    }
}

/// The ruler label at `t` ticks (see [`ruler_label_text`]).
pub fn format_timecode(t: i64) -> (r: String)
    ensures
        r@ == ruler_label_text(t as int),
{
    let a: u128 = if t < 0 {
        0
    } else {
        t as u128
    };
    let tps: u128 = 705_600_000;
    let m = a / (60 * tps);
    let s = (a % (60 * tps)) / tps;
    let mut r = String::new();
    if m > 0 {
        push_decimal(&mut r, m);
        r.append(":");
        push_decimal_padded(&mut r, s, 2);
    } else {
        push_decimal(&mut r, s);
        r.append("s");
    }
    assert(r@ =~= ruler_label_text(t as int));
    r
}

/// The tick spacings of the ruler, in ticks: 0.5, 1, 2, 5, 10, 30, 60,
/// 120, 300 and 600 seconds.
pub open spec fn tick_candidates() -> Seq<i64> {
    seq![
        352_800_000i64,
        705_600_000,
        1_411_200_000,
        3_528_000_000,
        7_056_000_000,
        21_168_000_000,
        42_336_000_000,
        84_672_000_000,
        211_680_000_000,
        423_360_000_000,
    ]
}

/// The ruler's tick spacing when 60 pixels span `span` ticks: the first of
/// 0.5, 1, 2, 5, 10, 30, 60, 120, 300 and 600 seconds that is at least 80%
/// of the span, or 600 seconds.
pub open spec fn tick_interval_for(span: int) -> i64 {
    let c = tick_candidates();
    if 5 * c[0] >= 4 * span {
        c[0]
    } else if 5 * c[1] >= 4 * span {
        c[1]
    } else if 5 * c[2] >= 4 * span {
        c[2]
    } else if 5 * c[3] >= 4 * span {
        c[3]
    } else if 5 * c[4] >= 4 * span {
        c[4]
    } else if 5 * c[5] >= 4 * span {
        c[5]
    } else if 5 * c[6] >= 4 * span {
        c[6]
    } else if 5 * c[7] >= 4 * span {
        c[7]
    } else if 5 * c[8] >= 4 * span {
        c[8]
    } else {
        c[9]
    }
}

/// The ruler's tick spacing in ticks (see [`tick_interval_for`]).
pub fn pick_tick_interval(span: i64) -> (r: i64)
    ensures
        r == tick_interval_for(span as int),
{
    let candidates: [i64; 10] = [
        352_800_000,
        705_600_000,
        1_411_200_000,
        3_528_000_000,
        7_056_000_000,
        21_168_000_000,
        42_336_000_000,
        84_672_000_000,
        211_680_000_000,
        423_360_000_000,
    ];
    let four_span: i128 = 4 * span as i128;
    let mut i: usize = 0;
    while i < 10
        invariant
            0 <= i <= 10,
            four_span == 4 * span,
            candidates@ == tick_candidates(),
            forall|j: int| 0 <= j < i ==> 5 * tick_candidates()[j] < 4 * span,
        decreases 10 - i,
    {
        if 5 * candidates[i] as i128 >= four_span {
            return candidates[i];
        }
        i = i + 1;
    }
    423_360_000_000
}

/// The details line of an asset in the media browser: its duration as
/// `MM:SS` (at least two digits each, negative durations as 0), then its
/// size `<width>×<height>` when both are known.
pub open spec fn asset_detail_text(a: MediaAssetView) -> Seq<char> {
    let d: nat = if a.duration < 0 { 0 } else { a.duration as nat };
    let tps = TICKS_PER_SECOND as nat;
    let base = decimal_padded(d / (60 * tps), 2) + ":"@ + decimal_padded((d % (60 * tps)) / tps, 2);
    match (a.width, a.height) {
        (Some(w), Some(h)) => base + "  "@ + decimal(w as nat) + "\u{d7}"@ + decimal(h as nat),
        _ => base,
    }
}

/// The details line of `asset` in the media browser (see [`asset_detail_text`]).
pub fn asset_detail_label(asset: &MediaAsset) -> (r: String)
    ensures
        r@ == asset_detail_text(asset@),
{
    let d: u128 = if asset.duration < 0 {
        0
    } else {
        asset.duration as u128
    };
    let tps: u128 = 705_600_000;
    let mut r = String::new();
    push_decimal_padded(&mut r, d / (60 * tps), 2);
    r.append(":");
    push_decimal_padded(&mut r, (d % (60 * tps)) / tps, 2);
    let ghost base = r@;
    match (asset.width, asset.height) {
        (Some(w), Some(h)) => {
            r.append("  ");
            push_decimal(&mut r, w as u128);
            r.append("\u{d7}");
            push_decimal(&mut r, h as u128);
        },
        _ => {},
    }
    assert(r@ =~= asset_detail_text(asset@));
    r
}

} // verus!
