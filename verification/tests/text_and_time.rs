use vidcut::text::{
    chars_of, decimal_string, parse_digits, parse_seconds, push_decimal_padded, seconds_arg,
    str_equals, trim_white_space_end, skip_white_space,
};
use vidcut::time::{duration_ticks, sat_add, sat_sub, TICKS_PER_SECOND};
use vidcut::timecode::{asset_detail_label, format_timecode, pick_tick_interval, timecode};

const TPS: i64 = TICKS_PER_SECOND;

#[test]
fn decimal_text_of_numbers() {
    assert_eq!(decimal_string(0), "0");
    assert_eq!(decimal_string(7), "7");
    assert_eq!(decimal_string(1234567890), "1234567890");
    assert_eq!(decimal_string(u128::MAX), u128::MAX.to_string());
}

#[test]
fn padded_decimal_text() {
    let mut s = String::from("x");
    push_decimal_padded(&mut s, 5, 2);
    assert_eq!(s, "x05");
    let mut t = String::new();
    push_decimal_padded(&mut t, 123, 2);
    assert_eq!(t, "123");
    let mut u = String::new();
    push_decimal_padded(&mut u, 42, 6);
    assert_eq!(u, "000042");
}

#[test]
fn seconds_with_six_decimals() {
    assert_eq!(seconds_arg(0), "0.000000");
    assert_eq!(seconds_arg(TPS), "1.000000");
    assert_eq!(seconds_arg(TPS * 3 / 2), "1.500000");
    assert_eq!(seconds_arg(-TPS / 2), "-0.500000");
    assert_eq!(seconds_arg(TPS * 90 + TPS / 4), "90.250000");
    // One tick is far below a microsecond.
    assert_eq!(seconds_arg(1), "0.000000");
    // 1/3 second rounds to the nearest microsecond.
    assert_eq!(seconds_arg(TPS / 3), "0.333333");
    // 2/3 second rounds up.
    assert_eq!(seconds_arg(TPS * 2 / 3), "0.666667");
}

#[test]
fn seconds_text_read_back() {
    let v = chars_of("12.5");
    assert_eq!(parse_seconds(&v, 0, v.len()), Some(12 * TPS + TPS / 2));
    let w = chars_of("00");
    assert_eq!(parse_seconds(&w, 0, w.len()), Some(0));
    let x = chars_of(".25");
    assert_eq!(parse_seconds(&x, 0, x.len()), Some(TPS / 4));
    let y = chars_of("4.");
    assert_eq!(parse_seconds(&y, 0, y.len()), Some(4 * TPS));
    let bad = chars_of("1.2.3");
    assert_eq!(parse_seconds(&bad, 0, bad.len()), None);
    let empty = chars_of(".");
    assert_eq!(parse_seconds(&empty, 0, empty.len()), None);
    let sign = chars_of("-1");
    assert_eq!(parse_seconds(&sign, 0, sign.len()), Some(-TPS));
    let plus = chars_of("+0.5");
    assert_eq!(parse_seconds(&plus, 0, plus.len()), Some(TPS / 2));
    let twice = chars_of("--1");
    assert_eq!(parse_seconds(&twice, 0, twice.len()), None);
    let sci = chars_of("1.5e1");
    assert_eq!(parse_seconds(&sci, 0, sci.len()), Some(15 * TPS));
    let small = chars_of("25E-2");
    assert_eq!(parse_seconds(&small, 0, small.len()), Some(TPS / 4));
    let plus_exp = chars_of("-2e+0");
    assert_eq!(parse_seconds(&plus_exp, 0, plus_exp.len()), Some(-2 * TPS));
    let tiny = chars_of("1e-40");
    assert_eq!(parse_seconds(&tiny, 0, tiny.len()), Some(0));
    let vast = chars_of("1e30");
    assert_eq!(parse_seconds(&vast, 0, vast.len()), Some(i64::MAX));
    let zero_vast = chars_of("0.0e999");
    assert_eq!(parse_seconds(&zero_vast, 0, zero_vast.len()), Some(0));
    let no_exp = chars_of("1e");
    assert_eq!(parse_seconds(&no_exp, 0, no_exp.len()), None);
    let bare = chars_of("-");
    assert_eq!(parse_seconds(&bare, 0, bare.len()), None);
    let huge = chars_of("99999999999999999999");
    assert_eq!(parse_seconds(&huge, 0, huge.len()), None);
    let big = chars_of("9999999999999999");
    assert_eq!(parse_seconds(&big, 0, big.len()), Some(i64::MAX));
}

#[test]
fn digits_and_white_space() {
    let v = chars_of("  042 ");
    let start = skip_white_space(&v, 0);
    assert_eq!(start, 2);
    let end = trim_white_space_end(&v, start, v.len());
    assert_eq!(end, 5);
    assert_eq!(parse_digits(&v, start, end), Some(42));
    assert_eq!(parse_digits(&v, 0, v.len()), None);
    assert!(str_equals("abc", "abc"));
    assert!(!str_equals("abc", "abd"));
    assert!(!str_equals("ab", "abc"));
}

#[test]
fn saturating_tick_arithmetic() {
    assert_eq!(sat_add(1, 2), 3);
    assert_eq!(sat_add(i64::MAX, 1), i64::MAX);
    assert_eq!(sat_add(i64::MIN, -1), i64::MIN);
    assert_eq!(sat_sub(5, 7), -2);
    assert_eq!(sat_sub(i64::MIN, 1), i64::MIN);
    assert_eq!(sat_sub(i64::MAX, -1), i64::MAX);
}

#[test]
fn durations_in_ticks() {
    assert_eq!(duration_ticks(0, 0), 0);
    assert_eq!(duration_ticks(2, 500_000_000), 2 * TPS + TPS / 2);
    assert_eq!(duration_ticks(0, 1), 0);
    assert_eq!(duration_ticks(u64::MAX, 0), i64::MAX);
}

#[test]
fn playhead_timecodes() {
    assert_eq!(timecode(0), "00:00:00:00");
    assert_eq!(timecode(-5 * TPS), "00:00:00:00");
    assert_eq!(timecode(3661 * TPS + TPS / 2), "01:01:01:15");
    assert_eq!(timecode(59 * TPS + TPS * 29 / 30), "00:00:59:29");
    assert_eq!(timecode(100 * 3600 * TPS), "100:00:00:00");
}

#[test]
fn ruler_labels() {
    assert_eq!(format_timecode(0), "0s");
    assert_eq!(format_timecode(45 * TPS + 1), "45s");
    assert_eq!(format_timecode(65 * TPS), "1:05");
    assert_eq!(format_timecode(600 * TPS), "10:00");
    assert_eq!(format_timecode(-TPS), "0s");
}

#[test]
fn ruler_tick_spacing() {
    assert_eq!(pick_tick_interval(0), TPS / 2);
    // 0.5 s is at least 80% of 0.6 s.
    assert_eq!(pick_tick_interval(TPS * 6 / 10), TPS / 2);
    // 0.5 s is below 80% of 0.7 s, 1 s is not.
    assert_eq!(pick_tick_interval(TPS * 7 / 10), TPS);
    assert_eq!(pick_tick_interval(20 * TPS), 30 * TPS);
    assert_eq!(pick_tick_interval(10_000 * TPS), 600 * TPS);
}

#[test]
fn asset_detail_lines() {
    let mut a = vidcut::media_asset::MediaAsset::new(
        String::from("/media/holiday.mp4"),
        vidcut::media_asset::AssetType::Video,
        125 * TPS + TPS / 3,
        Some(1920),
        Some(1080),
        Some(30_000),
    );
    assert_eq!(asset_detail_label(&a), "02:05  1920\u{d7}1080");
    a.width = None;
    assert_eq!(asset_detail_label(&a), "02:05");
    a.duration = -1;
    assert_eq!(asset_detail_label(&a), "00:00");
}
