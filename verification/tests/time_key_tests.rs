use preprompter::calendar::{civil_from_days, civil_time_of_ms, utc_date_of_ms};
use preprompter::frame::{convert_to_rgba, trim_trailing_slashes, CapturedFrame, UnsupportedDepth};

fn frame_at(ms: u64) -> CapturedFrame {
    CapturedFrame {
        data: vec![1, 2, 3],
        width: 1920,
        height: 1080,
        timestamp_ms: ms,
        monitor_id: 0,
        capture_duration_ms: 12,
    }
}

#[test]
fn epoch_day_zero_is_new_year_1970() {
    let d = civil_from_days(0);
    assert_eq!((d.year, d.month, d.day), (1970, 1, 1));
}

#[test]
fn leap_day_2024_has_the_right_day_number() {
    let d = civil_from_days(19782);
    assert_eq!((d.year, d.month, d.day), (2024, 2, 29));
}

#[test]
fn civil_time_splits_a_timestamp() {
    let t = civil_time_of_ms(1710524730123);
    assert_eq!((t.date.year, t.date.month, t.date.day), (2024, 3, 15));
    assert_eq!((t.hour, t.minute, t.second, t.millisecond), (17, 45, 30, 123));
}

#[test]
fn utc_date_matches_civil_time() {
    let d = utc_date_of_ms(1710524730123);
    assert_eq!((d.year, d.month, d.day), (2024, 3, 15));
}

#[test]
fn frame_id_packs_date_and_milliseconds() {
    assert_eq!(frame_at(1710524730123).frame_id(), "20240315-174530123");
}

#[test]
fn s3_key_without_prefix_is_the_date_path_and_file() {
    assert_eq!(
        frame_at(1710524730123).s3_key(None),
        "2024/03/15/17/frame-1710524730123.jpg"
    );
}

#[test]
fn s3_key_with_prefix_trims_trailing_slashes() {
    assert_eq!(
        frame_at(1710524730123).s3_key(Some("captures//")),
        "captures/2024/03/15/17/frame-1710524730123.jpg"
    );
}

#[test]
fn s3_key_with_empty_prefix_has_no_leading_slash() {
    assert_eq!(
        frame_at(1710524730123).s3_key(Some("")),
        "2024/03/15/17/frame-1710524730123.jpg"
    );
}

#[test]
fn keys_differ_one_millisecond_apart() {
    let a = frame_at(1710524730123).s3_key(Some("p"));
    let b = frame_at(1710524730124).s3_key(Some("p"));
    assert_ne!(a, b);
}

#[test]
fn key_date_paths_sort_with_time() {
    // The zero-padded date path of an earlier capture never sorts after
    // that of a later one.
    let earlier = frame_at(1710524730123).s3_key(None);
    let later = frame_at(1735689601000).s3_key(None);
    assert!(earlier[..13] <= later[..13]);
}

#[test]
fn trim_trailing_slashes_stops_at_content() {
    assert_eq!(trim_trailing_slashes("a/b///"), "a/b");
    assert_eq!(trim_trailing_slashes("abc"), "abc");
    assert_eq!(trim_trailing_slashes("///"), "");
}

#[test]
fn convert_32_bit_swaps_red_and_blue() {
    // One pixel: B=10, G=20, R=30, X=40 becomes R, G, B, opaque alpha.
    let out = convert_to_rgba(&[10, 20, 30, 40], 1, 1, 32).unwrap();
    assert_eq!(out, vec![30, 20, 10, 255]);
}

#[test]
fn convert_24_bit_uses_four_byte_pixels() {
    let out = convert_to_rgba(&[1, 2, 3, 4, 5, 6, 7, 8], 2, 1, 24).unwrap();
    assert_eq!(out, vec![3, 2, 1, 255, 7, 6, 5, 255]);
}

#[test]
fn convert_drops_incomplete_trailing_pixel() {
    let out = convert_to_rgba(&[10, 20, 30, 40, 50, 60], 2, 1, 32).unwrap();
    assert_eq!(out, vec![30, 20, 10, 255]);
}

#[test]
fn convert_16_bit_widens_565_channels() {
    // 0xFFFF: r5 = 31, g6 = 63, b5 = 31 widen to 255 each.
    let out = convert_to_rgba(&[0xFF, 0xFF], 1, 1, 16).unwrap();
    assert_eq!(out, vec![255, 255, 255, 255]);
    // 0xF800 little endian: bytes 00 F8: pure red.
    let out = convert_to_rgba(&[0x00, 0xF8], 1, 1, 16).unwrap();
    assert_eq!(out, vec![255, 0, 0, 255]);
}

#[test]
fn convert_rejects_unknown_depth() {
    assert_eq!(
        convert_to_rgba(&[0, 0, 0, 0], 1, 1, 8),
        Err(UnsupportedDepth { depth: 8 })
    );
}

#[test]
fn century_leap_rule_is_respected() {
    // 2000 is a leap year, 2100 is not.
    let d = civil_from_days(11016);
    assert_eq!((d.year, d.month, d.day), (2000, 2, 29));
    let d = civil_from_days(47540);
    assert_eq!((d.year, d.month, d.day), (2100, 2, 28));
    let d = civil_from_days(47541);
    assert_eq!((d.year, d.month, d.day), (2100, 3, 1));
}

#[test]
fn year_boundary_rolls_over() {
    let d = civil_from_days(364);
    assert_eq!((d.year, d.month, d.day), (1970, 12, 31));
    let d = civil_from_days(365);
    assert_eq!((d.year, d.month, d.day), (1971, 1, 1));
}
