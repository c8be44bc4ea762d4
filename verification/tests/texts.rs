use fast_photo_viewer::shared::{open_error, OpenFailure};
use fast_photo_viewer::text::{begins_with, decimal, format_time};
use fast_photo_viewer::viewer::clock_text;

#[test]
fn numbers_are_written_in_decimal() {
    assert_eq!(decimal(0), "0");
    assert_eq!(decimal(9), "9");
    assert_eq!(decimal(10), "10");
    assert_eq!(decimal(1234567890), "1234567890");
    assert_eq!(decimal(u64::MAX), "18446744073709551615");
}

#[test]
fn beginnings_are_found() {
    assert!(begins_with("abc", "ab") && begins_with("abc", "") && begins_with("ä", "ä"));
    assert!(!begins_with("abc", "b") && !begins_with("ab", "abc") && !begins_with("", "a"));
}

#[test]
fn times_have_two_places() {
    assert_eq!(format_time(0), "00:00");
    assert_eq!(format_time(999), "00:00");
    assert_eq!(format_time(61_000), "01:01");
    assert_eq!(format_time(3_599_999), "59:59");
    assert_eq!(format_time(3_600_000), "01:00:00");
    assert_eq!(format_time(360_000_000), "100:00:00");
}

#[test]
fn times_before_zero_keep_their_sign() {
    for ms in [-1i64, -999, -1000, -5000, -61_000, -3_599_999, -3_600_000, -90_061_000, i64::MIN] {
        let total = ms / 1000;
        let expected = format!("{:02}:{:02}", (total % 3600) / 60, total % 60);
        assert_eq!(format_time(ms), expected, "{}", ms);
    }
    assert_eq!(format_time(-5000), "00:-5");
}

#[test]
fn times_agree_with_formatting() {
    for ms in [1i64, 59_999, 60_000, 600_000, 3_661_000, 86_399_000, i64::MAX] {
        let total = ms / 1000;
        let (h, m, s) = (total / 3600, (total % 3600) / 60, total % 60);
        let expected = if h > 0 {
            format!("{:02}:{:02}:{:02}", h, m, s)
        } else {
            format!("{:02}:{:02}", m, s)
        };
        assert_eq!(format_time(ms), expected);
    }
}

#[test]
fn the_clock_shows_both_times() {
    assert_eq!(clock_text(61_000, 3_600_000), "01:01 / 01:00:00");
}

#[test]
fn opening_fails_with_a_reason() {
    assert_eq!(open_error(OpenFailure::Open, "x"), "open: x");
    assert_eq!(open_error(OpenFailure::NoVideo, "x"), "no video stream");
    assert_eq!(open_error(OpenFailure::StreamGone, "x"), "stream disappeared");
    assert_eq!(open_error(OpenFailure::VideoCodec, "x"), "video codec ctx: x");
    assert_eq!(open_error(OpenFailure::VideoDecoder, "x"), "video decoder: x");
    assert_eq!(open_error(OpenFailure::AudioCodec, "x"), "audio codec ctx: x");
    assert_eq!(open_error(OpenFailure::AudioDecoder, "x"), "audio decoder: x");
    assert_eq!(open_error(OpenFailure::Resampler, "x"), "resampler: x");
    assert_eq!(
        open_error(OpenFailure::Timeout, "x"),
        "timeout waiting for decoder initialization"
    );
}
