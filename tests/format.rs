use timer_repl::format::{format_elapsed, push_zero_padded};
use timer_repl::report::Report;

#[test]
fn formats_an_hour_a_minute_a_second() {
    assert_eq!(format_elapsed(3_661_234_000_000), "01:01:01.234");
}

#[test]
fn formats_zero() {
    assert_eq!(format_elapsed(0), "00:00:00.000");
}

#[test]
fn milliseconds_are_truncated() {
    assert_eq!(format_elapsed(1_999_999_999), "00:00:01.999");
}

#[test]
fn hours_are_not_wrapped_at_a_day() {
    assert_eq!(format_elapsed(25 * 3600 * 1_000_000_000), "25:00:00.000");
    assert_eq!(format_elapsed(100 * 3600 * 1_000_000_000 + 59 * 1_000_000_000), "100:00:59.000");
}

#[test]
fn largest_duration() {
    assert_eq!(format_elapsed(u64::MAX), "5124095:34:33.709");
}

#[test]
fn zero_padding() {
    let mut s = String::from("x");
    push_zero_padded(&mut s, 7, 3);
    assert_eq!(s, "x007");
    let mut t = String::new();
    push_zero_padded(&mut t, 12345, 2);
    assert_eq!(t, "12345");
    let mut u = String::new();
    push_zero_padded(&mut u, 0, 0);
    assert_eq!(u, "0");
}

#[test]
fn unknown_command_text() {
    let r = Report::UnknownCommand { word: "foo".to_string() };
    assert_eq!(r.text(), "Unknown command: foo");
    assert_eq!(r.status(), None);
}
