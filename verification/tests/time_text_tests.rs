use timetracker::probe::{get_active_window_info, now_local};
use timetracker::text::{i64_to_dec, json_escape, parse_u64, u64_to_dec};
use timetracker::time::{days_in_month, Date, Timestamp};

#[test]
fn timestamp_validation_accepts_only_real_clock_readings() {
    assert!(Timestamp::new(2024, 2, 29, 23, 59, 59).is_some());
    assert!(Timestamp::new(2023, 2, 29, 0, 0, 0).is_none());
    assert!(Timestamp::new(2024, 13, 1, 0, 0, 0).is_none());
    assert!(Timestamp::new(2024, 1, 0, 0, 0, 0).is_none());
    assert!(Timestamp::new(2024, 1, 1, 24, 0, 0).is_none());
    assert!(Timestamp::new(0, 1, 1, 0, 0, 0).is_none());
}

#[test]
fn leap_years_change_february() {
    assert_eq!(days_in_month(2024, 2), 29);
    assert_eq!(days_in_month(2023, 2), 28);
    assert_eq!(days_in_month(2000, 2), 29);
    assert_eq!(days_in_month(1900, 2), 28);
    assert_eq!(days_in_month(2024, 4), 30);
    assert_eq!(days_in_month(2024, 12), 31);
}

#[test]
fn seconds_linearization_subtracts_to_durations() {
    let a = Timestamp::new(2024, 1, 1, 10, 0, 0).unwrap();
    let b = Timestamp::new(2024, 1, 1, 10, 30, 0).unwrap();
    assert_eq!(b.to_secs() - a.to_secs(), 1800);
    // across a month boundary
    let c = Timestamp::new(2024, 1, 31, 23, 59, 0).unwrap();
    let d = Timestamp::new(2024, 2, 1, 0, 1, 0).unwrap();
    assert_eq!(d.to_secs() - c.to_secs(), 120);
    // across a leap day
    let e = Timestamp::new(2024, 2, 28, 12, 0, 0).unwrap();
    let f = Timestamp::new(2024, 3, 1, 12, 0, 0).unwrap();
    assert_eq!(f.to_secs() - e.to_secs(), 2 * 86400);
}

#[test]
fn date_and_timestamp_formatting_pads_fields() {
    let t = Timestamp::new(987, 3, 7, 4, 5, 6).unwrap();
    assert_eq!(t.date.format(), "0987-03-07");
    assert_eq!(t.format(), "0987-03-07T04:05:06");
    let u = Timestamp::new(2024, 12, 31, 23, 59, 59).unwrap();
    assert_eq!(u.format(), "2024-12-31T23:59:59");
}

#[test]
fn date_parsing_round_trips_and_rejects_malformed_input() {
    let d = Date::parse("2024-01-01").unwrap();
    assert_eq!(d, Date { year: 2024, month: 1, day: 1 });
    assert_eq!(Date::parse(&d.format()), Some(d));
    for bad in ["", "2024-1-1", "2024/01/01", "2024-00-10", "2024-13-01", "2023-02-29", "20240101",
        "2024-01-01T", "abcd-ef-gh"]
    {
        assert_eq!(Date::parse(bad), None, "accepted {:?}", bad);
    }
}

#[test]
fn decimal_formatting_and_parsing_agree() {
    assert_eq!(u64_to_dec(0), "0");
    assert_eq!(u64_to_dec(907), "907");
    assert_eq!(u64_to_dec(u64::MAX), u64::MAX.to_string());
    assert_eq!(i64_to_dec(-45), "-45");
    assert_eq!(i64_to_dec(i64::MIN), i64::MIN.to_string());
    assert_eq!(parse_u64("0"), Some(0));
    assert_eq!(parse_u64("00042"), Some(42));
    assert_eq!(parse_u64("18446744073709551615"), Some(u64::MAX));
    assert_eq!(parse_u64("18446744073709551616"), None);
    assert_eq!(parse_u64(""), None);
    assert_eq!(parse_u64("4 2"), None);
    assert_eq!(parse_u64("-1"), None);
}

#[test]
fn json_escaping_covers_quotes_and_control_characters() {
    assert_eq!(json_escape("plain"), "plain");
    assert_eq!(json_escape("a\"b"), "a\\\"b");
    assert_eq!(json_escape("a\\b"), "a\\\\b");
    assert_eq!(json_escape("line\nfeed\ttab\rret"), "line\\nfeed\\ttab\\rret");
    assert_eq!(json_escape("\u{1}\u{1f}"), "\\u0001\\u001f");
    assert_eq!(json_escape("uni\u{e9}ode"), "uni\u{e9}ode");
}

#[test]
fn development_probe_returns_the_demo_window() {
    let (process, title) = get_active_window_info().unwrap();
    assert_eq!(process, "DemoApp.exe");
    assert_eq!(title, "Demo Window - Development Mode");
}

#[test]
fn local_clock_reads_as_a_valid_timestamp() {
    let now = now_local().unwrap();
    assert!(now.date.year >= 2024);
    assert!((1..=12).contains(&now.date.month));
    assert!((1..=31).contains(&now.date.day));
    assert!(now.hour <= 23 && now.minute <= 59 && now.second <= 59);
}
