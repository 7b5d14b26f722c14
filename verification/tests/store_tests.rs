use timetracker::record::NewActivity;
use timetracker::store::{ActivityStore, StoreError};
use timetracker::time::{Date, Timestamp};

fn ts(y: u32, mo: u32, d: u32, h: u32, mi: u32, s: u32) -> Timestamp {
    Timestamp::new(y, mo, d, h, mi, s).unwrap()
}

fn activity(process: &str, domain: Option<&str>, start: Timestamp, end: Timestamp) -> NewActivity {
    NewActivity {
        process_name: process.to_string(),
        window_title: String::new(),
        domain: domain.map(|d| d.to_string()),
        start_time: start,
        end_time: end,
        duration_seconds: end.to_secs() - start.to_secs(),
    }
}

#[test]
fn append_assigns_increasing_ids_from_one() {
    let mut store = ActivityStore::new();
    let a = activity("a.exe", None, ts(2024, 1, 1, 9, 0, 0), ts(2024, 1, 1, 9, 5, 0));
    let b = activity("b.exe", None, ts(2024, 1, 1, 9, 5, 0), ts(2024, 1, 1, 9, 6, 0));
    assert_eq!(store.append(a).unwrap(), 1);
    assert_eq!(store.append(b).unwrap(), 2);
    assert_eq!(store.len(), 2);
}

#[test]
fn query_range_filters_by_day_and_sorts_by_start() {
    let mut store = ActivityStore::new();
    // appended out of start order, on two different days
    store
        .append(activity("late.exe", None, ts(2024, 3, 5, 18, 0, 0), ts(2024, 3, 5, 18, 30, 0)))
        .unwrap();
    store
        .append(activity("other.exe", None, ts(2024, 3, 6, 9, 0, 0), ts(2024, 3, 6, 9, 10, 0)))
        .unwrap();
    store
        .append(activity("early.exe", None, ts(2024, 3, 5, 8, 0, 0), ts(2024, 3, 5, 8, 45, 0)))
        .unwrap();
    let day = store.query_range(Date { year: 2024, month: 3, day: 5 });
    assert_eq!(day.len(), 2);
    assert_eq!(day[0].process_name, "early.exe");
    assert_eq!(day[1].process_name, "late.exe");
    let other = store.query_range(Date { year: 2024, month: 3, day: 6 });
    assert_eq!(other.len(), 1);
    assert_eq!(other[0].process_name, "other.exe");
    let none = store.query_range(Date { year: 2024, month: 3, day: 7 });
    assert!(none.is_empty());
}

#[test]
fn end_to_end_single_browser_record() {
    let mut store = ActivityStore::new();
    store
        .append(activity(
            "chrome.exe",
            Some("tracker.example.com"),
            ts(2024, 1, 1, 10, 0, 0),
            ts(2024, 1, 1, 10, 30, 0),
        ))
        .unwrap();

    let day = Date { year: 2024, month: 1, day: 1 };
    let records = store.query_range(day);
    assert_eq!(records.len(), 1);
    assert_eq!(records[0].process_name, "chrome.exe");
    assert_eq!(records[0].duration_seconds, 1800);

    let domains = store.aggregate_by_domain(day);
    assert_eq!(domains.len(), 1);
    assert_eq!(domains[0].key, "tracker.example.com");
    assert_eq!(domains[0].total_seconds, 1800);
    assert_eq!(domains[0].grand_total, 1800);
    let pct = domains[0].total_seconds as f64 / domains[0].grand_total as f64 * 100.0;
    assert_eq!(pct, 100.0);
}

#[test]
fn aggregate_by_process_groups_ranks_and_sums_to_hundred() {
    let mut store = ActivityStore::new();
    let day = Date { year: 2024, month: 2, day: 2 };
    let spans = [
        ("a.exe", 9, 0, 100u64),
        ("b.exe", 10, 0, 200),
        ("c.exe", 11, 0, 700),
        ("a.exe", 12, 0, 33),
    ];
    for (name, h, mi, dur) in spans {
        let start = ts(2024, 2, 2, h, mi, 0);
        let end = Timestamp::new(2024, 2, 2, h, mi + (dur / 60) as u32, (dur % 60) as u32).unwrap();
        assert_eq!(end.to_secs() - start.to_secs(), dur);
        store.append(activity(name, None, start, end)).unwrap();
    }
    let rows = store.aggregate_by_process(day);
    assert_eq!(rows.len(), 3);
    assert_eq!(rows[0].key, "c.exe");
    assert_eq!(rows[0].total_seconds, 700);
    assert_eq!(rows[1].key, "b.exe");
    assert_eq!(rows[1].total_seconds, 200);
    assert_eq!(rows[2].key, "a.exe");
    assert_eq!(rows[2].total_seconds, 133);

    let grand: u64 = rows.iter().map(|r| r.total_seconds).sum();
    assert_eq!(grand, 1033);
    for row in &rows {
        assert_eq!(row.grand_total, grand);
    }
    let float_sum: f64 = rows
        .iter()
        .map(|r| r.total_seconds as f64 / r.grand_total as f64 * 100.0)
        .sum();
    assert!((float_sum - 100.0).abs() < 0.01);
}

#[test]
fn percentages_of_many_equal_groups_still_sum_to_hundred() {
    // six processes of one second each: per-row rounding would drift, the
    // exact shares do not
    let mut store = ActivityStore::new();
    let day = Date { year: 2024, month: 5, day: 5 };
    for (i, name) in ["a", "b", "c", "d", "e", "f"].iter().enumerate() {
        let start = ts(2024, 5, 5, 9, i as u32, 0);
        let end = ts(2024, 5, 5, 9, i as u32, 1);
        store.append(activity(name, None, start, end)).unwrap();
    }
    let rows = store.aggregate_by_process(day);
    assert_eq!(rows.len(), 6);
    let float_sum: f64 = rows
        .iter()
        .map(|r| r.total_seconds as f64 / r.grand_total as f64 * 100.0)
        .sum();
    assert!((float_sum - 100.0).abs() < 0.01);
}

#[test]
fn aggregate_of_empty_day_is_empty() {
    let store = ActivityStore::new();
    let day = Date { year: 2024, month: 1, day: 1 };
    assert!(store.aggregate_by_process(day).is_empty());
    assert!(store.aggregate_by_domain(day).is_empty());
}

#[test]
fn domain_aggregation_skips_missing_and_empty_domains() {
    let mut store = ActivityStore::new();
    let day = Date { year: 2024, month: 4, day: 4 };
    store
        .append(activity("a.exe", None, ts(2024, 4, 4, 9, 0, 0), ts(2024, 4, 4, 9, 1, 0)))
        .unwrap();
    store
        .append(activity("b.exe", Some(""), ts(2024, 4, 4, 10, 0, 0), ts(2024, 4, 4, 10, 1, 0)))
        .unwrap();
    store
        .append(activity(
            "c.exe",
            Some("site.example"),
            ts(2024, 4, 4, 11, 0, 0),
            ts(2024, 4, 4, 11, 2, 0),
        ))
        .unwrap();
    let rows = store.aggregate_by_domain(day);
    assert_eq!(rows.len(), 1);
    assert_eq!(rows[0].key, "site.example");
    assert_eq!(rows[0].total_seconds, 120);
}

#[test]
fn append_reports_capacity_exhaustion() {
    let mut store = ActivityStore::new();
    let start = ts(2024, 1, 1, 0, 0, 0);
    let end = ts(2024, 1, 1, 0, 0, 1);
    let mut oversized = activity("a.exe", None, start, end);
    oversized.duration_seconds = u64::MAX;
    assert_eq!(store.append(oversized).unwrap(), 1);
    let next = activity("b.exe", None, start, end);
    assert_eq!(store.append(next), Err(StoreError::CapacityExceeded));
    assert_eq!(store.len(), 1);
}
