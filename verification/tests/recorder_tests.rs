use timetracker::record::FocusSample;
use timetracker::recorder::Recorder;
use timetracker::time::Timestamp;

fn ts(h: u32, mi: u32, s: u32) -> Timestamp {
    Timestamp::new(2024, 1, 1, h, mi, s).unwrap()
}

fn sample(process: &str, title: &str) -> FocusSample {
    FocusSample {
        process_name: process.to_string(),
        window_title: title.to_string(),
        domain: None,
    }
}

#[test]
fn idle_tick_without_tracking_emits_nothing() {
    let mut r = Recorder::new();
    assert!(r.tick(false, None, ts(10, 0, 0)).is_none());
    assert!(r.tick(false, Some(sample("a.exe", "A")), ts(10, 0, 1)).is_none());
}

#[test]
fn focus_change_closes_previous_interval() {
    let mut r = Recorder::new();
    assert!(r.tick(true, Some(sample("a.exe", "A")), ts(10, 0, 0)).is_none());
    assert!(r.tick(true, Some(sample("a.exe", "A")), ts(10, 0, 1)).is_none());
    let emitted = r.tick(true, Some(sample("b.exe", "B")), ts(10, 0, 5)).unwrap();
    assert_eq!(emitted.process_name, "a.exe");
    assert_eq!(emitted.window_title, "A");
    assert_eq!(emitted.start_time, ts(10, 0, 0));
    assert_eq!(emitted.end_time, ts(10, 0, 5));
    assert_eq!(emitted.duration_seconds, 5);
}

#[test]
fn probe_miss_keeps_interval_accumulating() {
    let mut r = Recorder::new();
    assert!(r.tick(true, Some(sample("a.exe", "A")), ts(10, 0, 0)).is_none());
    assert!(r.tick(true, None, ts(10, 0, 1)).is_none());
    let emitted = r.tick(false, None, ts(10, 0, 9)).unwrap();
    assert_eq!(emitted.duration_seconds, 9);
}

#[test]
fn sub_second_flicker_is_discarded() {
    let mut r = Recorder::new();
    let t = ts(10, 0, 0);
    assert!(r.tick(true, Some(sample("a.exe", "A")), t).is_none());
    // focus changes within the same second: the open interval has zero
    // duration and is dropped, a fresh one opens
    assert!(r.tick(true, Some(sample("b.exe", "B")), t).is_none());
    let emitted = r.tick(true, Some(sample("c.exe", "C")), ts(10, 0, 2)).unwrap();
    assert_eq!(emitted.process_name, "b.exe");
    assert_eq!(emitted.duration_seconds, 2);
}

#[test]
fn empty_process_name_is_never_emitted() {
    let mut r = Recorder::new();
    assert!(r.tick(true, Some(sample("", "title")), ts(10, 0, 0)).is_none());
    assert!(r.tick(false, None, ts(10, 0, 10)).is_none());
}

#[test]
fn clock_moving_backwards_discards_segment() {
    let mut r = Recorder::new();
    assert!(r.tick(true, Some(sample("a.exe", "A")), ts(10, 0, 30)).is_none());
    // the clock jumped back before the interval could close
    assert!(r.tick(false, None, ts(10, 0, 0)).is_none());
}

#[test]
fn pause_then_resume_emits_exactly_one_interval() {
    let mut r = Recorder::new();
    assert!(r.tick(true, Some(sample("a.exe", "A")), ts(10, 0, 0)).is_none());
    // toggle off: the open segment is emitted
    let first = r.tick(false, None, ts(10, 0, 20)).unwrap();
    assert_eq!(first.process_name, "a.exe");
    assert_eq!(first.start_time, ts(10, 0, 0));
    assert_eq!(first.end_time, ts(10, 0, 20));
    // re-enable: a fresh interval opens, nothing is emitted
    assert!(r.tick(true, Some(sample("a.exe", "A")), ts(10, 1, 0)).is_none());
    let second = r.tick(false, None, ts(10, 1, 30)).unwrap();
    assert_eq!(second.start_time, ts(10, 1, 0));
    assert_eq!(second.end_time, ts(10, 1, 30));
}

#[test]
fn emitted_intervals_are_ordered_and_disjoint() {
    let mut r = Recorder::new();
    let names = ["a.exe", "b.exe", "a.exe", "c.exe", "b.exe"];
    let mut emitted = Vec::new();
    let mut clock = 0u32;
    for (k, name) in names.iter().enumerate() {
        if let Some(iv) = r.tick(true, Some(sample(name, "w")), ts(10, k as u32, clock % 60)) {
            emitted.push(iv);
        }
        clock += 7;
    }
    if let Some(iv) = r.tick(false, None, ts(11, 0, 0)) {
        emitted.push(iv);
    }
    assert!(emitted.len() >= 2);
    for iv in &emitted {
        assert!(iv.duration_seconds >= 1);
        assert!(iv.end_time.to_secs() - iv.start_time.to_secs() == iv.duration_seconds);
    }
    for pair in emitted.windows(2) {
        assert!(pair[0].end_time.to_secs() <= pair[1].start_time.to_secs());
        assert!(pair[0].start_time.to_secs() < pair[1].start_time.to_secs());
    }
}
