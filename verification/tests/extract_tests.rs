use timetracker::config::ExtractionRule;
use timetracker::extract::{compile_rules, extract_from_rules, source_field_of, SourceField};
use timetracker::record::ActivityInfo;
use timetracker::time::Timestamp;

fn info(process: &str, title: &str, domain: Option<&str>) -> ActivityInfo {
    let start = Timestamp::new(2024, 1, 1, 10, 0, 0).unwrap();
    let end = Timestamp::new(2024, 1, 1, 10, 30, 0).unwrap();
    ActivityInfo {
        id: 1,
        process_name: process.to_string(),
        window_title: title.to_string(),
        domain: domain.map(|d| d.to_string()),
        start_time: start,
        end_time: end,
        duration_seconds: 1800,
    }
}

fn rule(pattern: &str, source: &str) -> ExtractionRule {
    ExtractionRule { pattern: pattern.to_string(), source: source.to_string() }
}

#[test]
fn extraction_is_order_sensitive() {
    let rules = compile_rules(&vec![
        rule(r"#(\d+)", "window_title"),
        rule(r"ISSUE-(\d+)", "window_title"),
    ]);
    let a = info("chrome.exe", "Fix #42 ISSUE-7", None);
    assert_eq!(extract_from_rules(&rules, &a), Some("42".to_string()));

    let reversed = compile_rules(&vec![
        rule(r"ISSUE-(\d+)", "window_title"),
        rule(r"#(\d+)", "window_title"),
    ]);
    assert_eq!(extract_from_rules(&reversed, &a), Some("7".to_string()));
}

#[test]
fn invalid_patterns_are_dropped_not_fatal() {
    let rules = compile_rules(&vec![
        rule(r"(unclosed", "window_title"),
        rule(r"#(\d+)", "window_title"),
    ]);
    assert_eq!(rules.len(), 1);
    let a = info("a.exe", "see #9", None);
    assert_eq!(extract_from_rules(&rules, &a), Some("9".to_string()));
}

#[test]
fn no_matching_rule_yields_no_ticket() {
    let rules = compile_rules(&vec![rule(r"#(\d+)", "window_title")]);
    let a = info("a.exe", "no ticket here", None);
    assert_eq!(extract_from_rules(&rules, &a), None);
}

#[test]
fn source_selector_picks_the_right_field() {
    assert_eq!(source_field_of(&"process_name".to_string()), SourceField::ProcessName);
    assert_eq!(source_field_of(&"domain".to_string()), SourceField::Domain);
    assert_eq!(source_field_of(&"window_title".to_string()), SourceField::WindowTitle);
    assert_eq!(source_field_of(&"anything else".to_string()), SourceField::WindowTitle);

    let a = info("proc-77", "title #1", Some("host-12.example"));
    let by_proc = compile_rules(&vec![rule(r"proc-(\d+)", "process_name")]);
    assert_eq!(extract_from_rules(&by_proc, &a), Some("77".to_string()));
    let by_domain = compile_rules(&vec![rule(r"host-(\d+)", "domain")]);
    assert_eq!(extract_from_rules(&by_domain, &a), Some("12".to_string()));
}

#[test]
fn absent_domain_reads_as_empty_text() {
    let rules = compile_rules(&vec![rule(r"(\d+)", "domain")]);
    let a = info("a.exe", "title 99", None);
    assert_eq!(extract_from_rules(&rules, &a), None);
}

#[test]
fn rule_matching_but_empty_group_does_not_win() {
    // the first rule matches with an empty capture; the second should win
    let rules = compile_rules(&vec![
        rule(r"t(x*)", "window_title"),
        rule(r"#(\d+)", "window_title"),
    ]);
    let a = info("a.exe", "ticket #5", None);
    assert_eq!(extract_from_rules(&rules, &a), Some("5".to_string()));
}
