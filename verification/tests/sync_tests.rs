use timetracker::record::ActivityInfo;
use timetracker::sync::{
    build_sync_request, build_test_request, interpret_sync_response, interpret_test_response,
    SyncError,
};
use timetracker::time::Timestamp;

fn info(process: &str, title: &str) -> ActivityInfo {
    ActivityInfo {
        id: 1,
        process_name: process.to_string(),
        window_title: title.to_string(),
        domain: None,
        start_time: Timestamp::new(2024, 1, 1, 10, 0, 0).unwrap(),
        end_time: Timestamp::new(2024, 1, 1, 10, 30, 0).unwrap(),
        duration_seconds: 1800,
    }
}

#[test]
fn created_response_yields_success_with_external_id() {
    let r = interpret_sync_response(201, "{\"time_entry\":{\"id\":55}}").unwrap();
    assert!(r.success);
    assert_eq!(r.external_id, Some("55".to_string()));
    assert_eq!(r.message, "Created time entry #55");
}

#[test]
fn unauthorized_response_carries_status_and_body() {
    let err = interpret_sync_response(401, "denied").unwrap_err();
    match err {
        SyncError::Remote { status, body } => {
            assert_eq!(status, 401);
            assert_eq!(body, "denied");
        }
        other => panic!("unexpected error: {:?}", other),
    }
}

#[test]
fn undecodable_success_body_is_a_parse_failure() {
    let err = interpret_sync_response(200, "{\"unexpected\":true}").unwrap_err();
    assert!(matches!(err, SyncError::ResponseParse));
}

#[test]
fn identifier_outside_the_entry_object_is_not_accepted() {
    let err = interpret_sync_response(200, "{\"time_entry\":\"x\",\"id\":7}").unwrap_err();
    assert!(matches!(err, SyncError::ResponseParse));
    let err = interpret_sync_response(200, "{\"time_entry\":{},\"id\":7}").unwrap_err();
    assert!(matches!(err, SyncError::ResponseParse));
}

#[test]
fn response_scan_tolerates_spacing() {
    let r = interpret_sync_response(200, "{ \"time_entry\" : { \"id\" :  907 } }").unwrap();
    assert_eq!(r.external_id, Some("907".to_string()));
}

#[test]
fn sync_request_carries_body_url_and_key() {
    let a = info("chrome.exe", "Bug report");
    let req = build_sync_request("https://tracker.example.com/", "SECRET-REDACTED", Some(9), &a, "42")
        .unwrap();
    assert_eq!(req.url, "https://tracker.example.com/time_entries.json");
    assert_eq!(req.api_key, "SECRET-REDACTED");
    assert_eq!(
        req.body,
        "{\"time_entry\":{\"issue_id\":42,\"hours\":0.500000,\"activity_id\":9,\
         \"comments\":\"chrome.exe - Bug report\",\"spent_on\":\"2024-01-01\"}}"
    );
}

#[test]
fn sync_request_without_activity_id_omits_the_field() {
    let a = info("a.exe", "t");
    let req = build_sync_request("https://x.example", "k", None, &a, "7").unwrap();
    assert!(!req.body.contains("activity_id"));
}

#[test]
fn comment_text_is_json_escaped() {
    let a = info("a.exe", "quote \" backslash \\ tab\t");
    let req = build_sync_request("https://x.example", "k", None, &a, "7").unwrap();
    assert!(req.body.contains("quote \\\" backslash \\\\ tab\\t"));
}

#[test]
fn invalid_ticket_ids_are_rejected() {
    let a = info("a.exe", "t");
    for bad in ["", "abc", "12x", "99999999999999999999999999"] {
        let err = build_sync_request("https://x.example", "k", None, &a, bad).unwrap_err();
        match err {
            SyncError::InvalidTicketId { ticket } => assert_eq!(ticket, bad),
            other => panic!("unexpected error: {:?}", other),
        }
    }
}

#[test]
fn test_request_targets_current_user_endpoint() {
    let req = build_test_request("https://tracker.example.com///", "key-1");
    assert_eq!(req.url, "https://tracker.example.com/users/current.json");
    assert_eq!(req.api_key, "key-1");
}

#[test]
fn test_response_success_requires_decodable_user() {
    assert!(interpret_test_response(200, "{\"user\":{\"id\":3,\"login\":\"me\"}}").unwrap());
    let err = interpret_test_response(200, "{}").unwrap_err();
    assert!(matches!(err, SyncError::ResponseParse));
    let err = interpret_test_response(401, "{}").unwrap_err();
    match err {
        SyncError::AuthenticationFailed { status } => assert_eq!(status, 401),
        other => panic!("unexpected error: {:?}", other),
    }
}
