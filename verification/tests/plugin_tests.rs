use timetracker::config::{
    ExtractionRule, IntegrationConfig, IntegrationEntry, IntegrationsConfig, RedmineConfig,
};
use timetracker::plugin::{PluginManager, RedmineIntegration};
use timetracker::record::ActivityInfo;
use timetracker::sync::SyncError;
use timetracker::time::Timestamp;

fn info(title: &str) -> ActivityInfo {
    ActivityInfo {
        id: 1,
        process_name: "chrome.exe".to_string(),
        window_title: title.to_string(),
        domain: None,
        start_time: Timestamp::new(2024, 1, 1, 10, 0, 0).unwrap(),
        end_time: Timestamp::new(2024, 1, 1, 10, 30, 0).unwrap(),
        duration_seconds: 1800,
    }
}

fn entry(name: &str, enabled: bool, pattern: &str) -> IntegrationEntry {
    IntegrationEntry {
        name: name.to_string(),
        enabled,
        config: IntegrationConfig::Redmine(RedmineConfig {
            url: format!("https://{}.example.com", name),
            api_key: "SECRET-REDACTED".to_string(),
            default_activity_id: None,
            rules: vec![ExtractionRule {
                pattern: pattern.to_string(),
                source: "window_title".to_string(),
            }],
        }),
    }
}

#[test]
fn load_keeps_enabled_entries_in_order() {
    let mut mgr = PluginManager::new();
    assert!(mgr.list_plugins().is_empty());
    mgr.load_entries(vec![
        entry("first", true, r"#(\d+)"),
        entry("disabled", false, r"#(\d+)"),
        entry("second", true, r"ISSUE-(\d+)"),
    ])
    .unwrap();
    assert_eq!(mgr.list_plugins(), vec!["first".to_string(), "second".to_string()]);
}

#[test]
fn reload_replaces_the_whole_list() {
    let mut mgr = PluginManager::new();
    mgr.load_entries(vec![entry("old", true, r"#(\d+)")]).unwrap();
    mgr.load_entries(vec![entry("new", true, r"#(\d+)")]).unwrap();
    assert_eq!(mgr.list_plugins(), vec!["new".to_string()]);
    assert!(mgr.get_plugin("old").is_none());
    assert!(mgr.get_plugin("new").is_some());
}

#[test]
fn first_hit_and_all_hits_follow_plugin_order() {
    let mut mgr = PluginManager::new();
    mgr.load_entries(vec![
        entry("hash", true, r"#(\d+)"),
        entry("issue", true, r"ISSUE-(\d+)"),
    ])
    .unwrap();
    let a = info("Fix #42 ISSUE-7");
    let (plugin, ticket) = mgr.extract_ticket_id(&a).unwrap();
    assert_eq!(plugin, "hash");
    assert_eq!(ticket, "42");
    let all = mgr.extract_all_ticket_ids(&a);
    assert_eq!(
        all,
        vec![("hash".to_string(), "42".to_string()), ("issue".to_string(), "7".to_string())]
    );
}

#[test]
fn unknown_plugin_name_is_not_found() {
    let mgr = PluginManager::new();
    let a = info("t #1");
    match mgr.plan_sync("absent", &a, "1").unwrap_err() {
        SyncError::PluginNotFound { name } => assert_eq!(name, "absent"),
        other => panic!("unexpected error: {:?}", other),
    }
    match mgr.plan_test_connection("absent").unwrap_err() {
        SyncError::PluginNotFound { name } => assert_eq!(name, "absent"),
        other => panic!("unexpected error: {:?}", other),
    }
}

#[test]
fn manager_plans_sync_through_the_named_plugin() {
    let mut mgr = PluginManager::new();
    mgr.load_entries(vec![entry("mine", true, r"#(\d+)")]).unwrap();
    let a = info("Bug #8");
    let req = mgr.plan_sync("mine", &a, "8").unwrap();
    assert_eq!(req.url, "https://mine.example.com/time_entries.json");
    let test = mgr.plan_test_connection("mine").unwrap();
    assert_eq!(test.url, "https://mine.example.com/users/current.json");
}

#[test]
fn integration_reports_name_and_enabled_flag() {
    let e = entry("mine", true, r"#(\d+)");
    let IntegrationConfig::Redmine(cfg) = e.config;
    let p = RedmineIntegration::new(e.name, e.enabled, cfg).unwrap();
    assert_eq!(p.name(), "mine");
    assert_eq!(p.display_name(), "Redmine");
    assert!(p.is_enabled());
    assert_eq!(p.extract_ticket_id(&info("see #31")), Some("31".to_string()));
}

#[test]
fn sample_config_matches_its_contract() {
    let sample = IntegrationsConfig::create_sample();
    assert_eq!(sample.integrations.len(), 1);
    let e = &sample.integrations[0];
    assert_eq!(e.name, "my-redmine");
    assert!(!e.enabled);
    let IntegrationConfig::Redmine(cfg) = &e.config;
    assert_eq!(cfg.url, "https://redmine.example.com");
    assert_eq!(cfg.default_activity_id, Some(9));
    assert_eq!(cfg.rules.len(), 2);
    assert_eq!(cfg.rules[0].pattern, r"#(\d+)");
    let upload = sample.upload.as_ref().unwrap();
    assert!(!upload.enabled);
    assert_eq!(upload.auto_upload_interval_minutes, 60);
}
