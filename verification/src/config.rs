//! The configuration model: integration entries (name, enabled flag, tagged
//! per-service settings with ordered extraction rules) and the optional
//! upload-destination block. Reading and writing the configuration document
//! on disk is unverified glue; this module holds the plain model and its
//! defaults.

use vstd::prelude::*;

verus! {

/// One ticket-extraction rule: a regex pattern (its first capture group is
/// the ticket identifier) and the record field it reads
/// (`window_title` | `process_name` | `domain`).
#[derive(Clone, Debug)]
pub struct ExtractionRule {
    pub pattern: String,
    pub source: String,
}

/// Settings of a ticket-tracker integration: base URL, credential, optional
/// default activity category, and the ordered extraction rules.
#[derive(Clone, Debug)]
pub struct RedmineConfig {
    pub url: String,
    pub api_key: String,
    pub default_activity_id: Option<i64>,
    pub rules: Vec<ExtractionRule>,
}

/// Integration-specific settings, tagged by service kind.
#[derive(Clone, Debug)]
pub enum IntegrationConfig {
    Redmine(RedmineConfig),
}

/// One configured integration: unique name, enabled flag, settings.
#[derive(Clone, Debug)]
pub struct IntegrationEntry {
    pub name: String,
    pub enabled: bool,
    pub config: IntegrationConfig,
}

/// The upload-destination block: server URL, enabled and auto-upload flags,
/// and the auto-upload interval in minutes.
#[derive(Clone, Debug)]
pub struct UploadConfig {
    pub server_url: String,
    pub enabled: bool,
    pub auto_upload: bool,
    pub auto_upload_interval_minutes: u32,
}

/// The whole configuration document: integration entries in configured
/// order, and an optional upload block.
#[derive(Clone, Debug)]
pub struct IntegrationsConfig {
    pub integrations: Vec<IntegrationEntry>,
    pub upload: Option<UploadConfig>,
}

/// The enabled flag an entry gets when the document does not set one.
pub fn default_enabled() -> (r: bool)
    ensures
        r == true,
{
    true
}

/// The auto-upload interval (in minutes) used when the document does not
/// set one.
pub fn default_upload_interval() -> (r: u32)
    ensures
        r == 60,
{
    60
}

impl Default for UploadConfig {
    /// An inactive upload block: empty URL, everything off, the default
    /// interval.
    fn default() -> (r: UploadConfig)
        ensures
            r.server_url@ == Seq::<char>::empty(),
            !r.enabled,
            !r.auto_upload,
            r.auto_upload_interval_minutes == 60,
    {
        UploadConfig {
            server_url: String::new(),
            enabled: false,
            auto_upload: false,
            auto_upload_interval_minutes: 60,
        }
    }
}

impl Default for IntegrationsConfig {
    /// An empty document: no integrations, no upload block.
    fn default() -> (r: IntegrationsConfig)
        ensures
            r.integrations@.len() == 0,
            r.upload is None,
    {
        IntegrationsConfig { integrations: Vec::new(), upload: None }
    }
}

impl IntegrationsConfig {
    /// A sample document to hand a new user: one disabled ticket-tracker
    /// entry with two title rules, and a disabled upload block.
    pub fn create_sample() -> (r: IntegrationsConfig)
        ensures
            r.integrations@.len() == 1,
            r.integrations@[0].name@ == "my-redmine"@,
            !r.integrations@[0].enabled,
            r.integrations@[0].config matches IntegrationConfig::Redmine(c) && {
                &&& c.url@ == "https://redmine.example.com"@
                &&& c.api_key@ == "your-api-key-here"@
                &&& c.default_activity_id == Some(9i64)
                &&& c.rules@.len() == 2
                &&& c.rules@[0].pattern@ == "#(\\d+)"@
                &&& c.rules@[0].source@ == "window_title"@
                &&& c.rules@[1].pattern@ == "Issue (\\d+)"@
                &&& c.rules@[1].source@ == "window_title"@
            },
            r.upload matches Some(u) && u.server_url@
                == "https://timetracker.example.com/api/upload"@ && !u.enabled && !u.auto_upload
                && u.auto_upload_interval_minutes == 60,
    {
        let mut rules: Vec<ExtractionRule> = Vec::new();
        rules.push(
            ExtractionRule {
                pattern: String::from_str("#(\\d+)"),
                source: String::from_str("window_title"),
            },
        );
        rules.push(
            ExtractionRule {
                pattern: String::from_str("Issue (\\d+)"),
                source: String::from_str("window_title"),
            },
        );
        let mut integrations: Vec<IntegrationEntry> = Vec::new();
        integrations.push(
            IntegrationEntry {
                name: String::from_str("my-redmine"),
                enabled: false,
                config: IntegrationConfig::Redmine(
                    RedmineConfig {
                        url: String::from_str("https://redmine.example.com"),
                        api_key: String::from_str("your-api-key-here"),
                        default_activity_id: Some(9),
                        rules,
                    },
                ),
            },
        );
        IntegrationsConfig {
            integrations,
            upload: Some(
                UploadConfig {
                    server_url: String::from_str("https://timetracker.example.com/api/upload"),
                    enabled: false,
                    auto_upload: false,
                    auto_upload_interval_minutes: 60,
                },
            ),
        }
    }
}

} // verus!
