//! The integration registry and its plugins: one concrete ticket-tracker
//! integration behind a closed sum, a manager that rebuilds the active list
//! wholesale from configuration entries, extraction across all active
//! plugins, and resolution by name for sync and connection-test planning.

use vstd::prelude::*;
use crate::config::{IntegrationConfig, IntegrationEntry};
use crate::extract::{
    compile_rules, extract_from_rules, kept_rules, rule_views, spec_extract, CompiledRule,
    SourceField,
};
use crate::record::{ActivityInfo, ActivityInfoV};
use crate::sync::{
    build_sync_request, build_test_request, spec_sync_body, spec_ticket_ok, spec_trim_slashes,
    SyncError, SyncRequest, TestRequest,
};
use crate::time::spec_format_date;
use crate::text::dec_value;

verus! {

/// Spec view of one active plugin.
pub struct PluginV {
    pub name: Seq<char>,
    pub enabled: bool,
    pub url: Seq<char>,
    pub api_key: Seq<char>,
    pub default_activity_id: Option<i64>,
    pub rules: Seq<(Seq<char>, SourceField)>,
}

/// The ticket-tracker integration: its configuration and the compiled
/// extraction rules.
pub struct RedmineIntegration {
    name: String,
    enabled: bool,
    url: String,
    api_key: String,
    default_activity_id: Option<i64>,
    rules: Vec<CompiledRule>,
}

impl View for RedmineIntegration {
    type V = PluginV;

    closed spec fn view(&self) -> PluginV {
        PluginV {
            name: self.name@,
            enabled: self.enabled,
            url: self.url@,
            api_key: self.api_key@,
            default_activity_id: self.default_activity_id,
            rules: rule_views(self.rules@),
        }
    }
}

impl RedmineIntegration {
    /// Every compiled rule matches its kept pattern.
    pub closed spec fn wf(self) -> bool {
        forall|i: int| 0 <= i < self.rules@.len() ==> (#[trigger] self.rules@[i]).wf()
    }

    /// Builds the integration from its configured settings, compiling the
    /// extraction rules and keeping exactly those that compile. Construction
    /// always succeeds; invalid rules are dropped, not fatal.
    pub fn new(name: String, enabled: bool, config: crate::config::RedmineConfig) -> (r: Result<
        RedmineIntegration,
        String,
    >)
        ensures
            r matches Ok(p) ==> {
                &&& p.wf()
                &&& p@.name == name@
                &&& p@.enabled == enabled
                &&& p@.url == config.url@
                &&& p@.api_key == config.api_key@
                &&& p@.default_activity_id == config.default_activity_id
                &&& p@.rules == kept_rules(config.rules@)
            },
            r is Ok,
    {
        let rules = compile_rules(&config.rules);
        Ok(
            RedmineIntegration {
                name,
                enabled,
                url: config.url,
                api_key: config.api_key,
                default_activity_id: config.default_activity_id,
                rules,
            },
        )
    }

    /// The plugin's configured name.
    pub fn name(&self) -> (r: &str)
        ensures
            r@ == self@.name,
    {
        self.name.as_str()
    }

    /// The human-readable service name.
    pub fn display_name(&self) -> (r: &'static str)
        ensures
            r@ == "Redmine"@,
    {
        "Redmine"
    }

    /// Whether the plugin is enabled.
    pub fn is_enabled(&self) -> (r: bool)
        ensures
            r == self@.enabled,
    {
        self.enabled
    }

    /// Runs this plugin's rules against a record; see `spec_extract`.
    pub fn extract_ticket_id(&self, activity: &ActivityInfo) -> (r: Option<String>)
        requires
            self.wf(),
        ensures
            r matches Some(s) ==> spec_extract(self@.rules, activity@) == Some(s@),
            r is None ==> spec_extract(self@.rules, activity@) is None,
    {
        extract_from_rules(&self.rules, activity)
    }

    /// Plans a time-entry request against this plugin's tracker.
    pub fn plan_sync(&self, activity: &ActivityInfo, ticket_id: &str) -> (r: Result<
        SyncRequest,
        SyncError,
    >)
        requires
            activity.start_time.wf(),
        ensures
            r is Ok <==> spec_ticket_ok(ticket_id@),
            r matches Ok(req) ==> {
                &&& req.url@ == spec_trim_slashes(self@.url) + "/time_entries.json"@
                &&& req.api_key@ == self@.api_key
                &&& req.body@ == spec_sync_body(
                    dec_value(ticket_id@),
                    activity.duration_seconds,
                    self@.default_activity_id,
                    activity.process_name@ + " - "@ + activity.window_title@,
                    spec_format_date(activity.start_time.date),
                )
            },
            r matches Err(e) ==> e matches SyncError::InvalidTicketId { ticket } && ticket@
                == ticket_id@,
    {
        build_sync_request(
            self.url.as_str(),
            self.api_key.as_str(),
            self.default_activity_id,
            activity,
            ticket_id,
        )
    }

    /// Plans this plugin's connection test.
    pub fn plan_test_connection(&self) -> (r: TestRequest)
        ensures
            r.url@ == spec_trim_slashes(self@.url) + "/users/current.json"@,
            r.api_key@ == self@.api_key,
    {
        build_test_request(self.url.as_str(), self.api_key.as_str())
    }
}

/// An active plugin: a closed sum over the supported service kinds.
pub enum Plugin {
    Redmine(RedmineIntegration),
}

impl View for Plugin {
    type V = PluginV;

    open spec fn view(&self) -> PluginV {
        match self {
            Plugin::Redmine(p) => p@,
        }
    }
}

impl Plugin {
    pub open spec fn wf(self) -> bool {
        match self {
            Plugin::Redmine(p) => p.wf(),
        }
    }

    /// The plugin's configured name.
    pub fn name(&self) -> (r: &str)
        ensures
            r@ == self@.name,
    {
        match self {
            Plugin::Redmine(p) => p.name(),
        }
    }

    /// Runs the plugin's extraction; see `spec_extract`.
    pub fn extract_ticket_id(&self, activity: &ActivityInfo) -> (r: Option<String>)
        requires
            self.wf(),
        ensures
            r matches Some(s) ==> spec_extract(self@.rules, activity@) == Some(s@),
            r is None ==> spec_extract(self@.rules, activity@) is None,
    {
        match self {
            Plugin::Redmine(p) => p.extract_ticket_id(activity),
        }
    }
}

/// The plugin a configuration entry loads into.
pub open spec fn spec_plugin_of(e: IntegrationEntry) -> PluginV {
    match e.config {
        IntegrationConfig::Redmine(c) => PluginV {
            name: e.name@,
            enabled: e.enabled,
            url: c.url@,
            api_key: c.api_key@,
            default_activity_id: c.default_activity_id,
            rules: kept_rules(c.rules@),
        },
    }
}

/// The active plugins a load constructs: one per enabled entry, in
/// configured order.
pub open spec fn spec_loaded(entries: Seq<IntegrationEntry>) -> Seq<PluginV>
    decreases entries.len(),
{
    if entries.len() == 0 {
        Seq::empty()
    } else {
        let rest = spec_loaded(entries.drop_last());
        let e = entries.last();
        if e.enabled {
            rest.push(spec_plugin_of(e))
        } else {
            rest
        }
    }
}

/// First active plugin carrying `name`, scanning from position `i`.
pub open spec fn spec_find_plugin(ps: Seq<PluginV>, name: Seq<char>, i: int) -> Option<int>
    decreases ps.len() - i,
{
    if i < 0 || i >= ps.len() {
        None
    } else if ps[i].name == name {
        Some(i)
    } else {
        spec_find_plugin(ps, name, i + 1)
    }
}

/// The first (plugin name, ticket) hit across the active plugins, in list
/// order, scanning from position `i`.
pub open spec fn spec_first_hit(ps: Seq<PluginV>, a: ActivityInfoV, i: int) -> Option<
    (Seq<char>, Seq<char>),
>
    decreases ps.len() - i,
{
    if i < 0 || i >= ps.len() {
        None
    } else {
        match spec_extract(ps[i].rules, a) {
            Some(t) => Some((ps[i].name, t)),
            None => spec_first_hit(ps, a, i + 1),
        }
    }
}

/// All (plugin name, ticket) hits across the active plugins, in list
/// order, scanning from position `i`.
pub open spec fn spec_all_hits(ps: Seq<PluginV>, a: ActivityInfoV, i: int) -> Seq<
    (Seq<char>, Seq<char>),
>
    decreases ps.len() - i,
{
    if i < 0 || i >= ps.len() {
        Seq::empty()
    } else {
        let rest = spec_all_hits(ps, a, i + 1);
        match spec_extract(ps[i].rules, a) {
            Some(t) => seq![(ps[i].name, t)] + rest,
            None => rest,
        }
    }
}

/// The integration registry: the wholesale-rebuilt list of active plugins.
pub struct PluginManager {
    plugins: Vec<Plugin>,
}

impl PluginManager {
    /// The active plugins, in configuration order.
    pub closed spec fn plugins_view(self) -> Seq<PluginV> {
        self.plugins@.map_values(|p: Plugin| p@)
    }

    pub closed spec fn wf(self) -> bool {
        forall|i: int| 0 <= i < self.plugins@.len() ==> (#[trigger] self.plugins@[i]).wf()
    }

    /// An empty registry.
    pub fn new() -> (r: PluginManager)
        ensures
            r.wf(),
            r.plugins_view() == Seq::<PluginV>::empty(),
    {
        let r = PluginManager { plugins: Vec::new() };
        proof {
            assert(r.plugins_view() =~= Seq::<PluginV>::empty());
        }
        r
    }

    /// Replaces the whole active list with one plugin per enabled entry, in
    /// configured order; disabled entries are discarded, and a rule that
    /// does not compile is dropped within its plugin, never fatal.
    pub fn load_entries(&mut self, entries: Vec<IntegrationEntry>) -> (r: Result<(), String>)
        ensures
            final(self).wf(),
            final(self).plugins_view() == spec_loaded(entries@),
            r is Ok,
    {
        self.plugins = Vec::new();
        let ghost all = entries@;
        let n = entries.len();
        let mut entries = entries;
        let mut i: usize = 0;
        proof {
            assert(self.plugins@.map_values(|p: Plugin| p@) =~= spec_loaded(
                all.subrange(0, 0),
            ));
        }
        // consume the entries front to back
        while i < n
            invariant
                n == all.len(),
                0 <= i <= n,
                entries@ == all,
                self.plugins@.map_values(|p: Plugin| p@) == spec_loaded(
                    all.subrange(0, i as int),
                ),
                forall|t: int| 0 <= t < self.plugins@.len() ==> (#[trigger] self.plugins@[t]).wf(),
            decreases n - i,
        {
            let ghost pre = all.subrange(0, i as int);
            let ghost cur = all.subrange(0, i as int + 1);
            proof {
                assert(cur.drop_last() =~= pre);
                assert(cur.last() == all[i as int]);
            }
            let entry = &entries[i];
            if entry.enabled {
                let name = entry.name.clone();
                let enabled = entry.enabled;
                let config = match &entry.config {
                    IntegrationConfig::Redmine(c) => crate::config::RedmineConfig {
                        url: c.url.clone(),
                        api_key: c.api_key.clone(),
                        default_activity_id: c.default_activity_id,
                        rules: clone_rules(&c.rules),
                    },
                };
                match RedmineIntegration::new(name, enabled, config) {
                    Ok(p) => {
                        self.plugins.push(Plugin::Redmine(p));
                        proof {
                            assert(self.plugins@.map_values(|p: Plugin| p@) =~= spec_loaded(cur));
                        }
                    },
                    Err(_) => {
                        proof {
                            assert(false);
                        }
                    },
                }
            } else {
                proof {
                    assert(self.plugins@.map_values(|p: Plugin| p@) =~= spec_loaded(cur));
                }
            }
            i = i + 1;
        }
        proof {
            assert(all.subrange(0, n as int) =~= all);
        }
        Ok(())
    }

    /// The active plugin names, in configuration order.
    pub fn list_plugins(&self) -> (r: Vec<String>)
        ensures
            r@.len() == self.plugins_view().len(),
            forall|i: int|
                0 <= i < r@.len() ==> (#[trigger] r@[i])@ == self.plugins_view()[i].name,
    {
        let mut out: Vec<String> = Vec::new();
        let n = self.plugins.len();
        let mut i: usize = 0;
        while i < n
            invariant
                n == self.plugins@.len(),
                0 <= i <= n,
                out@.len() == i,
                forall|t: int|
                    0 <= t < i ==> (#[trigger] out@[t])@ == self.plugins_view()[t].name,
            decreases n - i,
        {
            out.push(String::from_str(self.plugins[i].name()));
            i = i + 1;
        }
        out
    }

    /// Resolves a plugin by name: the first active plugin with that name.
    pub fn get_plugin(&self, name: &str) -> (r: Option<&Plugin>)
        requires
            self.wf(),
        ensures
            r matches Some(p) ==> {
                &&& spec_find_plugin(self.plugins_view(), name@, 0) matches Some(k) && p@
                    == self.plugins_view()[k]
                &&& p.wf()
            },
            r is None ==> spec_find_plugin(self.plugins_view(), name@, 0) is None,
    {
        let n = self.plugins.len();
        let mut i: usize = 0;
        while i < n
            invariant
                n == self.plugins@.len(),
                self.wf(),
                0 <= i <= n,
                spec_find_plugin(self.plugins_view(), name@, 0) == spec_find_plugin(
                    self.plugins_view(),
                    name@,
                    i as int,
                ),
            decreases n - i,
        {
            let p = &self.plugins[i];
            if str_eq(p.name(), name) {
                return Some(p);
            }
            i = i + 1;
        }
        None
    }

    /// The first (plugin name, ticket) extraction hit across the active
    /// plugins, in list order.
    pub fn extract_ticket_id(&self, activity: &ActivityInfo) -> (r: Option<(String, String)>)
        requires
            self.wf(),
        ensures
            r matches Some(hit) ==> spec_first_hit(self.plugins_view(), activity@, 0) == Some(
                (hit.0@, hit.1@),
            ),
            r is None ==> spec_first_hit(self.plugins_view(), activity@, 0) is None,
    {
        let n = self.plugins.len();
        let mut i: usize = 0;
        while i < n
            invariant
                n == self.plugins@.len(),
                self.wf(),
                0 <= i <= n,
                spec_first_hit(self.plugins_view(), activity@, 0) == spec_first_hit(
                    self.plugins_view(),
                    activity@,
                    i as int,
                ),
            decreases n - i,
        {
            let p = &self.plugins[i];
            match p.extract_ticket_id(activity) {
                Some(t) => {
                    return Some((String::from_str(p.name()), t));
                },
                None => {},
            }
            i = i + 1;
        }
        None
    }

    /// Every (plugin name, ticket) extraction hit across the active
    /// plugins, in list order.
    pub fn extract_all_ticket_ids(&self, activity: &ActivityInfo) -> (r: Vec<(String, String)>)
        requires
            self.wf(),
        ensures
            r@.map_values(|h: (String, String)| (h.0@, h.1@)) == spec_all_hits(
                self.plugins_view(),
                activity@,
                0,
            ),
    {
        let n = self.plugins.len();
        let mut i: usize = 0;
        let ghost pv = self.plugins_view();
        let mut collected: Vec<(String, String)> = Vec::new();
        while i < n
            invariant
                n == self.plugins@.len(),
                pv == self.plugins_view(),
                self.wf(),
                0 <= i <= n,
                spec_all_hits(pv, activity@, 0) == collected@.map_values(
                    |h: (String, String)| (h.0@, h.1@),
                ) + spec_all_hits(pv, activity@, i as int),
            decreases n - i,
        {
            let p = &self.plugins[i];
            let ghost before = collected@;
            match p.extract_ticket_id(activity) {
                Some(t) => {
                    let ghost tv = t@;
                    collected.push((String::from_str(p.name()), t));
                    proof {
                        assert(collected@.map_values(|h: (String, String)| (h.0@, h.1@)) =~= before.map_values(
                            |h: (String, String)| (h.0@, h.1@),
                        ).push((pv[i as int].name, tv)));
                        assert(seq![(pv[i as int].name, tv)] + spec_all_hits(
                            pv,
                            activity@,
                            i as int + 1,
                        ) =~= spec_all_hits(pv, activity@, i as int));
                        assert(before.map_values(|h: (String, String)| (h.0@, h.1@)).push(
                            (pv[i as int].name, tv),
                        ) + spec_all_hits(pv, activity@, i as int + 1) =~= before.map_values(
                            |h: (String, String)| (h.0@, h.1@),
                        ) + spec_all_hits(pv, activity@, i as int));
                    }
                },
                None => {},
            }
            i = i + 1;
        }
        proof {
            assert(spec_all_hits(pv, activity@, n as int) =~= Seq::<(Seq<char>, Seq<char>)>::empty());
            assert(collected@.map_values(|h: (String, String)| (h.0@, h.1@)) + Seq::<
                (Seq<char>, Seq<char>),
            >::empty() =~= collected@.map_values(|h: (String, String)| (h.0@, h.1@)));
        }
        collected
    }

    /// Resolves a plugin by name and plans a time-entry sync against it.
    /// The plugin is resolved first: an unknown name always fails with
    /// `PluginNotFound`; a known name with an unfitting ticket fails with
    /// `InvalidTicketId`; otherwise the planned request is the resolved
    /// plugin's.
    pub fn plan_sync(&self, plugin_name: &str, activity: &ActivityInfo, ticket_id: &str) -> (r:
        Result<SyncRequest, SyncError>)
        requires
            self.wf(),
            activity.start_time.wf(),
        ensures
            r is Ok <==> (spec_find_plugin(self.plugins_view(), plugin_name@, 0) is Some
                && spec_ticket_ok(ticket_id@)),
            spec_find_plugin(self.plugins_view(), plugin_name@, 0) is None ==> (r matches Err(
                SyncError::PluginNotFound { name },
            ) && name@ == plugin_name@),
            r matches Ok(req) ==> {
                &&& spec_find_plugin(self.plugins_view(), plugin_name@, 0) matches Some(k) && {
                    let p = self.plugins_view()[k];
                    &&& req.url@ == spec_trim_slashes(p.url) + "/time_entries.json"@
                    &&& req.api_key@ == p.api_key
                    &&& req.body@ == spec_sync_body(
                        dec_value(ticket_id@),
                        activity.duration_seconds,
                        p.default_activity_id,
                        activity.process_name@ + " - "@ + activity.window_title@,
                        spec_format_date(activity.start_time.date),
                    )
                }
            },
            r matches Err(e) ==> match e {
                SyncError::PluginNotFound { name } => name@ == plugin_name@ && spec_find_plugin(
                    self.plugins_view(),
                    plugin_name@,
                    0,
                ) is None,
                SyncError::InvalidTicketId { ticket } => ticket@ == ticket_id@ && !spec_ticket_ok(
                    ticket_id@,
                ),
                _ => false,
            },
    {
        match self.get_plugin(plugin_name) {
            None => Err(SyncError::PluginNotFound { name: String::from_str(plugin_name) }),
            Some(p) => match p {
                Plugin::Redmine(rp) => rp.plan_sync(activity, ticket_id),
            },
        }
    }

    /// Resolves a plugin by name and plans its connection test; fails with
    /// `PluginNotFound` for an unknown name.
    pub fn plan_test_connection(&self, plugin_name: &str) -> (r: Result<TestRequest, SyncError>)
        requires
            self.wf(),
        ensures
            r is Ok <==> spec_find_plugin(self.plugins_view(), plugin_name@, 0) is Some,
            r matches Ok(req) ==> spec_find_plugin(self.plugins_view(), plugin_name@, 0)
                matches Some(k) && {
                let p = self.plugins_view()[k];
                &&& req.url@ == spec_trim_slashes(p.url) + "/users/current.json"@
                &&& req.api_key@ == p.api_key
            },
            r matches Err(e) ==> e matches SyncError::PluginNotFound { name } && name@
                == plugin_name@,
    {
        match self.get_plugin(plugin_name) {
            None => Err(SyncError::PluginNotFound { name: String::from_str(plugin_name) }),
            Some(p) => match p {
                Plugin::Redmine(rp) => Ok(rp.plan_test_connection()),
            },
        }
    }
}

/// Compares two string slices by content.
fn str_eq(a: &str, b: &str) -> (r: bool)
    ensures
        r == (a@ == b@),
{
    let sa = String::from_str(a);
    let sb = String::from_str(b);
    sa.eq(&sb)
}

/// An equal copy of a rule list.
fn clone_rules(rules: &Vec<crate::config::ExtractionRule>) -> (r: Vec<crate::config::ExtractionRule>)
    ensures
        r@ == rules@,
{
    let mut out: Vec<crate::config::ExtractionRule> = Vec::new();
    let n = rules.len();
    let mut i: usize = 0;
    while i < n
        invariant
            n == rules@.len(),
            0 <= i <= n,
            out@ =~= rules@.subrange(0, i as int),
        decreases n - i,
    {
        out.push(
            crate::config::ExtractionRule {
                pattern: rules[i].pattern.clone(),
                source: rules[i].source.clone(),
            },
        );
        proof {
            assert(out@.last() == rules@[i as int]);
            assert(out@ =~= rules@.subrange(0, i as int + 1));
        }
        i = i + 1;
    }
    proof {
        assert(rules@.subrange(0, n as int) =~= rules@);
    }
    out
}

} // verus!
