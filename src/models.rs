//! Data of the usage poller: providers, credentials, snapshots, settings
//! and history records.
//!
//! Points in time are whole seconds since the Unix epoch (UTC).
//! Utilization is counted in hundredths of a percent: `7550` is 75.50%.

use std::collections::HashMap;
use vstd::prelude::*;
use vstd::string::*;

verus! {

/// Identifier of a usage provider.
#[derive(Debug, Clone, Copy, PartialEq, Eq, Structural, Hash)]
pub enum ProviderId {
    Claude,
    Codex,
}

/// Credentials for a provider.
#[derive(Debug, Clone)]
pub struct Credentials {
    /// Organization ID
    pub org_id: Option<String>,
    /// Session key
    pub session_key: Option<String>,
    /// API key
    pub api_key: Option<String>,
}

impl Default for Credentials {
    fn default() -> (r: Self)
        ensures
            r.org_id is None,
            r.session_key is None,
            r.api_key is None,
    {
        Credentials { org_id: None, session_key: None, api_key: None }
    }
}

/// A configured account of a provider.
#[derive(Debug, Clone)]
pub struct Account {
    pub id: String,
    pub name: String,
    pub provider: String,
    pub credentials: Credentials,
    pub created_at: i64,
}

/// A copy of optional text.
pub fn copy_text_opt(o: &Option<String>) -> (r: Option<String>)
    ensures
        r == *o,
{
    match o {
        Some(s) => Some(s.clone()),
        None => None,
    }
}

/// One usage limit as read from a provider.
#[derive(Debug, Clone)]
pub struct UsageLimit {
    pub id: String,
    pub label: String,
    /// Hundredths of a percent.
    pub utilization: u32,
    pub resets_at: i64,
    pub category: Option<String>,
}

impl UsageLimit {
    /// The utilization in whole percent, rounded down.
    pub open spec fn percent(&self) -> u32 {
        self.utilization / 100
    }

    pub fn duplicate(&self) -> (r: UsageLimit)
        ensures
            r == *self,
    {
        UsageLimit {
            id: self.id.clone(),
            label: self.label.clone(),
            utilization: self.utilization,
            resets_at: self.resets_at,
            category: copy_text_opt(&self.category),
        }
    }
}

/// A normalized usage snapshot of one account.
#[derive(Debug, Clone)]
pub struct UsageData {
    pub provider: String,
    pub account_id: String,
    pub account_name: String,
    pub timestamp: i64,
    pub limits: Vec<UsageLimit>,
}

impl UsageData {
    pub fn duplicate(&self) -> (r: UsageData)
        ensures
            r.provider == self.provider,
            r.account_id == self.account_id,
            r.account_name == self.account_name,
            r.timestamp == self.timestamp,
            r.limits@ == self.limits@,
    {
        let mut limits: Vec<UsageLimit> = Vec::new();
        let mut i: usize = 0;
        while i < self.limits.len()
            invariant
                i <= self.limits@.len(),
                limits@ =~= self.limits@.take(i as int),
            decreases self.limits@.len() - i,
        {
            limits.push(self.limits[i].duplicate());
            i = i + 1;
            assert(limits@ =~= self.limits@.take(i as int));
        }
        assert(limits@ =~= self.limits@);
        UsageData {
            provider: self.provider.clone(),
            account_id: self.account_id.clone(),
            account_name: self.account_name.clone(),
            timestamp: self.timestamp,
            limits,
        }
    }
}

/// Notification preferences.
#[derive(Debug, Clone)]
pub struct NotificationSettings {
    pub enabled: bool,
    /// Utilization thresholds in whole percent.
    pub thresholds: Vec<u32>,
    pub notify_on_reset: bool,
    pub notify_on_expiry: bool,
    pub dnd_enabled: bool,
    /// Start of the do-not-disturb window, as `HH:MM`.
    pub dnd_start_time: Option<String>,
    /// End of the do-not-disturb window, as `HH:MM`.
    pub dnd_end_time: Option<String>,
}

/// Configuration of one provider.
#[derive(Debug, Clone)]
pub struct ProviderConfig {
    pub id: ProviderId,
    pub enabled: bool,
    pub credentials: HashMap<String, String>,
}

/// Application settings.
#[derive(Debug, Clone)]
pub struct AppSettings {
    pub theme: String,
    pub language: String,
    pub launch_at_startup: bool,
    pub refresh_mode: String,
    pub refresh_interval: u32,
    pub notifications: NotificationSettings,
    pub providers: Vec<ProviderConfig>,
}

impl AppSettings {
    /// Whether the refresh mode is the adaptive one.
    pub open spec fn adaptive_spec(&self) -> bool {
        self.refresh_mode@ == "adaptive"@
    }

    pub fn is_adaptive(&self) -> (r: bool)
        ensures
            r == self.adaptive_spec(),
    {
        let adaptive = String::from_str("adaptive");
        self.refresh_mode == adaptive
    }
}

impl Default for AppSettings {
    fn default() -> (r: Self)
        ensures
            r.theme@ == "dark"@,
            r.language@ == "en"@,
            !r.launch_at_startup,
            r.refresh_mode@ == "adaptive"@,
            r.refresh_interval == 300,
            r.notifications.enabled,
            r.notifications.thresholds@ == seq![50u32, 75, 90],
            r.notifications.notify_on_reset,
            r.notifications.notify_on_expiry,
            !r.notifications.dnd_enabled,
            r.providers@.len() == 2,
            r.providers@[0].id == ProviderId::Claude,
            r.providers@[0].enabled,
            r.providers@[1].id == ProviderId::Codex,
            !r.providers@[1].enabled,
    {
        let thresholds: Vec<u32> = vec![50, 75, 90];
        let first = ProviderConfig {
            id: ProviderId::Claude,
            enabled: true,
            credentials: HashMap::new(),
        };
        let second = ProviderConfig {
            id: ProviderId::Codex,
            enabled: false,
            credentials: HashMap::new(),
        };
        let providers: Vec<ProviderConfig> = vec![first, second];
        let r = AppSettings {
            theme: String::from_str("dark"),
            language: String::from_str("en"),
            launch_at_startup: false,
            refresh_mode: String::from_str("adaptive"),
            refresh_interval: 300,
            notifications: NotificationSettings {
                enabled: true,
                thresholds,
                notify_on_reset: true,
                notify_on_expiry: true,
                dnd_enabled: false,
                dnd_start_time: None,
                dnd_end_time: None,
            },
            providers,
        };
        assert(r.notifications.thresholds@ =~= seq![50u32, 75, 90]);
        r
    }
}

/// Snapshot of one usage limit as kept in history.
#[derive(Debug, Clone)]
pub struct UsageLimitSnapshot {
    pub id: String,
    /// Hundredths of a percent.
    pub utilization: u32,
    pub resets_at: i64,
}

impl UsageLimitSnapshot {
    pub fn duplicate(&self) -> (r: UsageLimitSnapshot)
        ensures
            r == *self,
    {
        UsageLimitSnapshot {
            id: self.id.clone(),
            utilization: self.utilization,
            resets_at: self.resets_at,
        }
    }
}

/// A stored usage snapshot.
#[derive(Debug, Clone)]
pub struct UsageHistoryEntry {
    /// `timestamp-provider-account`
    pub id: String,
    pub provider: String,
    pub account_id: String,
    pub account_name: String,
    pub timestamp: i64,
    pub limits: Vec<UsageLimitSnapshot>,
}

impl UsageHistoryEntry {
    /// Equal in every field, the limits compared by their contents.
    pub open spec fn same(self, o: UsageHistoryEntry) -> bool {
        &&& self.id == o.id
        &&& self.provider == o.provider
        &&& self.account_id == o.account_id
        &&& self.account_name == o.account_name
        &&& self.timestamp == o.timestamp
        &&& self.limits@ == o.limits@
    }

    pub fn duplicate(&self) -> (r: UsageHistoryEntry)
        ensures
            r.same(*self),
    {
        let mut limits: Vec<UsageLimitSnapshot> = Vec::new();
        let mut i: usize = 0;
        while i < self.limits.len()
            invariant
                i <= self.limits@.len(),
                limits@ =~= self.limits@.take(i as int),
            decreases self.limits@.len() - i,
        {
            limits.push(self.limits[i].duplicate());
            i = i + 1;
            assert(limits@ =~= self.limits@.take(i as int));
        }
        assert(limits@ =~= self.limits@);
        UsageHistoryEntry {
            id: self.id.clone(),
            provider: self.provider.clone(),
            account_id: self.account_id.clone(),
            account_name: self.account_name.clone(),
            timestamp: self.timestamp,
            limits,
        }
    }
}

/// Derived facts about the stored history.
#[derive(Debug, Clone)]
pub struct HistoryMetadata {
    pub entry_count: usize,
    pub oldest_entry: Option<i64>,
    pub newest_entry: Option<i64>,
    pub last_cleanup: Option<i64>,
    pub retention_days: u32,
}

/// Filters for reading history.
#[derive(Debug, Clone)]
pub struct HistoryQuery {
    pub provider: Option<String>,
    pub account_id: Option<String>,
    /// Inclusive lower bound on the timestamp.
    pub start_date: Option<i64>,
    /// Inclusive upper bound on the timestamp.
    pub end_date: Option<i64>,
    /// At most this many results; 1000 when absent.
    pub limit: Option<usize>,
    /// Results skipped before the first one returned.
    pub offset: Option<usize>,
}

/// Aggregates of one limit's utilization over a period.
#[derive(Debug, Clone)]
pub struct UsageStats {
    pub provider: String,
    pub limit_id: String,
    pub period_start: i64,
    pub period_end: i64,
    /// Mean, rounded down, in hundredths of a percent.
    pub avg_utilization: u32,
    pub max_utilization: u32,
    pub min_utilization: u32,
    pub sample_count: usize,
}

/// How long history is kept.
#[derive(Debug, Clone, Copy, PartialEq, Eq, Structural)]
pub struct RetentionPolicy {
    /// Days to keep; 0 keeps everything.
    pub retention_days: u32,
    pub auto_cleanup: bool,
}

impl Default for RetentionPolicy {
    fn default() -> (r: Self)
        ensures
            r.retention_days == 30,
            r.auto_cleanup,
    {
        RetentionPolicy { retention_days: 30, auto_cleanup: true }
    }
}

} // verus!
