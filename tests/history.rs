use ai_pulse::history::HistoryService;
use ai_pulse::models::{HistoryQuery, RetentionPolicy, UsageData, UsageLimit};

const DAY: i64 = 86400;

fn snap(provider: &str, account: &str, ts: i64, utilization: u32) -> UsageData {
    UsageData {
        provider: provider.to_string(),
        account_id: account.to_string(),
        account_name: "Default".to_string(),
        timestamp: ts,
        limits: vec![
            UsageLimit {
                id: "five_hour".to_string(),
                label: "5-hour".to_string(),
                utilization,
                resets_at: ts + 3600,
                category: None,
            },
            UsageLimit {
                id: "seven_day".to_string(),
                label: "7-day".to_string(),
                utilization: 1000,
                resets_at: ts + 7 * DAY,
                category: None,
            },
        ],
    }
}

fn query() -> HistoryQuery {
    HistoryQuery {
        provider: None,
        account_id: None,
        start_date: None,
        end_date: None,
        limit: None,
        offset: None,
    }
}

#[test]
fn duplicate_snapshot_stored_once() {
    let mut h = HistoryService::new();
    assert!(h.add_entry(&snap("alpha", "a", 1000, 5000)));
    assert!(!h.add_entry(&snap("alpha", "a", 1000, 7000)));
    assert_eq!(h.get_all_entries().len(), 1);
    assert_eq!(h.get_all_entries()[0].id, "1000-alpha-a");
    assert!(h.add_entry(&snap("alpha", "b", 1000, 7000)));
    assert_eq!(h.get_metadata().entry_count, 2);
}

#[test]
fn query_offset_past_end_is_empty() {
    let mut h = HistoryService::new();
    h.add_entry(&snap("alpha", "a", 1000, 5000));
    h.add_entry(&snap("alpha", "a", 2000, 5000));
    let mut q = query();
    q.offset = Some(2);
    assert!(h.query(&q).is_empty());
    q.offset = Some(50);
    assert!(h.query(&q).is_empty());
    q.offset = Some(1);
    assert_eq!(h.query(&q).len(), 1);
}

#[test]
fn query_filters_sorts_and_pages() {
    let mut h = HistoryService::new();
    h.add_entry(&snap("alpha", "a", 2000, 1));
    h.add_entry(&snap("alpha", "b", 3000, 2));
    h.add_entry(&snap("codex", "a", 4000, 3));
    h.add_entry(&snap("alpha", "a", 1000, 4));
    h.add_entry(&snap("alpha", "a", 3000, 5));
    let mut q = query();
    q.provider = Some("alpha".to_string());
    let r: Vec<i64> = h.query(&q).iter().map(|e| e.timestamp).collect();
    assert_eq!(r, vec![3000, 3000, 2000, 1000]);
    let ids: Vec<String> = h.query(&q).iter().map(|e| e.id.clone()).collect();
    assert_eq!(ids[0], "3000-alpha-b");
    assert_eq!(ids[1], "3000-alpha-a");
    q.account_id = Some("a".to_string());
    q.start_date = Some(1500);
    q.end_date = Some(3000);
    let r: Vec<i64> = h.query(&q).iter().map(|e| e.timestamp).collect();
    assert_eq!(r, vec![3000, 2000]);
    let mut q = query();
    q.limit = Some(2);
    q.offset = Some(1);
    let r: Vec<i64> = h.query(&q).iter().map(|e| e.timestamp).collect();
    assert_eq!(r, vec![3000, 3000]);
}

#[test]
fn cleanup_zero_days_keeps_everything() {
    let mut h = HistoryService::new();
    h.set_retention_policy(RetentionPolicy { retention_days: 0, auto_cleanup: true });
    h.add_entry(&snap("alpha", "a", 0, 1));
    h.add_entry(&snap("alpha", "a", 1, 1));
    assert_eq!(h.cleanup(1000 * DAY), 0);
    assert_eq!(h.get_all_entries().len(), 2);
    assert_eq!(h.get_metadata().last_cleanup, None);
}

#[test]
fn cleanup_thirty_days_removes_older() {
    let now = 100 * DAY;
    let mut h = HistoryService::new();
    h.add_entry(&snap("alpha", "a", now - 31 * DAY, 1));
    h.add_entry(&snap("alpha", "a", now - 30 * DAY, 1));
    h.add_entry(&snap("alpha", "a", now - 30 * DAY - 1, 1));
    h.add_entry(&snap("alpha", "a", now - DAY, 1));
    h.add_entry(&snap("alpha", "a", now - 60 * DAY, 1));
    assert_eq!(h.cleanup(now), 3);
    let left: Vec<i64> = h.get_all_entries().iter().map(|e| e.timestamp).collect();
    assert_eq!(left, vec![now - 30 * DAY, now - DAY]);
    let meta = h.get_metadata();
    assert_eq!(meta.last_cleanup, Some(now));
    assert_eq!(meta.retention_days, 30);
    assert_eq!(meta.oldest_entry, Some(now - 30 * DAY));
    assert_eq!(meta.newest_entry, Some(now - DAY));
}

#[test]
fn stats_with_no_match_is_none() {
    let mut h = HistoryService::new();
    assert!(h.get_stats("alpha", "five_hour", 0, 10_000).is_none());
    h.add_entry(&snap("alpha", "a", 50_000, 1));
    assert!(h.get_stats("alpha", "five_hour", 0, 10_000).is_none());
    assert!(h.get_stats("codex", "five_hour", 0, 100_000).is_none());
    assert!(h.get_stats("alpha", "opus", 0, 100_000).is_none());
}

#[test]
fn stats_aggregates() {
    let mut h = HistoryService::new();
    h.add_entry(&snap("alpha", "a", 100, 2000));
    h.add_entry(&snap("alpha", "a", 200, 5000));
    h.add_entry(&snap("alpha", "b", 300, 8001));
    h.add_entry(&snap("alpha", "a", 900, 9999));
    let s = h.get_stats("alpha", "five_hour", 100, 300).unwrap();
    assert_eq!(s.sample_count, 3);
    assert_eq!(s.max_utilization, 8001);
    assert_eq!(s.min_utilization, 2000);
    assert_eq!(s.avg_utilization, 5000);
    assert_eq!(s.provider, "alpha");
    assert_eq!(s.limit_id, "five_hour");
}

#[test]
fn export_csv_rows() {
    let mut h = HistoryService::new();
    h.add_entry(&snap("alpha", "a", 1736942400, 7505));
    let csv = h.export_csv(None);
    let lines: Vec<&str> = csv.lines().collect();
    assert_eq!(lines[0], "id,provider,timestamp,limit_id,utilization,resets_at");
    assert_eq!(
        lines[1],
        "1736942400-alpha-a,alpha,2025-01-15T12:00:00+00:00,five_hour,75.05,2025-01-15T13:00:00+00:00"
    );
    assert_eq!(
        lines[2],
        "1736942400-alpha-a,alpha,2025-01-15T12:00:00+00:00,seven_day,10.00,2025-01-22T12:00:00+00:00"
    );
    assert_eq!(lines.len(), 3);
    let mut q = query();
    q.provider = Some("codex".to_string());
    assert_eq!(h.export_csv(Some(&q)), "id,provider,timestamp,limit_id,utilization,resets_at\n");
}

#[test]
fn negative_timestamp_in_id() {
    let mut h = HistoryService::new();
    h.add_entry(&snap("alpha", "a", -5, 1));
    assert_eq!(h.get_all_entries()[0].id, "-5-alpha-a");
}

#[test]
fn loading_drops_duplicate_keys() {
    let mut a = HistoryService::new();
    a.add_entry(&snap("alpha", "a", 1, 1));
    let mut entries = a.get_all_entries().clone();
    entries.push(entries[0].clone());
    let h = HistoryService::from_entries(entries, Some(7), RetentionPolicy::default());
    assert_eq!(h.get_all_entries().len(), 1);
    assert_eq!(h.get_metadata().last_cleanup, Some(7));
    let mut h = h;
    h.clear_all();
    assert!(h.get_all_entries().is_empty());
}

#[test]
fn same_id_from_different_triples_stored_once() {
    let mut h = HistoryService::new();
    assert!(h.add_entry(&snap("a-b", "c", 0, 1)));
    assert!(!h.add_entry(&snap("a", "b-c", 0, 2)));
    assert_eq!(h.get_all_entries().len(), 1);
    assert_eq!(h.get_all_entries()[0].id, "0-a-b-c");
    assert_eq!(h.get_all_entries()[0].provider, "a-b");
}

#[test]
fn loading_keeps_first_of_each_id() {
    let mut a = HistoryService::new();
    a.add_entry(&snap("alpha", "x", 5, 1));
    let mut b = HistoryService::new();
    b.add_entry(&snap("beta", "y", 6, 2));
    let mut entries = a.get_all_entries().clone();
    let mut other = b.get_all_entries()[0].clone();
    other.id = entries[0].id.clone();
    entries.push(other);
    let h = HistoryService::from_entries(entries, None, RetentionPolicy::default());
    assert_eq!(h.get_all_entries().len(), 1);
    assert_eq!(h.get_all_entries()[0].provider, "alpha");
}
