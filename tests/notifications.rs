use ai_pulse::models::{AppSettings, NotificationSettings, UsageData, UsageLimit};
use ai_pulse::notifications::{Alert, NotificationService, NotificationState};

fn settings() -> NotificationSettings {
    AppSettings::default().notifications
}

fn usage(percent: u32) -> UsageData {
    UsageData {
        provider: "alpha".to_string(),
        account_id: "acc".to_string(),
        account_name: "Work".to_string(),
        timestamp: 0,
        limits: vec![UsageLimit {
            id: "five_hour".to_string(),
            label: "5-hour".to_string(),
            utilization: percent * 100,
            resets_at: 100_000,
            category: None,
        }],
    }
}

fn thresholds_alerted(alerts: &[Alert]) -> Vec<u32> {
    alerts
        .iter()
        .filter_map(|a| match a {
            Alert::Threshold { threshold, .. } => Some(*threshold),
            _ => None,
        })
        .collect()
}

#[test]
fn state_marks_and_clears() {
    let mut s = NotificationState::new();
    assert!(!s.was_threshold_notified("a", "l", 50));
    s.mark_threshold_notified("a", "l", 50);
    s.mark_threshold_notified("a", "l", 75);
    s.mark_threshold_notified("a", "m", 90);
    assert!(s.was_threshold_notified("a", "l", 50));
    s.clear_thresholds_above("a", "l", 60);
    assert!(s.was_threshold_notified("a", "l", 50));
    assert!(!s.was_threshold_notified("a", "l", 75));
    assert!(s.was_threshold_notified("a", "m", 90));
    s.clear_threshold("a", "l", 50);
    assert!(!s.was_threshold_notified("a", "l", 50));
    s.mark_reset_warning_sent("a", "l");
    assert!(s.was_reset_warning_sent("a", "l"));
    assert!(!s.was_reset_warning_sent("b", "l"));
    s.clear_reset_warning("a", "l");
    assert!(!s.was_reset_warning_sent("a", "l"));
}

#[test]
fn thresholds_alert_once_and_rearm_after_drop() {
    let mut s = NotificationState::new();
    let cfg = settings();
    let mut seen = Vec::new();
    for p in [40u32, 55, 80] {
        let out = NotificationService::process_usage(&mut s, &cfg, &usage(p), None, false);
        seen.extend(thresholds_alerted(&out.alerts));
    }
    assert_eq!(seen, vec![50, 75]);
    let out = NotificationService::process_usage(&mut s, &cfg, &usage(60), None, false);
    assert!(out.alerts.is_empty());
    assert!(s.was_threshold_notified("acc", "five_hour", 50));
    assert!(!s.was_threshold_notified("acc", "five_hour", 75));
    let out = NotificationService::process_usage(&mut s, &cfg, &usage(76), None, false);
    assert_eq!(thresholds_alerted(&out.alerts), vec![75]);
}

#[test]
fn reset_detected_on_large_drop() {
    let mut s = NotificationState::new();
    let cfg = settings();
    NotificationService::process_usage(&mut s, &cfg, &usage(85), None, false);
    s.mark_threshold_notified("acc", "five_hour", 100);
    s.mark_reset_warning_sent("acc", "five_hour");
    let prev = usage(85);
    let out = NotificationService::process_usage(&mut s, &cfg, &usage(10), Some(&prev), false);
    assert_eq!(out.resets, vec![0]);
    assert_eq!(out.alerts, vec![Alert::Reset { limit: 0, percent: 10 }]);
    for t in [50, 75, 90, 100] {
        assert!(!s.was_threshold_notified("acc", "five_hour", t));
    }
    assert!(!s.was_reset_warning_sent("acc", "five_hour"));
}

#[test]
fn no_reset_on_small_drop() {
    let mut s = NotificationState::new();
    let cfg = settings();
    let prev = usage(85);
    let out = NotificationService::process_usage(&mut s, &cfg, &usage(50), Some(&prev), false);
    assert!(out.resets.is_empty());
    assert_eq!(thresholds_alerted(&out.alerts), vec![50]);
    let prev = usage(45);
    let out = NotificationService::process_usage(&mut s, &cfg, &usage(0), Some(&prev), false);
    assert!(out.resets.is_empty());
}

#[test]
fn dnd_suppresses_without_marking() {
    let mut s = NotificationState::new();
    let cfg = settings();
    let out = NotificationService::process_usage(&mut s, &cfg, &usage(80), None, true);
    assert!(out.alerts.is_empty());
    assert!(!s.was_threshold_notified("acc", "five_hour", 50));
    let out = NotificationService::process_usage(&mut s, &cfg, &usage(80), None, false);
    assert_eq!(thresholds_alerted(&out.alerts), vec![50, 75]);
}

#[test]
fn disabled_notifications_do_nothing() {
    let mut s = NotificationState::new();
    let mut cfg = settings();
    cfg.enabled = false;
    let out = NotificationService::process_usage(&mut s, &cfg, &usage(95), None, false);
    assert!(out.alerts.is_empty());
    assert!(!s.was_threshold_notified("acc", "five_hour", 50));
}

#[test]
fn upcoming_reset_warns_once() {
    let mut s = NotificationState::new();
    let cfg = settings();
    let data = usage(80);
    let limit = &data.limits[0];
    let now = limit.resets_at - 1800;
    let a = NotificationService::check_upcoming_reset(&mut s, &cfg, "acc", 0, limit, now, false);
    assert_eq!(a, Some(Alert::ResetSoon { limit: 0, minutes: 30, percent: 80 }));
    let again = NotificationService::check_upcoming_reset(&mut s, &cfg, "acc", 0, limit, now, false);
    assert_eq!(again, None);
    let mut t = NotificationState::new();
    let far = limit.resets_at - 3601;
    assert_eq!(NotificationService::check_upcoming_reset(&mut t, &cfg, "acc", 0, limit, far, false), None);
    let past = limit.resets_at;
    assert_eq!(NotificationService::check_upcoming_reset(&mut t, &cfg, "acc", 0, limit, past, false), None);
    let low = usage(74);
    assert_eq!(
        NotificationService::check_upcoming_reset(&mut t, &cfg, "acc", 0, &low.limits[0], now, false),
        None
    );
}

#[test]
fn dnd_window_with_midnight_wrap() {
    let mut cfg = settings();
    cfg.dnd_enabled = true;
    cfg.dnd_start_time = Some("22:00".to_string());
    cfg.dnd_end_time = Some("08:00".to_string());
    assert!(NotificationService::is_dnd_active(&cfg, 23 * 60));
    assert!(NotificationService::is_dnd_active(&cfg, 7 * 60 + 59));
    assert!(!NotificationService::is_dnd_active(&cfg, 8 * 60));
    assert!(!NotificationService::is_dnd_active(&cfg, 12 * 60));
    cfg.dnd_start_time = Some("09:30".to_string());
    cfg.dnd_end_time = Some("17:00".to_string());
    assert!(NotificationService::is_dnd_active(&cfg, 9 * 60 + 30));
    assert!(!NotificationService::is_dnd_active(&cfg, 17 * 60));
    cfg.dnd_end_time = Some("late".to_string());
    assert!(!NotificationService::is_dnd_active(&cfg, 10 * 60));
    cfg.dnd_enabled = false;
    cfg.dnd_end_time = Some("17:00".to_string());
    assert!(!NotificationService::is_dnd_active(&cfg, 10 * 60));
}

#[test]
fn session_expiry_notice_rules() {
    let mut cfg = settings();
    assert!(NotificationService::send_session_expiry_warning(&cfg, false));
    assert!(!NotificationService::send_session_expiry_warning(&cfg, true));
    cfg.notify_on_expiry = false;
    assert!(!NotificationService::send_session_expiry_warning(&cfg, false));
}

#[test]
fn alert_texts() {
    let a = Alert::Threshold { limit: 0, threshold: 75, percent: 120 };
    assert_eq!(a.title(), "75% Usage Alert");
    assert_eq!(a.body("Work", "5-hour"), "[Work] 5-hour is at 100% usage");
    assert_eq!(a.body("Default", "5-hour"), "5-hour is at 100% usage");
    let r = Alert::Reset { limit: 0, percent: 3 };
    assert_eq!(r.title(), "Usage Reset");
    assert_eq!(r.body("", "7-day"), "7-day has reset! Now at 3%");
    let s = Alert::ResetSoon { limit: 1, minutes: 42, percent: 80 };
    assert_eq!(s.title(), "Limit Reset Soon");
    assert_eq!(s.body("Home", "7-day"), "[Home] 7-day will reset in 42 minutes (currently at 80%)");
}
