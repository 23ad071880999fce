use ai_pulse::error::{AppError, ProviderError};
use ai_pulse::history::HistoryService;
use ai_pulse::models::{Account, AppSettings, Credentials, UsageData, UsageLimit};
use ai_pulse::scheduler::{SchedulerService, SchedulerState, TickAction};

fn account(id: &str) -> Account {
    Account {
        id: id.to_string(),
        name: format!("{} name", id),
        provider: "alpha".to_string(),
        credentials: Credentials {
            org_id: Some("org".to_string()),
            session_key: Some("sk".to_string()),
            api_key: None,
        },
        created_at: 0,
    }
}

fn usage(id: &str, ts: i64, utilization: u32) -> UsageData {
    UsageData {
        provider: "alpha".to_string(),
        account_id: id.to_string(),
        account_name: format!("{} name", id),
        timestamp: ts,
        limits: vec![UsageLimit {
            id: "five_hour".to_string(),
            label: "5-hour".to_string(),
            utilization,
            resets_at: ts + 7200,
            category: None,
        }],
    }
}

fn auth_failure() -> Result<UsageData, AppError> {
    Err(AppError::Provider(ProviderError::SessionExpired))
}

#[test]
fn set_interval_applies_floor() {
    let mut state = SchedulerState::new();
    for (x, want) in [(0u64, 10u64), (5, 10), (10, 10), (11, 11), (300, 300), (u64::MAX, u64::MAX)] {
        let ev = SchedulerService::set_interval(&mut state, x);
        assert_eq!(state.get_interval(), want);
        assert_eq!(ev.interval_secs, want);
        assert_eq!(ev.next_refresh_secs, None);
    }
}

#[test]
fn force_refresh_rate_limited_within_floor() {
    let mut state = SchedulerState::new();
    let t1: u64 = 1_700_000_000_000;
    assert_eq!(SchedulerService::force_refresh(&mut state, t1).unwrap(), true);
    SchedulerService::end_fetch(&mut state);
    match SchedulerService::force_refresh(&mut state, t1 + 9_999) {
        Err(AppError::RateLimit(m)) => assert_eq!(m, "Please wait before refreshing again"),
        other => panic!("expected a rate limit, got {:?}", other),
    }
    assert_eq!(SchedulerService::force_refresh(&mut state, t1 + 10_000).unwrap(), true);
    assert_eq!(state.get_last_fetch(), t1 + 10_000);
}

#[test]
fn fetch_skipped_while_cycle_runs() {
    let mut state = SchedulerState::new();
    assert!(SchedulerService::begin_fetch(&mut state, 50_000));
    assert!(!SchedulerService::begin_fetch(&mut state, 100_000));
    assert_eq!(state.get_last_fetch(), 50_000);
    SchedulerService::end_fetch(&mut state);
    assert!(SchedulerService::begin_fetch(&mut state, 100_000));
}

#[test]
fn three_auth_failures_pause_account() {
    let mut state = SchedulerState::new();
    let mut history = HistoryService::new();
    let settings = AppSettings::default();
    let a = account("acc-a");
    let mut max = 0u32;
    for n in 1..=3u64 {
        let out = SchedulerService::process_account_result(
            &mut state, &mut history, &settings, &a, auth_failure(), &mut max, 0, false,
        );
        let ev = out.session.unwrap();
        assert_eq!(ev.error_count, n);
        assert_eq!(ev.paused, n == 3);
        assert!(out.expiry_notice);
    }
    assert!(state.is_account_paused("acc-a"));
    assert_eq!(state.get_account_error_count("acc-a"), 3);
    SchedulerService::process_account_result(
        &mut state, &mut history, &settings, &a, auth_failure(), &mut max, 0, false,
    );
    assert!(state.is_account_paused("acc-a"));
    assert_eq!(state.get_account_error_count("acc-a"), 3);
    assert!(state.any_account_paused());
}

#[test]
fn transient_failure_leaves_counts() {
    let mut state = SchedulerState::new();
    let mut history = HistoryService::new();
    let settings = AppSettings::default();
    let a = account("acc-a");
    let mut max = 0u32;
    let out = SchedulerService::process_account_result(
        &mut state,
        &mut history,
        &settings,
        &a,
        Err(AppError::Provider(ProviderError::CloudflareBlocked)),
        &mut max,
        0,
        false,
    );
    assert!(out.session.is_none());
    assert!(!out.expiry_notice);
    assert_eq!(
        out.update.error.as_deref(),
        Some("Provider error: Access blocked by Cloudflare - try again later")
    );
    assert_eq!(state.get_account_error_count("acc-a"), 0);
}

#[test]
fn success_clears_errors_and_records_history() {
    let mut state = SchedulerState::new();
    let mut history = HistoryService::new();
    let settings = AppSettings::default();
    let a = account("acc-a");
    let mut max = 0u32;
    SchedulerService::process_account_result(
        &mut state, &mut history, &settings, &a, auth_failure(), &mut max, 0, false,
    );
    assert_eq!(state.get_account_error_count("acc-a"), 1);
    let out = SchedulerService::process_account_result(
        &mut state, &mut history, &settings, &a, Ok(usage("acc-a", 1000, 4250)), &mut max, 1000, false,
    );
    let ev = out.session.unwrap();
    assert!(ev.valid);
    assert_eq!(state.get_account_error_count("acc-a"), 0);
    assert!(!state.is_account_paused("acc-a"));
    assert_eq!(max, 4250);
    assert_eq!(history.get_all_entries().len(), 1);
    assert_eq!(out.update.data.unwrap().limits[0].utilization, 4250);
    assert!(state.get_previous_usage("acc-a").is_some());
}

#[test]
fn poll_cycle_skips_paused_account() {
    let mut state = SchedulerState::new();
    state.set_account_paused("acc-a", true);
    let ids = vec!["acc-a".to_string(), "acc-b".to_string()];
    assert_eq!(SchedulerService::accounts_to_fetch(&state, &ids), vec![1]);
    state.reset_all_account_states();
    assert_eq!(SchedulerService::accounts_to_fetch(&state, &ids), vec![0, 1]);
}

#[test]
fn adaptive_bands() {
    assert_eq!(SchedulerService::adaptive_interval(9500), 60);
    assert_eq!(SchedulerService::adaptive_interval(8000), 180);
    assert_eq!(SchedulerService::adaptive_interval(6000), 300);
    assert_eq!(SchedulerService::adaptive_interval(1000), 600);
    assert_eq!(SchedulerService::adaptive_interval(9000), 60);
    assert_eq!(SchedulerService::adaptive_interval(8999), 180);
    assert_eq!(SchedulerService::adaptive_interval(7500), 180);
    assert_eq!(SchedulerService::adaptive_interval(5000), 300);
    assert_eq!(SchedulerService::adaptive_interval(4999), 600);
}

#[test]
fn adaptive_interval_announced_only_on_change() {
    let mut state = SchedulerState::new();
    let ev = SchedulerService::maybe_adjust_interval_from_utilization(&mut state, 9500, true).unwrap();
    assert_eq!(ev.interval_secs, 60);
    assert_eq!(state.get_interval(), 60);
    assert!(SchedulerService::maybe_adjust_interval_from_utilization(&mut state, 9100, true).is_none());
    assert!(SchedulerService::maybe_adjust_interval_from_utilization(&mut state, 100, false).is_none());
    assert_eq!(state.get_interval(), 60);
}

#[test]
fn start_and_stop_are_idempotent() {
    let mut state = SchedulerState::new();
    let ev = SchedulerService::start(&mut state, Some(120)).unwrap();
    assert!(ev.running);
    assert_eq!(ev.interval_secs, 120);
    assert!(SchedulerService::start(&mut state, Some(600)).is_none());
    assert_eq!(state.get_interval(), 120);
    assert!(SchedulerService::stop(&mut state).is_some());
    assert!(SchedulerService::stop(&mut state).is_none());
    assert!(!state.is_running());
    let status = SchedulerService::get_status(&state);
    assert!(!status.running);
    assert_eq!(status.interval_secs, 120);
}

#[test]
fn tick_decisions() {
    assert_eq!(SchedulerService::tick_action(31, 0, 300), TickAction::WakeFetch);
    assert_eq!(SchedulerService::tick_action(30, 300, 300), TickAction::Fetch);
    assert_eq!(SchedulerService::tick_action(1, 299, 300), TickAction::Idle);
}

#[test]
fn resume_clears_every_account() {
    let mut state = SchedulerState::new();
    state.set_account_paused("a", true);
    state.set_account_paused("b", true);
    state.increment_account_error_count("a");
    assert!(SchedulerService::get_session_status(&state).paused);
    assert_eq!(SchedulerService::resume(&mut state, 1_000_000).unwrap(), true);
    let status = SchedulerService::get_session_status(&state);
    assert!(!status.paused);
    assert!(status.valid);
    assert_eq!(state.get_account_error_count("a"), 0);
}

#[test]
fn credentials_checked_before_fetch() {
    let mut a = account("acc-a");
    assert!(SchedulerService::check_account_credentials(&a).is_ok());
    a.credentials.session_key = Some("  ".to_string());
    match SchedulerService::check_account_credentials(&a) {
        Err(ProviderError::InvalidCredentials(m)) => {
            assert_eq!(m, "Missing org_id or session_key for account acc-a name")
        }
        other => panic!("unexpected {:?}", other),
    }
}
