use ai_pulse::output::{format_duration, format_time_until};

#[test]
fn test_format_duration() {
    assert_eq!(format_duration(30), "30s");
    assert_eq!(format_duration(90), "1m");
    assert_eq!(format_duration(3600), "1h 0m");
    assert_eq!(format_duration(3660), "1h 1m");
    assert_eq!(format_duration(86400), "1d 0h");
    assert_eq!(format_duration(90000), "1d 1h");
}

#[test]
fn format_duration_negative_is_expired() {
    assert_eq!(format_duration(-1), "expired");
    assert_eq!(format_duration(0), "0s");
}

#[test]
fn format_time_until_reads_rfc3339() {
    // 2025-01-15T12:00:00Z is 1736942400 seconds after the epoch.
    let now = 1736942400 - 3660;
    assert_eq!(format_time_until("2025-01-15T12:00:00Z", now), "1h 1m");
    assert_eq!(format_time_until("2025-01-15T12:00:00+00:00", now + 3660 + 5), "expired");
    assert_eq!(format_time_until("not a time", now), "unknown");
}
