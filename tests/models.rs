use ai_pulse::credentials::CredentialService;
use ai_pulse::models::{AppSettings, Credentials, ProviderId, RetentionPolicy};

#[test]
fn credentials_default() {
    let creds = Credentials::default();
    assert!(creds.org_id.is_none());
    assert!(creds.session_key.is_none());
    assert!(creds.api_key.is_none());
}

#[test]
fn retention_policy_default() {
    let policy = RetentionPolicy::default();
    assert_eq!(policy.retention_days, 30);
    assert!(policy.auto_cleanup);
}

#[test]
fn app_settings_default() {
    let settings = AppSettings::default();
    assert_eq!(settings.theme, "dark");
    assert_eq!(settings.language, "en");
    assert!(!settings.launch_at_startup);
    assert_eq!(settings.refresh_mode, "adaptive");
    assert_eq!(settings.refresh_interval, 300);
    assert!(settings.notifications.enabled);
    assert_eq!(settings.notifications.thresholds, vec![50, 75, 90]);
    assert_eq!(settings.providers.len(), 2);
}

#[test]
fn default_providers() {
    let settings = AppSettings::default();
    assert_eq!(settings.providers[0].id, ProviderId::Claude);
    assert!(settings.providers[0].enabled);
    assert_eq!(settings.providers[1].id, ProviderId::Codex);
    assert!(!settings.providers[1].enabled);
}

#[test]
fn validate_claude_with_valid_credentials() {
    let creds = Credentials {
        org_id: Some("org-123".to_string()),
        session_key: Some("sk-ant-xxx".to_string()),
        api_key: None,
    };
    assert!(CredentialService::validate_claude(&creds));
}

#[test]
fn validate_claude_missing_org_id() {
    let creds = Credentials {
        org_id: None,
        session_key: Some("sk-ant-xxx".to_string()),
        api_key: None,
    };
    assert!(!CredentialService::validate_claude(&creds));
}

#[test]
fn validate_claude_missing_session_key() {
    let creds = Credentials {
        org_id: Some("org-123".to_string()),
        session_key: None,
        api_key: None,
    };
    assert!(!CredentialService::validate_claude(&creds));
}

#[test]
fn validate_claude_empty_org_id() {
    let creds = Credentials {
        org_id: Some("".to_string()),
        session_key: Some("sk-ant-xxx".to_string()),
        api_key: None,
    };
    assert!(!CredentialService::validate_claude(&creds));
}

#[test]
fn validate_claude_whitespace_only() {
    let creds = Credentials {
        org_id: Some("   ".to_string()),
        session_key: Some("sk-ant-xxx".to_string()),
        api_key: None,
    };
    assert!(!CredentialService::validate_claude(&creds));
}

#[test]
fn validate_claude_both_missing() {
    let creds = Credentials::default();
    assert!(!CredentialService::validate_claude(&creds));
}

#[test]
fn validate_claude_padded_values_pass() {
    let creds = Credentials {
        org_id: Some(" org \t".to_string()),
        session_key: Some("\u{2003}sk\n".to_string()),
        api_key: None,
    };
    assert!(CredentialService::validate_claude(&creds));
    let tabs = Credentials {
        org_id: Some("org".to_string()),
        session_key: Some("\t\n\u{2003}".to_string()),
        api_key: None,
    };
    assert!(!CredentialService::validate_claude(&tabs));
}

#[test]
fn adaptive_mode_is_read_from_settings() {
    let mut settings = AppSettings::default();
    assert!(settings.is_adaptive());
    settings.refresh_mode = "fixed".to_string();
    assert!(!settings.is_adaptive());
}

#[test]
fn blank_check_agrees_with_std_whitespace() {
    for u in 0u32..0x11_0000 {
        if let Some(c) = char::from_u32(u) {
            let creds = Credentials {
                org_id: Some(c.to_string()),
                session_key: Some("sk".to_string()),
                api_key: None,
            };
            assert_eq!(CredentialService::validate_claude(&creds), !c.is_whitespace(), "U+{:04X}", u);
        }
    }
}
