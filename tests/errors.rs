use ai_pulse::api::{urlencoding_encode, ApiError};
use ai_pulse::error::{AppError, ProviderError};

#[test]
fn provider_error_messages() {
    assert_eq!(
        ProviderError::SessionExpired.to_string(),
        "Session expired - please update your credentials"
    );
    assert_eq!(
        ProviderError::CloudflareBlocked.to_string(),
        "Access blocked by Cloudflare - try again later"
    );
    assert_eq!(
        ProviderError::RateLimited.to_string(),
        "Rate limited - please wait before retrying"
    );
}

#[test]
fn provider_error_http() {
    let err = ProviderError::HttpError("connection refused".to_string());
    assert_eq!(err.to_string(), "HTTP request failed: connection refused");
}

#[test]
fn provider_error_missing_credentials() {
    let err = ProviderError::MissingCredentials("codex".to_string());
    assert_eq!(err.to_string(), "Missing credentials for provider: codex");
}

#[test]
fn app_error_from_provider_error() {
    let provider_err = ProviderError::SessionExpired;
    let app_err: AppError = provider_err.into();
    assert!(app_err.to_string().contains("Session expired"));
}

#[test]
fn provider_error_other_messages() {
    assert_eq!(
        ProviderError::ParseError("bad json".to_string()).to_string(),
        "Invalid response format: bad json"
    );
    assert_eq!(
        ProviderError::InvalidCredentials("x".to_string()).to_string(),
        "Invalid credentials: x"
    );
}

#[test]
fn authentication_class_errors() {
    assert!(ProviderError::SessionExpired.is_authentication_error());
    assert!(ProviderError::MissingCredentials("org_id".to_string()).is_authentication_error());
    assert!(ProviderError::InvalidCredentials("x".to_string()).is_authentication_error());
    assert!(!ProviderError::CloudflareBlocked.is_authentication_error());
    assert!(!ProviderError::RateLimited.is_authentication_error());
    assert!(!ProviderError::HttpError("401".to_string()).is_authentication_error());
    assert!(!ProviderError::ParseError("x".to_string()).is_authentication_error());
    assert!(!AppError::Store("x".to_string()).is_authentication_error());
}

#[test]
fn app_error_messages() {
    assert_eq!(AppError::Store("disk".to_string()).to_string(), "Store error: disk");
    assert_eq!(AppError::Serialization("eof".to_string()).to_string(), "Serialization error: eof");
    assert_eq!(AppError::RateLimit("wait".to_string()).to_string(), "Rate limited: wait");
    assert_eq!(
        AppError::Provider(ProviderError::RateLimited).to_string(),
        "Provider error: Rate limited - please wait before retrying"
    );
}

#[test]
fn api_error_messages() {
    assert_eq!(
        ApiError::ServerError(500, "boom".to_string()).to_string(),
        "Server error (500): boom"
    );
    assert_eq!(
        ApiError::ParseError("eof".to_string()).to_string(),
        "Failed to parse response: eof"
    );
    assert!(ApiError::Unauthorized.to_string().starts_with("Authentication failed\n\n"));
    let m = ApiError::ConnectionFailed("refused".to_string()).to_string();
    assert!(m.starts_with("Could not connect to AI Pulse\n\nrefused\n\nTo fix this:"));
}

#[test]
fn url_encoding_of_query_values() {
    assert_eq!(urlencoding_encode("2025-01-15T12:00:00+00:00"), "2025-01-15T12%3A00%3A00%2B00%3A00");
    assert_eq!(urlencoding_encode("a b~_.-Z9"), "a%20b~_.-Z9");
    assert_eq!(urlencoding_encode("/?&"), "%2F%3F%26");
    assert_eq!(urlencoding_encode("\u{e9}"), "%E9");
    assert_eq!(urlencoding_encode("\u{20ac}"), "%AC");
    assert_eq!(urlencoding_encode(""), "");
}
