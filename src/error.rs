//! Errors of the providers and of the application.

use vstd::prelude::*;
use vstd::string::*;

verus! {

/// What a provider reports when a usage fetch fails.
#[derive(Debug, Clone)]
pub enum ProviderError {
    HttpError(String),
    SessionExpired,
    CloudflareBlocked,
    RateLimited,
    ParseError(String),
    MissingCredentials(String),
    InvalidCredentials(String),
}

impl ProviderError {
    /// The user-facing message of the error.
    pub open spec fn message(&self) -> Seq<char> {
        match self {
            ProviderError::HttpError(m) => "HTTP request failed: "@ + m@,
            ProviderError::SessionExpired => "Session expired - please update your credentials"@,
            ProviderError::CloudflareBlocked => "Access blocked by Cloudflare - try again later"@,
            ProviderError::RateLimited => "Rate limited - please wait before retrying"@,
            ProviderError::ParseError(m) => "Invalid response format: "@ + m@,
            ProviderError::MissingCredentials(m) => "Missing credentials for provider: "@ + m@,
            ProviderError::InvalidCredentials(m) => "Invalid credentials: "@ + m@,
        }
    }

    /// An authentication-class failure: the stored session or credentials
    /// are no longer usable. Only these count towards pausing an account.
    pub open spec fn is_auth_class(&self) -> bool {
        match self {
            ProviderError::SessionExpired => true,
            ProviderError::MissingCredentials(_) => true,
            ProviderError::InvalidCredentials(_) => true,
            _ => false,
        }
    }

    pub fn to_string(&self) -> (r: String)
        ensures
            r@ == self.message(),
    {
        match self {
            ProviderError::HttpError(m) => prefixed("HTTP request failed: ", m),
            ProviderError::SessionExpired => String::from_str(
                "Session expired - please update your credentials",
            ),
            ProviderError::CloudflareBlocked => String::from_str(
                "Access blocked by Cloudflare - try again later",
            ),
            ProviderError::RateLimited => String::from_str(
                "Rate limited - please wait before retrying",
            ),
            ProviderError::ParseError(m) => prefixed("Invalid response format: ", m),
            ProviderError::MissingCredentials(m) => prefixed(
                "Missing credentials for provider: ",
                m,
            ),
            ProviderError::InvalidCredentials(m) => prefixed("Invalid credentials: ", m),
        }
    }

    pub fn is_authentication_error(&self) -> (r: bool)
        ensures
            r == self.is_auth_class(),
    {
        match self {
            ProviderError::SessionExpired => true,
            ProviderError::MissingCredentials(_) => true,
            ProviderError::InvalidCredentials(_) => true,
            _ => false,
        }
    }
}

/// `head` followed by `tail`.
pub fn prefixed(head: &str, tail: &String) -> (r: String)
    ensures
        r@ == head@ + tail@,
{
    let mut r = String::from_str(head);
    r.append(tail.as_str());
    r
}

/// Errors of the application's operations.
#[derive(Debug, Clone)]
pub enum AppError {
    Provider(ProviderError),
    Store(String),
    Serialization(String),
    RateLimit(String),
}

impl AppError {
    pub open spec fn message(&self) -> Seq<char> {
        match self {
            AppError::Provider(e) => "Provider error: "@ + e.message(),
            AppError::Store(m) => "Store error: "@ + m@,
            AppError::Serialization(m) => "Serialization error: "@ + m@,
            AppError::RateLimit(m) => "Rate limited: "@ + m@,
        }
    }

    /// Whether the error is an authentication-class provider failure.
    pub open spec fn is_auth_class(&self) -> bool {
        match self {
            AppError::Provider(e) => e.is_auth_class(),
            _ => false,
        }
    }

    pub fn to_string(&self) -> (r: String)
        ensures
            r@ == self.message(),
    {
        match self {
            AppError::Provider(e) => {
                let inner = e.to_string();
                prefixed("Provider error: ", &inner)
            },
            AppError::Store(m) => prefixed("Store error: ", m),
            AppError::Serialization(m) => prefixed("Serialization error: ", m),
            AppError::RateLimit(m) => prefixed("Rate limited: ", m),
        }
    }

    pub fn is_authentication_error(&self) -> (r: bool)
        ensures
            r == self.is_auth_class(),
    {
        match self {
            AppError::Provider(e) => e.is_authentication_error(),
            _ => false,
        }
    }
}

impl From<ProviderError> for AppError {
    fn from(e: ProviderError) -> (r: AppError) {
        AppError::Provider(e)
    }
}

impl vstd::std_specs::convert::FromSpecImpl<ProviderError> for AppError {
    open spec fn obeys_from_spec() -> bool {
        true
    }

    open spec fn from_spec(e: ProviderError) -> AppError {
        AppError::Provider(e)
    }
}

} // verus!
