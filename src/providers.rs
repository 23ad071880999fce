//! What the user interface is told about the usage providers.

use vstd::prelude::*;

verus! {

/// Provider availability status
#[derive(Debug, Clone, Copy, PartialEq, Eq, Structural)]
pub enum ProviderStatus {
    /// Provider is fully functional
    Available,
    /// Provider is implemented but blocked (e.g., no usage API)
    Blocked,
    /// Provider is planned but not yet implemented
    Planned,
}

/// Describes a credential field for the UI
#[derive(Debug, Clone)]
pub struct CredentialField {
    pub key: String,
    pub label: String,
    pub placeholder: String,
    pub is_secret: bool,
}

/// Metadata about a provider for the UI
#[derive(Debug, Clone)]
pub struct ProviderMetadata {
    pub id: String,
    pub name: String,
    pub status: ProviderStatus,
    pub required_credentials: Vec<CredentialField>,
    pub description: Option<String>,
}

} // verus!
