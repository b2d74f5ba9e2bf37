//! The requests of a home server, which keeps user profiles.

use vstd::prelude::*;

verus! {

/// A user's public profile.
#[derive(Clone, Debug)]
pub struct UserProfile {
    pub username: String,
    pub biography: String,
}

/// A change to one field of a profile.
#[derive(Clone, Debug)]
pub enum ChangeAction {
    Username(String),
    Biography(String),
}

/// A signed request to change a profile.
#[derive(Clone, Debug)]
pub struct ChangeRequestPayload {
    /// Seconds since the UNIX epoch.
    pub timestamp: i64,
    pub action: ChangeAction,
}

/// A signed request to create a profile.
#[derive(Clone, Debug)]
pub struct AccountCreation {
    pub profile: UserProfile,
    /// Seconds since the UNIX epoch.
    pub timestamp: i64,
}

/// A payload with the URL-safe base64 texts of the signer's key and of the signature.
#[derive(Clone, Debug)]
pub struct SignedRequest {
    pub verifying_key: String,
    pub payload: String,
    pub signature: String,
}

} // verus!
