//! Users, tenants, token claims and replies.
use crate::json::Json;
use axum::http::HeaderMap;
use vstd::prelude::*;

verus! {

/// A user of the emulated project.
#[derive(Debug, Clone, PartialEq, Eq)]
pub struct User {
    pub user_id: String,
    pub login_ids: Vec<String>,
    pub email: Option<String>,
    pub phone: Option<String>,
    pub name: Option<String>,
    pub given_name: Option<String>,
    pub family_name: Option<String>,
    /// `enabled`, `disabled` or another state.
    pub status: String,
    /// Seconds since the epoch.
    pub created_time: u64,
    /// Whether the user signs in with a password.
    pub password: bool,
    /// The bcrypt hash of the password, where one is set.
    pub password_hash: Option<String>,
    pub user_tenants: Vec<UserTenant>,
}

/// A user's membership in a tenant.
#[derive(Debug, Clone, PartialEq, Eq)]
pub struct UserTenant {
    pub tenant_id: String,
}

/// How the users of a tenant sign in.
#[derive(Debug, Clone, Copy, PartialEq, Eq, Structural)]
pub enum AuthType {
    Oidc,
    Saml,
}

/// How passwords are to be, and who is told of a reset.
#[derive(Debug, Clone, PartialEq, Eq)]
pub struct PasswordConfig {
    pub enabled: bool,
    pub min_length: u64,
    pub require_lowercase: bool,
    pub require_uppercase: bool,
    pub require_number: bool,
    pub require_non_alphanumeric: bool,
    /// The connector to notify of a reset.
    pub reset_connector_id: Option<String>,
}

/// A tenant of the emulated project.
#[derive(Debug, Clone, PartialEq, Eq)]
pub struct Tenant {
    pub id: String,
    pub name: String,
    pub domains: Vec<String>,
    pub auth_type: AuthType,
}

/// What a valid token says of its holder.
#[derive(Debug, Clone, PartialEq, Eq)]
pub struct Claims {
    /// The user id.
    pub sub: String,
    /// When the token was issued, in seconds since the epoch.
    pub iat: u64,
}

/// A successful answer: headers and a JSON body.
#[derive(Debug)]
pub struct Reply {
    pub headers: HeaderMap,
    pub body: Json,
}

} // verus!
