//! Signing in, and what a session allows.
pub mod bearer;
pub mod flow;
pub mod flow_laws;
pub mod issue;
pub mod laws;
pub mod password;
pub mod password_laws;
pub mod session;
pub mod session_laws;
pub mod token_laws;
