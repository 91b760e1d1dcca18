//! The decisions of a local emulator of the Descope authentication API: which reply each request
//! gets, what it changes, and what is logged of it.
pub mod cookies;
pub mod error;
pub mod headers;
pub mod json;
pub mod passwords;
pub mod request_log;
pub mod request_log_laws;
pub mod routes;
pub mod store;
pub mod text;
pub mod types;
