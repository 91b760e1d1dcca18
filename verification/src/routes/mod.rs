//! The request handlers.
pub mod auth;
pub mod emulator;
pub mod flow_assets;
pub mod mgmt;
pub mod replies;
