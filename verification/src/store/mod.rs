//! The emulator's in-memory state.
pub mod flow_store;
pub mod revocations;
pub mod text_map;
