//! Managing the emulated project.
pub mod project;
