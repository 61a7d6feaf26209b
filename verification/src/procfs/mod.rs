//! Processes as files.
pub mod mem;
