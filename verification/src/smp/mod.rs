//! Processors: their identifiers, the sets of them, and their bring-up.
pub mod cpu;
pub mod init;
pub mod setaffinity;
