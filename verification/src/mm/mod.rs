//! The memory of processes, as other processes reach it.
pub mod access;
pub mod address_space;
pub mod fault;
pub mod transfer;
