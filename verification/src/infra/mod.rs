//! Stores behind the repository interface.

pub mod memory;
