//! The persistence contract: the record shapes and the repository interface.

pub mod database;
pub mod laws;
pub mod site;
