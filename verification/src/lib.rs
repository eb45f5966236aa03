//! Site records behind a repository interface, the service that mediates
//! between a transport and that interface, and the replies a transport
//! sends back.
//!
//! - [`repo`]: the records, the repository interface and what holds of
//!   every store that keeps to it.
//! - [`infra`]: a store that keeps its rows in memory.
//! - [`service`]: the use cases, one repository call each; a failure of
//!   the store leaves the service as one uniform internal failure.
//! - [`endpoint`]: the handlers of the site routes and the status codes
//!   they answer with.
//! - [`cors`]: the configured list of hosts that may make cross-origin
//!   requests.

pub mod cors;
pub mod endpoint;
pub mod infra;
pub mod repo;
pub mod service;
