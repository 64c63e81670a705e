//! Verified core of a lightweight process-sandbox builder.
//!
//! The library validates sandbox requests, decodes and encodes the wire
//! protocol of the request server, plans the guard process's construction
//! sequence, drives the master side of the construction handshake, and keeps
//! the registry that maps live guard processes to the resources they own.

pub mod bytesfmt;
pub mod errors;
pub mod guard;
pub mod master;
pub mod registry;
pub mod sys;
pub mod wire;

pub use errors::RockerErr;
pub use master::{GuardLaunch, ReleasePlan, RockerCfg};
pub use registry::ResourceRegistry;
pub use wire::WireRequest;
