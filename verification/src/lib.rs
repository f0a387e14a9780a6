//! A verified core for an eBPF program-lifecycle daemon.
//!
//! The library owns the data model for tracked eBPF programs, the ordering
//! and position discipline of per-attach-point dispatcher chains, the
//! flattened key-value encoding used by the persistent catalog, and the
//! decision logic of the image store and the manager.  Kernel syscalls,
//! networking and process plumbing live outside the library and hand it
//! plain values.

pub mod encoding;
pub mod errors;
pub mod proceed_on;
pub mod types;
pub mod dispatcher;
pub mod strutil;
pub mod manager;
pub mod api;
pub mod image;
pub mod catalog;

pub use encoding::bytes_to_u32;
