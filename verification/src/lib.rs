//! Liveness probing and status caching for locally hosted game servers.
//!
//! The crate decides, for any managed server, whether it is currently
//! "running": a per-server configuration file yields the remote-console
//! (RCON) connection parameters, a timeout-bounded probe is planned from
//! them, and the outcome is recorded in a concurrent status cache that
//! callers read without blocking on in-flight refreshes.  All network and
//! file I/O is performed by the embedding runtime, which hands the results
//! back as plain events; the decision logic here is verified.

pub mod cache;
pub mod config;
pub mod controller;
pub mod text;
