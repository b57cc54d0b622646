//! A namespacing and protocol-translation layer over a key-value backend.
//!
//! Callers authenticate with an opaque bearer credential; each credential
//! defines an isolated key namespace inside the shared backend. The crate
//! holds the verified core: the namespacing scheme, the store facade
//! semantics (modelled against an in-memory backend with an explicit clock),
//! the auth gate shared by both transports, the HTTP and RPC adapter
//! decision logic, and the error taxonomy with its two wire projections.

use vstd::prelude::*;

pub mod auth;
pub mod error;
pub mod grpc;
pub mod http;
pub mod keyspace;
pub mod laws;
pub mod mode;
pub mod store;
pub mod text;

verus! {

/// Name of the backend set that holds the registered credentials.
pub const REDIS_TOKENS_TABLE: &'static str = "tokens";

/// Default HTTP port
pub const DEFAULT_HTTP_PORT: u16 = 3000;

/// Default RPC port
pub const DEFAULT_GRPC_PORT: u16 = 50051;

} // verus!
