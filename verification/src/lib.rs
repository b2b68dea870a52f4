//! Upstream-connection layer of a tool-invocation gateway: the pool of live
//! connections of a listener, the steps by which a connection to a target is
//! made, the TLS and header policy of its HTTP client, the requests and
//! checks of the streaming transport, and the relay rules between an
//! upstream session and the downstream peer.
//!
//! The library decides and never waits: whatever takes a network, a process
//! or a lock is done by the caller, who hands the outcome back.

pub mod bridge;
pub mod connect;
pub mod error;
pub mod headers;
pub mod pool;
pub mod pool_laws;
pub mod sse_client;
pub mod target;
pub mod text;
pub mod tls;
