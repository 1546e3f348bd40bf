//! Verified core of an ingress gateway: a reloadable routing table with
//! longest-prefix matching, a token-bucket rate limiter, header hygiene for
//! proxied requests, upstream URL construction, and the WebSocket bridge
//! state machine.
//!
//! Network and file I/O, the async runtime, and the HTTP framework live
//! outside this crate; the library exposes the decision and transformation
//! logic they drive, each function with a proved contract.

pub mod config;
pub mod error;
pub mod middleware;
pub mod proxy;
pub mod strutil;
