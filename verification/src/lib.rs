//! Routing, sampling and tracing rules of a small HTTP reverse proxy.
//!
//! The crate holds the decisions of the proxy as functions on plain values:
//! which servant a path belongs to, which backend is next in turn, which
//! requests are sampled, which identifiers a trace carries, and what the
//! control channel answers, down to the bytes of the bodies it writes.
//! Listening, forwarding and the reading of what is registered are left to
//! the program that links it.

pub mod config;
pub mod error;
pub mod forward;
pub mod json;
pub mod middleware;
pub mod pathmap;
pub mod register;
pub mod request;
pub mod route;
pub mod runtime;
pub mod sampling;
pub mod state;
pub mod strmap;
pub mod text;
pub mod tracing;
pub mod trie;
