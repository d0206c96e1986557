//! A TCP stream multiplexer: many short-lived logical streams share a small
//! pool of long-lived physical connections between a client and a server.
//!
//! This crate holds the verified core: the wire codec and its framing, the
//! client-side connection pool (round-robin send selection and stream-indexed
//! demultiplexing), the per-stream client state, and the server-side router
//! that maps logical streams to backend relays. Socket and channel plumbing
//! lives outside, and hands these components plain byte values.

pub mod client;
pub mod config;
pub mod connection_pool;
pub mod framing;
pub mod protocol;
pub mod registry;
pub mod server;
