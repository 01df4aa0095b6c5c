//! Core of a small pub/sub state-synchronization subsystem: a hub process
//! broadcasts messages to attached worker processes over a newline-delimited
//! byte protocol, and every process mirrors a small replicated state store.
//!
//! This crate holds the verified logic: the message protocol and its wire
//! codec, the replicated state store, and the hub / worker-session / worker
//! client decision steps. The surrounding process plumbing (sockets, tasks,
//! timers) lives outside and calls into these functions.

pub mod codec;
pub mod host;
pub mod hub;
pub mod msg;
pub mod request;
pub mod store;
pub mod worker;
