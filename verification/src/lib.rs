//! Sender-side client core for a device-casting wire protocol.
//!
//! The crate verifies the protocol engine: the length-framed binary envelope
//! codec, the JSON sub-envelope and its namespace-addressed payload dispatch,
//! and the session state machine that correlates requests with responses.
//! Network transport and task plumbing live outside the library.

pub mod app;
pub mod application;
pub mod client;
pub mod envelope;
pub mod error;
pub mod json;
pub mod namespace;
pub mod payload;
pub mod receiver;
pub mod shared;
