//! Transport-agnostic HTTP message bodies and an incremental parser for the
//! Server-Sent-Events wire protocol.
//!
//! The crate models a body as absent, fully buffered, or incrementally
//! arriving, and turns an incrementally delivered byte stream into typed
//! protocol fragments. All decision logic is verified; asynchronous I/O is
//! left to unverified glue that drives the state machines defined here.

pub mod async_body;
pub mod event_source;
pub mod fragment_stream;
pub mod lines;
pub mod message;
