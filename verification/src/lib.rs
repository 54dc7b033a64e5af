//! A topic broker that relays notifications to WebSocket sessions.
//!
//! The crate holds the decision logic only: the subscription registry and its
//! fanout, the per-connection session state machine, and the ingestion state
//! machine. Each is a plain state machine from events to actions, so that a
//! runtime can drive it from sockets, timers and a message backend.

pub mod broker;
pub mod config;
pub mod identifier;
pub mod ingest;
pub mod message;
pub mod session;
