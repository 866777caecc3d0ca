//! A client for the Supabase Realtime service (Phoenix Channels protocol).
//!
//! This crate holds the protocol logic: event names, message framing, the
//! presence bookkeeping, the channel and connection state machines, the
//! heartbeat and reconnection policies. The network side (WebSocket and HTTP
//! transport, timers, tasks) drives these functions from the outside.

pub mod text;
pub mod constants;
pub mod error;
pub mod event;
pub mod json;
pub mod keys;
pub mod assoc;
pub mod presence;
pub mod message;
pub mod timer;
pub mod postgres_changes;
pub mod config;
pub mod channel;
pub mod push;
pub mod refs;
pub mod connection;
pub mod client;
pub mod heartbeat;
pub mod router;
pub mod http;
