//! Protocol constants.

use vstd::prelude::*;

verus! {

/// WebSocket connection states.
#[derive(Debug, Clone, Copy, PartialEq, Eq, Structural)]
pub enum ConnectionState {
    Connecting,
    Open,
    Closing,
    Closed,
}

/// Channel states.
#[derive(Debug, Clone, Copy, PartialEq, Eq, Structural)]
pub enum ChannelState {
    Closed,
    Errored,
    Joined,
    Joining,
    Leaving,
}

/// Topic of the connection-level messages (heartbeats).
pub const PHOENIX_TOPIC: &'static str = "phoenix";

/// WebSocket transport.
pub const TRANSPORT_WEBSOCKET: &'static str = "websocket";

/// Protocol version.
pub const VSN: &'static str = "1.0.0";

/// Default timeout (milliseconds).
pub const DEFAULT_TIMEOUT: u64 = 10000;

/// Default heartbeat interval (milliseconds).
pub const HEARTBEAT_INTERVAL: u64 = 25000;

/// Reconnect delay used once the intervals run out (milliseconds).
pub const DEFAULT_RECONNECT_FALLBACK: u64 = 10000;

/// Max push buffer size.
pub const MAX_PUSH_BUFFER_SIZE: usize = 1000;

/// WebSocket close code of a normal closure.
pub const WS_CLOSE_NORMAL: u16 = 1000;

} // verus!
