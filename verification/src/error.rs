//! Errors of the Realtime client.

use vstd::prelude::*;

verus! {

/// `tungstenite::Error`, held opaquely.
#[verifier::external_type_specification]
#[verifier::external_body]
pub struct ExWebSocketError(tungstenite::Error);

/// `reqwest::Error`, held opaquely.
#[verifier::external_type_specification]
#[verifier::external_body]
pub struct ExHttpError(reqwest::Error);

/// `url::ParseError`, held opaquely.
#[verifier::external_type_specification]
#[verifier::external_body]
pub struct ExUrlParseError(url::ParseError);

/// Errors that can occur when using the Supabase Realtime client.
#[derive(Debug)]
pub enum RealtimeError {
    /// WebSocket protocol error (connection failed, invalid frame, etc.)
    WebSocket(tungstenite::Error),
    /// General connection error with descriptive message
    Connection(String),
    /// Authentication or authorization error
    Auth(String),
    /// Channel-specific error (subscription failed, invalid topic, etc.)
    Channel(String),
    /// JSON serialization/deserialization error
    Serialization(serde_json::Error),
    /// HTTP request error (used for HTTP fallback broadcasts)
    Http(reqwest::Error),
    /// URL parsing error (malformed endpoint URL)
    UrlParse(url::ParseError),
    /// Operation timed out (e.g., push message acknowledgment not received)
    Timeout,
    /// Attempted operation while not connected to the server
    NotConnected,
}

} // verus!
