use supabase_realtime::error::RealtimeError;
use supabase_realtime::event::ChannelEvent;
use supabase_realtime::http::{broadcast_failed, broadcast_outcome, ws_to_http_endpoint, HttpBroadcaster};

#[test]
fn http_endpoint_of_websocket_endpoint() {
    assert_eq!(
        ws_to_http_endpoint("wss://abc.supabase.co/realtime/v1?apikey=x&vsn=1.0.0"),
        "https://abc.supabase.co/realtime/v1"
    );
    assert_eq!(ws_to_http_endpoint("ws://localhost:4000/socket"), "http://localhost:4000/socket");
    assert_eq!(ws_to_http_endpoint("https://already/http"), "https://already/http");
    assert_eq!(ws_to_http_endpoint("?only"), "");
    assert!(!ws_to_http_endpoint("ws://a?b?c").contains('?'));
    for s in ["wss://a.b/c?x=1", "ws://ws://x", "wwss://wss://y", "ws:/ws://z", "plain"] {
        let r = ws_to_http_endpoint(s);
        assert!(!r.contains("ws://") && !r.contains("wss://") && !r.contains('?'));
        assert_eq!(ws_to_http_endpoint(&r), r);
    }
    assert_eq!(ws_to_http_endpoint("ws://ws://x"), "http://http://x");
}

#[test]
fn broadcast_request_shape() {
    let b = HttpBroadcaster::new("https://x/realtime/v1".to_string(), "key".to_string(), Some("tok".to_string()));
    let r = b.broadcast_request("realtime:room", &ChannelEvent::broadcast("m".to_string()), j(r#"{"a": 1}"#), true);
    assert_eq!(r.url, "https://x/realtime/v1/api/broadcast");
    assert_eq!(
        r.headers,
        vec![
            ("Content-Type".to_string(), "application/json".to_string()),
            ("apiKey".to_string(), "key".to_string()),
            ("Authorization".to_string(), "Bearer tok".to_string()),
        ]
    );
    assert_eq!(
        r.body,
        j(r#"{"messages": [{"topic": "realtime:room", "event": "broadcast", "payload": {"a": 1}, "private": true}]}"#)
    );
    let anon = HttpBroadcaster::new("h".to_string(), "k".to_string(), None);
    assert_eq!(anon.broadcast_request("t", &ChannelEvent::PresenceState, j(r#"null"#), false).headers.len(), 2);
}

#[test]
fn broadcast_outcomes() {
    let ev = ChannelEvent::Custom("e".to_string());
    assert!(broadcast_outcome("t", &ev, 200, "200 OK").is_ok());
    assert!(broadcast_outcome("t", &ev, 299, "299").is_ok());
    match broadcast_outcome("t", &ev, 404, "404 Not Found") {
        Err(RealtimeError::Connection(m)) => {
            assert_eq!(m, "HTTP broadcast failed for topic 't' event 'e' with status: 404 Not Found")
        }
        _ => panic!("expected a connection error"),
    }
    assert!(broadcast_outcome("t", &ev, 199, "199").is_err());
    match broadcast_failed("timeout") {
        RealtimeError::Connection(m) => assert_eq!(m, "HTTP broadcast failed: timeout"),
        _ => panic!("expected a connection error"),
    }
}

fn j(text: &str) -> serde_json::Value {
    serde_json::from_str(text).unwrap()
}
