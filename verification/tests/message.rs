use serde_json::Value;
use supabase_realtime::event::{ChannelEvent, SystemEvent};
use supabase_realtime::error::RealtimeError;
use supabase_realtime::message::RealtimeMessage;

#[test]
fn test_realtime_message() {
    let message = RealtimeMessage::new(
        "test".to_string(),
        ChannelEvent::Custom("message".to_string()),
        serde_json::Value::Null,
    );
    assert_eq!(message.topic, "test");
    assert_eq!(message.event, ChannelEvent::Custom("message".to_string()));
    assert_eq!(message.payload, serde_json::Value::Null);
    assert_eq!(message.msg_ref, None);
    assert_eq!(message.join_ref, None);
}

#[test]
fn test_realtime_message_round_trip() {
    let message = RealtimeMessage::new(
        "test".to_string(),
        ChannelEvent::Custom("message".to_string()),
        serde_json::Value::Null,
    )
    .with_ref("1".to_string())
    .with_join_ref("321".to_string());

    let serialized = message.encode();
    let deserialized: RealtimeMessage = RealtimeMessage::decode(&serialized).unwrap();

    assert_eq!(message, deserialized);
}

#[test]
fn test_realtime_message_serialization_without_ref_and_join_ref() {
    let message = RealtimeMessage::new(
        "test".to_string(),
        ChannelEvent::Custom("message".to_string()),
        serde_json::Value::Null,
    );

    let json = message.encode();
    assert!(!json.contains(r#""ref":"#));
    assert!(!json.contains(r#""join_ref":"#));
}

#[test]
fn test_realtime_message_serialization_with_ref_and_join_ref() {
    let message = RealtimeMessage::new(
        "test".to_string(),
        ChannelEvent::Custom("message".to_string()),
        serde_json::Value::Null,
    )
    .with_ref("123".to_string())
    .with_join_ref("321".to_string());

    let json = message.encode();
    assert!(json.contains(r#""ref":"123""#));
    assert!(json.contains(r#""join_ref":"321""#));
}

#[test]
fn channel_test_message_with_ref_fields() {
    let message = RealtimeMessage::new(
        "realtime:test".to_string(),
        ChannelEvent::System(SystemEvent::Join),
        j(r#"{}"#),
    )
    .with_ref("1".to_string())
    .with_join_ref("1".to_string());

    assert!(message.msg_ref.is_some(), "ref should be set");
    assert!(message.join_ref.is_some(), "join_ref should be set");
    assert_eq!(message.msg_ref.as_ref().unwrap(), "1");
    assert_eq!(message.join_ref.as_ref().unwrap(), "1");

    println!("✅ Message with ref fields works correctly");
}

#[test]
fn core_test_message_with_ref_fields() {
    let message = RealtimeMessage::new(
        "realtime:test".to_string(),
        ChannelEvent::System(SystemEvent::Join),
        j(r#"{}"#),
    )
    .with_ref("1".to_string())
    .with_join_ref("1".to_string());

    assert!(message.msg_ref.is_some(), "ref should be set");
    assert!(message.join_ref.is_some(), "join_ref should be set");
    assert_eq!(message.msg_ref.as_ref().unwrap(), "1");
    assert_eq!(message.join_ref.as_ref().unwrap(), "1");

    println!("✅ Message with ref fields works correctly");
}

#[test]
fn decode_reads_server_messages() {
    let text = r#"{"topic":"realtime:room","event":"phx_reply","payload":{"status":"ok"},"ref":"7","join_ref":null}"#;
    let m = RealtimeMessage::decode(text).unwrap();
    assert_eq!(m.topic, "realtime:room");
    assert_eq!(m.event, ChannelEvent::System(SystemEvent::Reply));
    assert_eq!(m.payload, j(r#"{"status": "ok"}"#));
    assert_eq!(m.msg_ref, Some("7".to_string()));
    assert_eq!(m.join_ref, None);
}

#[test]
fn decode_defaults_missing_payload_to_null() {
    let m = RealtimeMessage::decode(r#"{"topic":"t","event":"e"}"#).unwrap();
    assert_eq!(m.payload, Value::Null);
    assert_eq!(m.event, ChannelEvent::Custom("e".to_string()));
}

#[test]
fn decode_refuses_bad_messages() {
    for text in [
        "not json",
        r#"{"event":"e"}"#,
        r#"{"topic":"t"}"#,
        r#"{"topic":1,"event":"e"}"#,
        r#"{"topic":"t","event":"e","ref":5}"#,
        r#"[1,2]"#,
    ] {
        match RealtimeMessage::decode(text) {
            Err(RealtimeError::Serialization(_)) => {}
            other => panic!("expected a serialization error for {}, got {:?}", text, other),
        }
    }
}

#[test]
fn value_round_trip_keeps_payload() {
    let m = RealtimeMessage::new(
        "t".to_string(),
        ChannelEvent::PresenceDiff,
        j(r#"{"joins": {}, "leaves": {"a": 1}}"#),
    )
    .with_ref("9".to_string());
    let v = m.to_value();
    assert_eq!(v["topic"], "t");
    assert_eq!(v["event"], "presence_diff");
    assert!(v.get("join_ref").is_none());
    let back = RealtimeMessage::from_value(&v).unwrap();
    assert_eq!(back, m);
}

fn j(text: &str) -> serde_json::Value {
    serde_json::from_str(text).unwrap()
}

#[test]
fn encode_writes_fields_in_declaration_order() {
    let m = RealtimeMessage::new(
        "test".to_string(),
        ChannelEvent::Custom("message".to_string()),
        j(r#"{"b": 1, "a": "x\"y"}"#),
    )
    .with_ref("1".to_string())
    .with_join_ref("321".to_string());
    assert_eq!(
        m.encode(),
        r#"{"topic":"test","event":"message","payload":{"a":"x\"y","b":1},"ref":"1","join_ref":"321"}"#
    );
    let bare = RealtimeMessage::new("t".to_string(), ChannelEvent::System(SystemEvent::Join), serde_json::Value::Null);
    assert_eq!(bare.encode(), r#"{"topic":"t","event":"phx_join","payload":null}"#);
}

#[test]
fn decode_refuses_repeated_fields() {
    let twice = r#"{"topic":"a","event":"e","topic":"b"}"#;
    assert!(matches!(RealtimeMessage::decode(twice), Err(RealtimeError::Serialization(_))));
    let escaped = r#"{"topic":"a","event":"e","t\u006fpic":"b"}"#;
    assert!(matches!(RealtimeMessage::decode(escaped), Err(RealtimeError::Serialization(_))));
    let refs = r#"{"topic":"a","event":"e","ref":"1","ref":null}"#;
    assert!(matches!(RealtimeMessage::decode(refs), Err(RealtimeError::Serialization(_))));
    // other repeated names, and names repeated inside the payload, are fine
    let other = r#"{"topic":"a","x":1,"event":"e","x":2,"payload":{"topic":1,"topic":2,"l":["topic",{"event":[]}]}}"#;
    let m = RealtimeMessage::decode(other).unwrap();
    assert_eq!(m.topic, "a");
    assert_eq!(m.payload, j(r#"{"topic":2,"l":["topic",{"event":[]}]}"#));
    // a name written inside a string value is no field name
    let inside = r#"{"topic":"\"topic\":","event":"e"}"#;
    assert_eq!(RealtimeMessage::decode(inside).unwrap().topic, "\"topic\":");
}
