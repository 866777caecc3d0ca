use supabase_realtime::channel::{
    broadcast_message, broadcast_step, join_message, join_payload, leave_message,
    matches_postgres_filter, track_payload, untrack_payload, BroadcastStep, ChannelState, ChannelStatus,
    EventBinding, RealtimeChannelOptions,
};
use supabase_realtime::config::{
    BroadcastConfig, ChannelJoinConfig, JoinPayload, PostgresChangesData, PostgresChangesPayload,
    PostgresEventType, PresenceConfig,
};
use supabase_realtime::event::{ChannelEvent, SystemEvent};
use supabase_realtime::postgres_changes::{PostgresChangeEvent, PostgresChangesFilter};
use supabase_realtime::error::RealtimeError;
use supabase_realtime::push::Push;

fn check_join_payload() {
    let payload = JoinPayload {
        config: ChannelJoinConfig {
            broadcast: BroadcastConfig {
                self_: true,
                ack: false,
            },
            presence: PresenceConfig {
                key: Some("user-123".to_string()),
                enabled: true,
            },
            is_private: false,
            postgres_changes: None,
        },
        access_token: None,
    };

    let json = payload.to_value();

    assert!(json.get("config").is_some(), "Missing config field");

    let config = json.get("config").unwrap();
    assert!(
        config.get("broadcast").is_some(),
        "Missing broadcast config"
    );
    assert!(config.get("presence").is_some(), "Missing presence config");
    assert_eq!(config.get("private").unwrap(), false, "Wrong private value");

    let broadcast = config.get("broadcast").unwrap();
    assert_eq!(broadcast.get("self").unwrap(), true, "Wrong broadcast.self");
    assert_eq!(broadcast.get("ack").unwrap(), false, "Wrong broadcast.ack");

    let presence = config.get("presence").unwrap();
    assert_eq!(
        presence.get("key").unwrap(),
        "user-123",
        "Wrong presence key"
    );
    assert_eq!(
        presence.get("enabled").unwrap(),
        true,
        "Wrong presence enabled"
    );

    println!("✅ JoinPayload serializes correctly per Supabase protocol");
    println!("📋 {}", serde_json::to_string_pretty(&json).unwrap());
}

#[test]
fn channel_test_join_payload_serialization() {
    check_join_payload();
}

#[test]
fn core_test_join_payload_serialization() {
    check_join_payload();
}

fn pg_change(kind: PostgresEventType, schema: &str, table: &str) -> PostgresChangesPayload {
    PostgresChangesPayload {
        ids: vec![1],
        data: PostgresChangesData {
            event_type: kind,
            schema: schema.to_string(),
            table: table.to_string(),
            commit_timestamp: "2025-01-01T00:00:00Z".to_string(),
            errors: None,
            new: None,
            old: None,
        },
    }
}

#[test]
fn postgres_filter_matching() {
    let f = PostgresChangesFilter::new(PostgresChangeEvent::Insert, "public".to_string())
        .table("todos".to_string())
        .to_hash_map();
    assert!(matches_postgres_filter(&f, &pg_change(PostgresEventType::Insert, "public", "todos")));
    assert!(!matches_postgres_filter(&f, &pg_change(PostgresEventType::Update, "public", "todos")));
    assert!(!matches_postgres_filter(&f, &pg_change(PostgresEventType::Insert, "private", "todos")));
    assert!(!matches_postgres_filter(&f, &pg_change(PostgresEventType::Insert, "public", "users")));

    let all = PostgresChangesFilter::new(PostgresChangeEvent::All, "public".to_string()).to_hash_map();
    assert!(matches_postgres_filter(&all, &pg_change(PostgresEventType::Delete, "public", "x")));

    // the row filter is applied by the server: the matcher leaves it out
    let rows = PostgresChangesFilter::new(PostgresChangeEvent::All, "public".to_string())
        .filter("id=eq.1".to_string())
        .to_hash_map();
    assert!(matches_postgres_filter(&rows, &pg_change(PostgresEventType::Delete, "public", "x")));
    assert!(!matches_postgres_filter(&rows, &pg_change(PostgresEventType::Delete, "private", "x")));
    // any other name accepts nothing
    let odd = vec![("color".to_string(), "red".to_string())];
    assert!(!matches_postgres_filter(&odd, &pg_change(PostgresEventType::Delete, "public", "x")));
}

#[test]
fn to_hash_map_lists_set_fields() {
    let f = PostgresChangesFilter::new(PostgresChangeEvent::Update, "public".to_string()).to_hash_map();
    assert_eq!(
        f,
        vec![
            ("event".to_string(), "UPDATE".to_string()),
            ("schema".to_string(), "public".to_string())
        ]
    );
}

#[test]
fn dispatch_reaches_listeners_of_the_event() {
    let mut state: ChannelState<u32, ()> = ChannelState::new();
    state.add_binding(EventBinding { event: ChannelEvent::Custom("msg".to_string()), filter: None, sender: 0 });
    state.add_binding(EventBinding { event: ChannelEvent::Broadcast(None), filter: None, sender: 1 });
    state.add_binding(EventBinding {
        event: ChannelEvent::broadcast("message".to_string()),
        filter: None,
        sender: 2,
    });
    state.add_binding(EventBinding {
        event: ChannelEvent::PostgresChanges,
        filter: Some(
            PostgresChangesFilter::new(PostgresChangeEvent::Insert, "public".to_string()).to_hash_map(),
        ),
        sender: 3,
    });
    state.add_binding(EventBinding { event: ChannelEvent::PostgresChanges, filter: None, sender: 4 });
    state.add_binding(EventBinding { event: ChannelEvent::Custom("msg".to_string()), filter: None, sender: 5 });

    let empty = j("{}");
    assert_eq!(state.dispatch_targets(&ChannelEvent::Custom("msg".to_string()), &empty, None), vec![0, 5]);
    // a broadcast reaches the plain broadcast listener, and the named one
    // whose name is the payload's inner event
    let message = j(r#"{"type": "broadcast", "event": "message", "payload": {}}"#);
    let other = j(r#"{"type": "broadcast", "event": "other", "payload": {}}"#);
    assert_eq!(state.dispatch_targets(&ChannelEvent::Broadcast(None), &message, None), vec![1, 2]);
    assert_eq!(state.dispatch_targets(&ChannelEvent::broadcast("x".to_string()), &message, None), vec![1, 2]);
    assert_eq!(state.dispatch_targets(&ChannelEvent::Broadcast(None), &other, None), vec![1]);
    assert_eq!(state.dispatch_targets(&ChannelEvent::Broadcast(None), &empty, None), vec![1]);
    // the inner event name matters only for broadcasts
    assert_eq!(state.dispatch_targets(&ChannelEvent::Custom("msg".to_string()), &message, None), vec![0, 5]);
    let insert = pg_change(PostgresEventType::Insert, "public", "t");
    let update = pg_change(PostgresEventType::Update, "public", "t");
    assert_eq!(state.dispatch_targets(&ChannelEvent::PostgresChanges, &empty, Some(&insert)), vec![3, 4]);
    assert_eq!(state.dispatch_targets(&ChannelEvent::PostgresChanges, &empty, Some(&update)), vec![4]);
    assert_eq!(state.dispatch_targets(&ChannelEvent::PostgresChanges, &empty, None), vec![4]);
}

#[test]
fn subscribe_and_unsubscribe_transitions() {
    let mut state: ChannelState<(), ()> = ChannelState::new();
    assert!(!state.was_joined());
    state.add_binding(EventBinding {
        event: ChannelEvent::PostgresChanges,
        filter: Some(
            PostgresChangesFilter::new(PostgresChangeEvent::Delete, "app".to_string())
                .table("t".to_string())
                .to_hash_map(),
        ),
        sender: (),
    });
    state.add_binding(EventBinding { event: ChannelEvent::PostgresChanges, filter: None, sender: () });
    let configs = state.begin_subscribe().unwrap();
    assert_eq!(state.status, ChannelStatus::Joining);
    assert_eq!(configs.len(), 1);
    assert_eq!(configs[0].event, "DELETE");
    assert_eq!(configs[0].schema, "app");
    assert_eq!(configs[0].table, Some("t".to_string()));
    assert_eq!(configs[0].filter, None);
    // a second subscribe while joining does nothing
    assert!(state.begin_subscribe().is_none());
    state.finish_subscribe("5".to_string());
    assert!(state.was_joined());
    assert_eq!(state.join_ref, Some("5".to_string()));
    // resubscribing a joined channel does nothing
    assert!(state.begin_subscribe().is_none());
    assert!(state.begin_unsubscribe());
    assert_eq!(state.status, ChannelStatus::Leaving);
    state.finish_unsubscribe();
    assert_eq!(state.status, ChannelStatus::Closed);
    // listeners are dropped: nothing reaches them any more
    assert!(state.bindings.is_empty());
    assert_eq!(state.dispatch_targets(&ChannelEvent::PostgresChanges, &j("{}"), None), Vec::<usize>::new());
    assert!(!state.begin_unsubscribe());
}

#[test]
fn failed_join_can_be_retried() {
    let mut state: ChannelState<(), ()> = ChannelState::new();
    state.add_binding(EventBinding { event: ChannelEvent::Broadcast(None), filter: None, sender: () });
    assert!(state.begin_subscribe().is_some());
    state.fail_subscribe();
    assert_eq!(state.status, ChannelStatus::Closed);
    assert!(!state.was_joined());
    assert_eq!(state.bindings.len(), 1);
    // a later subscribe starts a join again
    assert!(state.begin_subscribe().is_some());
    assert_eq!(state.status, ChannelStatus::Joining);
}

#[test]
fn presence_needs_a_joined_channel() {
    let mut state: ChannelState<(), ()> = ChannelState::new();
    match state.require_joined() {
        Err(RealtimeError::Channel(m)) => assert_eq!(m, "channel is not subscribed"),
        _ => panic!("expected a channel error"),
    }
    state.begin_subscribe();
    assert!(state.require_joined().is_err());
    state.finish_subscribe("1".to_string());
    assert!(state.require_joined().is_ok());
}

#[test]
fn join_payload_from_options() {
    let options = RealtimeChannelOptions {
        broadcast_self: true,
        broadcast_ack: true,
        presence_key: Some("me".to_string()),
        is_private: true,
    };
    let p = join_payload(&options, Vec::new(), Some("tok".to_string()));
    let v = p.to_value();
    assert_eq!(
        v,
        j(r#"{ "config": { "broadcast": {"self": true, "ack": true}, "presence": {"key": "me", "enabled": true}, "private": true }, "access_token": "tok" }"#)
    );
    let default = join_payload(&RealtimeChannelOptions::default(), Vec::new(), None).to_value();
    assert_eq!(
        default,
        j(r#"{"config": {"broadcast": {"self": false, "ack": false}, "presence": {"enabled": false}, "private": false}}"#)
    );
    let m = join_message("realtime:room", &p, "2".to_string(), "1".to_string());
    assert_eq!(m.event, ChannelEvent::System(SystemEvent::Join));
    assert_eq!(m.msg_ref, Some("2".to_string()));
    assert_eq!(m.join_ref, Some("1".to_string()));
    assert_eq!(m.payload, v);
}

#[test]
fn broadcast_and_leave_messages() {
    let m = broadcast_message("realtime:room", ChannelEvent::broadcast("hi".to_string()), j(r#"{"a": 1}"#));
    assert_eq!(m.topic, "realtime:room:broadcast");
    assert_eq!(m.payload, j(r#"{"type": "broadcast", "payload": {"a": 1}}"#));
    let l = leave_message("realtime:room");
    assert_eq!(l.event, ChannelEvent::System(SystemEvent::Leave));
    assert_eq!(l.payload, j(r#"{}"#));
    assert_eq!(broadcast_step(true, true, None), BroadcastStep::WebSocket);
    assert_eq!(broadcast_step(true, false, None), BroadcastStep::Http);
    assert_eq!(broadcast_step(false, true, None), BroadcastStep::Http);
    assert_eq!(broadcast_step(true, true, Some(true)), BroadcastStep::Done);
    // a failed WebSocket push falls back to HTTP
    assert_eq!(broadcast_step(true, true, Some(false)), BroadcastStep::Http);
}

#[test]
fn presence_payloads() {
    assert_eq!(
        track_payload(j(r#"{"user": "Alice"}"#)),
        j(r#"{"type": "presence", "event": "track", "payload": {"user": "Alice"}}"#)
    );
    assert_eq!(untrack_payload(), j(r#"{"type": "presence", "event": "untrack"}"#));
}

#[test]
fn pending_pushes_are_taken_once() {
    let mut state: ChannelState<(), u8> = ChannelState::new();
    state.add_pending_push("r1".to_string(), 1);
    state.add_pending_push("r2".to_string(), 2);
    state.add_pending_push("r1".to_string(), 3);
    assert_eq!(state.take_pending_push("r1"), Some(3));
    assert_eq!(state.take_pending_push("r1"), None);
    assert_eq!(state.take_pending_push("r2"), Some(2));
    assert_eq!(state.take_pending_push("zz"), None);
}

#[test]
fn push_callbacks_and_message() {
    let push: Push<&str, u8> = Push::for_channel(7, &ChannelEvent::Custom("presence".to_string()), j(r#"{"x": 1}"#))
        .receive("ok", "first")
        .receive("error", "second")
        .receive("ok", "third");
    assert_eq!(push.callback("ok"), Some(&"third"));
    assert_eq!(push.callback("error"), Some(&"second"));
    assert_eq!(push.callback("timeout"), None);
    assert_eq!(*push.channel(), 7);
    let m = push.message("realtime:room");
    assert_eq!(m.event, ChannelEvent::Custom("presence".to_string()));
    assert_eq!(m.payload, j(r#"{"x": 1}"#));
    assert_eq!(m.msg_ref.as_ref().map(|r| r.len()), Some(36));
    assert_eq!(push.event(), "presence");
    assert_eq!(*push.payload(), j(r#"{"x": 1}"#));
    assert_eq!(Some(push.ref_id().to_string()), m.msg_ref);
    assert_eq!(push.timeout(), std::time::Duration::from_millis(10000));
}

#[test]
fn pushes_get_distinct_references() {
    let a: Push<(), ()> = Push::for_channel((), &ChannelEvent::Custom("e".to_string()), j("null"));
    let b: Push<(), ()> = Push::for_channel((), &ChannelEvent::Custom("e".to_string()), j("null"));
    assert_ne!(a.ref_id(), b.ref_id());
    assert_eq!(a.ref_id().chars().filter(|c| *c == '-').count(), 4);
}

fn j(text: &str) -> serde_json::Value {
    serde_json::from_str(text).unwrap()
}

#[test]
fn default_channel_state_is_closed_and_empty() {
    let st: ChannelState<(), u8> = ChannelState::default();
    assert_eq!(st.status, ChannelStatus::Closed);
    assert!(!st.was_joined());
    assert!(st.bindings.is_empty());
    assert!(st.pending_pushes.is_empty());
    assert!(st.join_ref.is_none());
    assert!(st.presence.list().is_empty());
}

#[test]
fn joined_channels_are_readied_to_join_again() {
    let mut state: ChannelState<(), ()> = ChannelState::new();
    assert!(!state.prepare_rejoin());
    assert_eq!(state.status, ChannelStatus::Closed);
    state.begin_subscribe();
    assert!(!state.prepare_rejoin());
    assert_eq!(state.status, ChannelStatus::Joining);
    state.finish_subscribe("3".to_string());
    assert!(state.prepare_rejoin());
    assert_eq!(state.status, ChannelStatus::Closed);
    assert!(state.begin_subscribe().is_some());
}
