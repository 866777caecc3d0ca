use supabase_realtime::event::{ChannelEvent, PostgresChangeFilter, PostgresChangeType, SystemEvent};

#[test]
fn test_channel_event_from_str() {
    assert_eq!(
        ChannelEvent::parse("postgres_changes"),
        ChannelEvent::PostgresChanges
    );
    assert_eq!(
        ChannelEvent::parse("broadcast"),
        ChannelEvent::Broadcast(None)
    );
    assert_eq!(
        ChannelEvent::parse("presence_state"),
        ChannelEvent::PresenceState
    );
    assert_eq!(
        ChannelEvent::parse("presence_diff"),
        ChannelEvent::PresenceDiff
    );
    assert_eq!(
        ChannelEvent::parse("phx_join"),
        ChannelEvent::System(SystemEvent::Join)
    );
    assert_eq!(
        ChannelEvent::parse("my_custom_event"),
        ChannelEvent::Custom("my_custom_event".to_string())
    );
}

#[test]
fn test_system_event_round_trip() {
    let events = vec![
        SystemEvent::Join,
        SystemEvent::Leave,
        SystemEvent::Reply,
        SystemEvent::Close,
        SystemEvent::Error,
        SystemEvent::Heartbeat,
    ];

    for event in events {
        let s = event.as_str();
        assert_eq!(SystemEvent::parse(s), event);
    }
}

#[test]
fn unknown_phoenix_event_reads_as_error() {
    assert_eq!(
        ChannelEvent::parse("phx_unknown"),
        ChannelEvent::System(SystemEvent::Error)
    );
    assert_eq!(SystemEvent::parse("nothing"), SystemEvent::Error);
    assert_eq!(
        ChannelEvent::parse("heartbeat"),
        ChannelEvent::System(SystemEvent::Heartbeat)
    );
}

#[test]
fn event_names_write_back() {
    assert_eq!(ChannelEvent::PostgresChanges.as_str(), "postgres_changes");
    assert_eq!(ChannelEvent::Broadcast(Some("x".to_string())).as_str(), "broadcast");
    assert_eq!(ChannelEvent::PresenceState.as_str(), "presence_state");
    assert_eq!(ChannelEvent::PresenceDiff.as_str(), "presence_diff");
    assert_eq!(ChannelEvent::System(SystemEvent::Close).as_str(), "phx_close");
    assert_eq!(ChannelEvent::Custom("hello".to_string()).as_str(), "hello");
}

#[test]
fn parse_is_stable_on_its_own_output() {
    for s in ["phx_whatever", "broadcast", "custom", "phx_leave", "heartbeat", ""] {
        let once = ChannelEvent::parse(s);
        let twice = ChannelEvent::parse(once.as_str());
        assert_eq!(once, twice);
    }
    // a parsed name writes back as itself, except unknown phx_ names
    assert_eq!(ChannelEvent::parse("custom").as_str(), "custom");
    assert_eq!(ChannelEvent::parse("phx_unknown").as_str(), "phx_error");
}

#[test]
fn broadcast_with_name_differs_from_plain_broadcast() {
    let named = ChannelEvent::broadcast("message".to_string());
    assert_eq!(named, ChannelEvent::Broadcast(Some("message".to_string())));
    assert!(!named.same_as(&ChannelEvent::Broadcast(None)));
    assert!(named.same_as(&named.duplicate()));
}

#[test]
fn postgres_change_filter_builder() {
    let f = PostgresChangeFilter::new(PostgresChangeType::Insert, "public".to_string(), "todos".to_string());
    assert_eq!(f.filter, None);
    let f = f.with_filter("id=eq.1".to_string());
    assert_eq!(f.event, PostgresChangeType::Insert);
    assert_eq!(f.schema, "public");
    assert_eq!(f.table, "todos");
    assert_eq!(f.filter, Some("id=eq.1".to_string()));
}
