use supabase_realtime::client::{build_endpoint_url, full_topic, ClientState, RealtimeClientBuilder, RealtimeClientOptions};
use supabase_realtime::connection::{
    connect_needed, disconnect_needed, push_allowed, reconnect_step, reconnect_wanted, ConnectionManager,
    ReconnectAction, ReconnectEvent, read_step, FrameKind, ReadAction,
};
use supabase_realtime::constants::ConnectionState;
use supabase_realtime::error::RealtimeError;
use supabase_realtime::event::{ChannelEvent, SystemEvent};
use supabase_realtime::heartbeat::{heartbeat_sent, heartbeat_tick, HeartbeatAction};
use supabase_realtime::message::RealtimeMessage;
use supabase_realtime::router::{route_step, RouteAction, RouteStage, handle_heartbeat_ack, is_heartbeat_message, is_reply, reply_response, reply_status, reply_target};
use supabase_realtime::timer::Timer;
use std::time::Duration;

#[test]
fn builder_requires_api_key() {
    match RealtimeClientBuilder::new("wss://x/realtime/v1".to_string(), RealtimeClientOptions::default()) {
        Err(RealtimeError::Auth(m)) => assert_eq!(m, "API key is required"),
        _ => panic!("expected an auth error"),
    }
    let options = RealtimeClientOptions { api_key: "key".to_string(), ..RealtimeClientOptions::default() };
    let b = RealtimeClientBuilder::new("wss://x/realtime/v1".to_string(), options).unwrap();
    let (endpoint, options) = b.into_parts();
    assert_eq!(endpoint, "wss://x/realtime/v1");
    assert_eq!(options.api_key(), "key");
    assert_eq!(options.access_token(), None);
    assert_eq!(options.heartbeat_interval_ms(), 25000);
}

#[test]
fn builder_refuses_malformed_endpoint() {
    let options = RealtimeClientOptions { api_key: "k".to_string(), ..RealtimeClientOptions::default() };
    match RealtimeClientBuilder::new("not a url".to_string(), options) {
        Err(RealtimeError::UrlParse(_)) => {}
        _ => panic!("expected a URL parse error"),
    }
    // the API key is checked first
    match RealtimeClientBuilder::new("not a url".to_string(), RealtimeClientOptions::default()) {
        Err(RealtimeError::Auth(_)) => {}
        _ => panic!("expected an auth error"),
    }
    let options = RealtimeClientOptions { api_key: "your-anon-key".to_string(), ..RealtimeClientOptions::default() };
    assert!(RealtimeClientBuilder::new("wss://your-project.supabase.co/realtime/v1".to_string(), options).is_ok());
}

#[test]
fn endpoint_url_carries_api_key() {
    let url = build_endpoint_url("wss://abc.supabase.co/realtime/v1", "k y").unwrap();
    assert_eq!(url, "wss://abc.supabase.co/realtime/v1?apikey=k+y");
    match build_endpoint_url("not a url", "k") {
        Err(RealtimeError::UrlParse(_)) => {}
        _ => panic!("expected a URL parse error"),
    }
}

#[test]
fn refs_count_up_in_decimal() {
    let mut s: ClientState<()> = ClientState::new();
    let refs: Vec<String> = (0..12).map(|_| s.make_ref()).collect();
    assert_eq!(refs[0], "1");
    assert_eq!(refs[9], "10");
    assert_eq!(refs[11], "12");
    let mut sorted = refs.clone();
    sorted.sort();
    sorted.dedup();
    assert_eq!(sorted.len(), refs.len());
    s.ref_counter = 18446744073709551614;
    assert_eq!(s.make_ref(), "18446744073709551615");
}

#[test]
fn channel_registry() {
    let mut s: ClientState<u8> = ClientState::new();
    assert_eq!(full_topic("room"), "realtime:room");
    assert_eq!(s.find_channel("realtime:room"), None);
    s.add_channel(full_topic("room"), 1);
    s.add_channel(full_topic("other"), 2);
    s.add_channel(full_topic("third"), 3);
    assert_eq!(s.find_channel("realtime:room"), Some(0));
    assert_eq!(s.find_channel("realtime:other"), Some(1));
    assert_eq!(s.channels[1].1, 2);
    assert_eq!(s.topic_targets("realtime:room"), vec![0]);
    assert_eq!(s.topic_targets("realtime:third"), vec![2]);
    assert_eq!(s.topic_targets("realtime:none"), Vec::<usize>::new());
}

#[test]
fn connection_decisions() {
    assert!(connect_needed(ConnectionState::Closed));
    assert!(connect_needed(ConnectionState::Closing));
    assert!(!connect_needed(ConnectionState::Open));
    assert!(!connect_needed(ConnectionState::Connecting));
    assert!(!disconnect_needed(ConnectionState::Closed));
    assert!(disconnect_needed(ConnectionState::Open));
    assert!(reconnect_wanted(ConnectionState::Closed, false));
    assert!(!reconnect_wanted(ConnectionState::Closed, true));
    assert!(!reconnect_wanted(ConnectionState::Open, false));
    assert!(push_allowed(true).is_ok());
    assert!(matches!(push_allowed(false), Err(RealtimeError::NotConnected)));
    let mut c: ConnectionManager<u8> = ConnectionManager::new();
    assert_eq!(c.state(), ConnectionState::Closed);
    assert!(c.writer_mut().is_none());
    c.set_writer(4);
    c.set_state(ConnectionState::Open);
    assert!(c.is_connected());
    *c.writer_mut().unwrap() = 5;
    assert_eq!(c.writer_mut(), Some(&mut 5));
    c.clear_writer();
    assert!(c.writer_mut().is_none());
}

#[test]
fn timer_backs_off_then_levels_off() {
    let mut t = Timer::default();
    let delays: Vec<Duration> = (0..6).map(|_| t.next_delay()).collect();
    let ms: Vec<u128> = delays.iter().map(|d| d.as_millis()).collect();
    assert_eq!(ms, vec![1000, 2000, 5000, 10000, 10000, 10000]);
    assert_eq!(t.attempts(), 6);
    t.reset();
    assert_eq!(t.attempts(), 0);
    assert_eq!(t.next_delay(), Duration::from_millis(1000));
    assert_eq!(t.attempts(), 1);
    let mut empty = Timer::new(Vec::new());
    assert_eq!(empty.next_delay(), Duration::from_millis(10000));
}

#[test]
fn heartbeat_sends_then_times_out_until_acknowledged() {
    let mut s: ClientState<()> = ClientState::new();
    assert!(matches!(heartbeat_tick(false, true, &mut s), HeartbeatAction::Stop));
    assert!(matches!(heartbeat_tick(true, false, &mut s), HeartbeatAction::Skip));
    let msg = match heartbeat_tick(true, true, &mut s) {
        HeartbeatAction::Send(m) => m,
        _ => panic!("expected a heartbeat"),
    };
    assert_eq!(msg.topic, "phoenix");
    assert_eq!(msg.event, ChannelEvent::System(SystemEvent::Heartbeat));
    assert_eq!(msg.payload, j(r#"{}"#));
    assert_eq!(msg.msg_ref, Some("1".to_string()));
    heartbeat_sent(&mut s, "1".to_string());
    assert!(matches!(heartbeat_tick(true, true, &mut s), HeartbeatAction::Timeout));

    // a reply with another reference does not acknowledge it
    let other = RealtimeMessage::new("phoenix".to_string(), ChannelEvent::System(SystemEvent::Reply), j(r#"{}"#))
        .with_ref("2".to_string());
    assert!(is_heartbeat_message(&other));
    handle_heartbeat_ack(&mut s, &other);
    assert_eq!(s.pending_heartbeat_ref, Some("1".to_string()));

    let ack = RealtimeMessage::new("phoenix".to_string(), ChannelEvent::System(SystemEvent::Reply), j(r#"{}"#))
        .with_ref("1".to_string());
    handle_heartbeat_ack(&mut s, &ack);
    assert_eq!(s.pending_heartbeat_ref, None);
    match heartbeat_tick(true, true, &mut s) {
        HeartbeatAction::Send(m) => assert_eq!(m.msg_ref, Some("2".to_string())),
        _ => panic!("expected a heartbeat"),
    }
}

#[test]
fn heartbeat_at_counter_limit_only_fails_to_send() {
    let mut s: ClientState<()> = ClientState::new();
    s.ref_counter = u64::MAX;
    assert!(matches!(heartbeat_tick(true, false, &mut s), HeartbeatAction::Skip));
    s.pending_heartbeat_ref = Some("7".to_string());
    assert!(matches!(heartbeat_tick(true, true, &mut s), HeartbeatAction::Timeout));
    assert_eq!(s.ref_counter, u64::MAX);
}

#[test]
fn router_recognises_messages() {
    let reply = RealtimeMessage::new("realtime:a".to_string(), ChannelEvent::System(SystemEvent::Reply), j(r#"{}"#));
    assert!(is_reply(&reply));
    assert!(!is_heartbeat_message(&reply));
    let hb = RealtimeMessage::new("x".to_string(), ChannelEvent::System(SystemEvent::Heartbeat), j(r#"{}"#));
    assert!(is_heartbeat_message(&hb));
    let custom = RealtimeMessage::new("phoenix".to_string(), ChannelEvent::Custom("c".to_string()), j(r#"{}"#));
    assert!(!is_heartbeat_message(&custom));
    assert!(!is_reply(&custom));
}

#[test]
fn router_reply_target_and_payload() {
    let mut s: ClientState<u8> = ClientState::new();
    s.add_channel("realtime:z".to_string(), 2);
    s.add_channel("realtime:a".to_string(), 1);
    let no_ref = RealtimeMessage::new("realtime:a".to_string(), ChannelEvent::System(SystemEvent::Reply), j(r#"{}"#));
    assert_eq!(reply_target(&s, &no_ref), None);
    let with_ref = no_ref.with_ref("r".to_string());
    assert_eq!(reply_target(&s, &with_ref), Some((1, "r".to_string())));
    let elsewhere = RealtimeMessage::new("realtime:b".to_string(), ChannelEvent::System(SystemEvent::Reply), j(r#"{}"#))
        .with_ref("r".to_string());
    assert_eq!(reply_target(&s, &elsewhere), None);

    assert_eq!(reply_status(&j(r#"{"status": "ok", "response": {"a": 1}}"#)), "ok");
    assert_eq!(reply_status(&j(r#"{"response": {}}"#)), "error");
    assert_eq!(reply_status(&j(r#"{"status": 3}"#)), "error");
    assert_eq!(reply_response(&j(r#"{"status": "ok", "response": {"a": 1}}"#)), j(r#"{"a": 1}"#));
    assert_eq!(reply_response(&j(r#"{"status": "ok"}"#)), serde_json::Value::Null);
}

fn j(text: &str) -> serde_json::Value {
    serde_json::from_str(text).unwrap()
}

#[test]
fn defaults_are_fresh() {
    let s: ClientState<u8> = ClientState::default();
    assert_eq!(s.ref_counter, 0);
    assert!(s.pending_heartbeat_ref.is_none());
    assert!(s.channels.is_empty());
    assert!(!s.was_manual_disconnect);
    let c: ConnectionManager<()> = ConnectionManager::default();
    assert_eq!(c.state(), ConnectionState::Closed);
    assert!(!c.is_connected());
    let o = RealtimeClientOptions::default();
    assert_eq!(o.api_key(), "");
    assert_eq!(o.access_token(), None);
    assert_eq!(o.heartbeat_interval_ms(), 25000);
}

#[test]
fn connection_attempts_mark_and_reset_state() {
    let mut c: ConnectionManager<()> = ConnectionManager::new();
    assert!(c.begin_connect());
    assert_eq!(c.state(), ConnectionState::Connecting);
    // a second attempt while connecting does nothing
    assert!(!c.begin_connect());
    c.fail_connect();
    assert_eq!(c.state(), ConnectionState::Closed);
    assert!(c.begin_connect());
    c.set_state(ConnectionState::Open);
    assert!(!c.begin_connect());
    assert_eq!(c.state(), ConnectionState::Open);
}

#[test]
fn reconnection_steps_back_off() {
    let mut t = Timer::default();
    assert!(matches!(reconnect_step(ReconnectEvent::Started(true), &mut t), ReconnectAction::Stop));
    assert!(matches!(reconnect_step(ReconnectEvent::Started(false), &mut t), ReconnectAction::ReadState));
    assert!(matches!(
        reconnect_step(ReconnectEvent::StateRead(ConnectionState::Closed), &mut t),
        ReconnectAction::Connect
    ));
    assert!(matches!(
        reconnect_step(ReconnectEvent::StateRead(ConnectionState::Connecting), &mut t),
        ReconnectAction::Stop
    ));
    let mut delays = Vec::new();
    for _ in 0..5 {
        match reconnect_step(ReconnectEvent::ConnectFailed, &mut t) {
            ReconnectAction::Wait(d) => delays.push(d.as_millis()),
            _ => panic!("expected a wait"),
        }
        assert!(matches!(reconnect_step(ReconnectEvent::Waited, &mut t), ReconnectAction::ReadState));
    }
    assert_eq!(delays, vec![1000, 2000, 5000, 10000, 10000]);
    assert!(matches!(reconnect_step(ReconnectEvent::Connected, &mut t), ReconnectAction::Resubscribe));
}

#[test]
fn channels_are_registered_once_per_topic() {
    let mut s: ClientState<u8> = ClientState::new();
    assert_eq!(s.register_channel(full_topic("room"), 1), 0);
    assert_eq!(s.register_channel(full_topic("other"), 2), 1);
    // asking again for a topic gives the registered channel, the offer unused
    assert_eq!(s.register_channel(full_topic("room"), 9), 0);
    assert_eq!(s.channels.len(), 2);
    assert_eq!(s.channels[0], ("realtime:room".to_string(), 1));
}

#[test]
fn read_task_and_routing_steps() {
    assert_eq!(read_step(FrameKind::Text), ReadAction::Decode);
    assert_eq!(read_step(FrameKind::Close), ReadAction::CloseAndStop);
    assert_eq!(read_step(FrameKind::ReadError), ReadAction::CloseAndStop);
    assert_eq!(read_step(FrameKind::Ping), ReadAction::Skip);
    assert_eq!(read_step(FrameKind::Binary), ReadAction::Skip);

    let ack = RealtimeMessage::new("phoenix".to_string(), ChannelEvent::System(SystemEvent::Reply), j("{}"));
    assert_eq!(route_step(&ack, RouteStage::Start), RouteAction::AckHeartbeat);
    assert_eq!(route_step(&ack, RouteStage::HeartbeatHandled), RouteAction::SettlePush);
    assert_eq!(route_step(&ack, RouteStage::ReplyTried(false)), RouteAction::Deliver);
    let reply = RealtimeMessage::new("realtime:a".to_string(), ChannelEvent::System(SystemEvent::Reply), j("{}"));
    assert_eq!(route_step(&reply, RouteStage::Start), RouteAction::SettlePush);
    assert_eq!(route_step(&reply, RouteStage::ReplyTried(true)), RouteAction::Stop);
    let other = RealtimeMessage::new("realtime:a".to_string(), ChannelEvent::Custom("x".to_string()), j("{}"));
    assert_eq!(route_step(&other, RouteStage::Start), RouteAction::Deliver);
}
