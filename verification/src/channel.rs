//! The state of a channel and the decisions of its operations: event
//! bindings and which of them an incoming event reaches, joining and
//! leaving, broadcasting, pushes awaiting a reply.
//!
//! The channel's transport side (locks, listener queues, the client it
//! sends through) holds a `ChannelState` and follows these decisions.

use vstd::prelude::*;
use serde_json::Value;
use crate::assoc::{assoc_map, has_key, keys_unique, lemma_assoc, lemma_assoc_push, lemma_assoc_remove, lemma_assoc_update};
use crate::config::{
    BroadcastConfig, ChannelJoinConfig, JoinPayload, JoinPayloadView, PgConfigView,
    PostgresChangesConfig, PostgresEventType, PresenceConfig, configs_view,
};
use crate::event::{ChannelEvent, ChannelEventView, SystemEvent};
use crate::json::{json_as_str, json_get, json_object, json_object_of, json_string, json_string_of};
use crate::error::RealtimeError;
use crate::message::{MessageView, RealtimeMessage, opt_view};
use crate::presence::Presence;
use crate::text::{owned, str_eq};

verus! {

/// Channel status.
#[derive(Debug, Clone, Copy, PartialEq, Eq, Structural)]
pub enum ChannelStatus {
    Closed,
    Errored,
    Joined,
    Joining,
    Leaving,
}

/// Typed event payloads for different channel events.
pub enum EventPayload {
    /// Postgres database change events (INSERT, UPDATE, DELETE)
    PostgresChanges(crate::postgres_changes::PostgresChangesPayload),
    /// Broadcast messages (user-defined pub/sub)
    Broadcast(Value),
    /// Presence state (full list of present users)
    PresenceState(Value),
    /// Presence diff (joins/leaves)
    PresenceDiff(Value),
    /// System events (replies, errors, etc.)
    System(Value),
    /// Custom user-defined events
    Custom(Value),
}

/// A listener registered on a channel: the event it listens to, an optional
/// Postgres changes filter (named strings), and where its payloads go.
pub struct EventBinding<S> {
    pub event: ChannelEvent,
    pub filter: Option<Vec<(String, String)>>,
    pub sender: S,
}

/// Configuration options for a realtime channel.
#[derive(Debug, Clone)]
pub struct RealtimeChannelOptions {
    /// Whether to receive your own broadcast messages.
    pub broadcast_self: bool,
    /// Whether to receive acknowledgments for broadcast messages.
    pub broadcast_ack: bool,
    /// Unique key for presence tracking. If `Some`, enables presence tracking.
    pub presence_key: Option<String>,
    /// Whether this is a private channel requiring authorization.
    pub is_private: bool,
}

impl Default for RealtimeChannelOptions {
    fn default() -> (r: RealtimeChannelOptions)
        ensures
            !r.broadcast_self,
            !r.broadcast_ack,
            r.presence_key is None,
            !r.is_private,
    {
        RealtimeChannelOptions {
            broadcast_self: false,
            broadcast_ack: false,
            presence_key: None,
            is_private: false,
        }
    }
}

/// Mutable state of a channel: status, listeners, pushes awaiting a reply
/// (by reference), presence, and the reference of the current join.
pub struct ChannelState<S, P> {
    pub status: ChannelStatus,
    pub bindings: Vec<EventBinding<S>>,
    pub pending_pushes: Vec<(String, P)>,
    pub presence: Presence,
    pub join_ref: Option<String>,
}

/// A string-keyed list as a list of keys.
pub open spec fn keys_of<P>(v: Seq<(String, P)>) -> Seq<(Seq<char>, P)> {
    v.map_values(|p: (String, P)| (p.0@, p.1))
}

/// The mathematical value of a listener (its sender left out).
pub struct BindingView {
    pub event: ChannelEventView,
    pub filter: Option<Seq<(Seq<char>, Seq<char>)>>,
}

impl<S> View for EventBinding<S> {
    type V = BindingView;

    open spec fn view(&self) -> BindingView {
        BindingView {
            event: self.event@,
            filter: match self.filter {
                Some(f) => Some(crate::postgres_changes::pairs_view(f@)),
                None => None,
            },
        }
    }
}

pub open spec fn bindings_view<S>(v: Seq<EventBinding<S>>) -> Seq<BindingView> {
    v.map_values(|b: EventBinding<S>| b@)
}

/// What a filter looks at in a Postgres change.
pub struct PgChangeView {
    pub event_type: PostgresEventType,
    pub schema: Seq<char>,
    pub table: Seq<char>,
}

impl View for crate::config::PostgresChangesPayload {
    type V = PgChangeView;

    open spec fn view(&self) -> PgChangeView {
        PgChangeView {
            event_type: self.data.event_type,
            schema: self.data.schema@,
            table: self.data.table@,
        }
    }
}

/// The name of a change kind: `INSERT`, `UPDATE` or `DELETE`.
pub open spec fn change_name(t: PostgresEventType) -> Seq<char> {
    match t {
        PostgresEventType::Insert => "INSERT"@,
        PostgresEventType::Update => "UPDATE"@,
        PostgresEventType::Delete => "DELETE"@,
    }
}

/// One named string of a filter accepts a change: `event` is `*` or the
/// change's kind, `schema` and `table` are the change's; the row filter
/// (`filter`) accepts every change, as the server applies it before sending;
/// any other name accepts nothing.
pub open spec fn pair_accepts(p: (Seq<char>, Seq<char>), c: PgChangeView) -> bool {
    if p.0 == "event"@ {
        p.1 == "*"@ || p.1 == change_name(c.event_type)
    } else if p.0 == "schema"@ {
        p.1 == c.schema
    } else if p.0 == "table"@ {
        p.1 == c.table
    } else {
        p.0 == "filter"@
    }
}

/// A filter accepts a change when each of its named strings does.
pub open spec fn filter_accepts(f: Seq<(Seq<char>, Seq<char>)>, c: PgChangeView) -> bool {
    forall|i: int| 0 <= i < f.len() ==> #[trigger] pair_accepts(f[i], c)
}

/// Whether a Postgres changes filter accepts a change.
pub fn matches_postgres_filter(
    filter: &Vec<(String, String)>,
    payload: &crate::config::PostgresChangesPayload,
) -> (r: bool)
    ensures
        r == filter_accepts(crate::postgres_changes::pairs_view(filter@), payload@),
{
    let ghost f = crate::postgres_changes::pairs_view(filter@);
    let event_str = match payload.data.event_type {
        PostgresEventType::Insert => "INSERT",
        PostgresEventType::Update => "UPDATE",
        PostgresEventType::Delete => "DELETE",
    };
    let mut i: usize = 0;
    while i < filter.len()
        invariant
            i <= filter@.len(),
            f == crate::postgres_changes::pairs_view(filter@),
            event_str@ == change_name(payload.data.event_type),
            forall|j: int| 0 <= j < i ==> #[trigger] pair_accepts(f[j], payload@),
        decreases filter@.len() - i,
    {
        let key = filter[i].0.as_str();
        let value = filter[i].1.as_str();
        assert(f[i as int] == (key@, value@));
        let ok = if str_eq(key, "event") {
            str_eq(value, "*") || str_eq(value, event_str)
        } else if str_eq(key, "schema") {
            str_eq(value, payload.data.schema.as_str())
        } else if str_eq(key, "table") {
            str_eq(value, payload.data.table.as_str())
        } else {
            str_eq(key, "filter")
        };
        if !ok {
            assert(!pair_accepts(f[i as int], payload@));
            return false;
        }
        i = i + 1;
    }
    true
}

/// The inner event name of a broadcast payload: its `event` field, when that
/// is a string.
pub open spec fn broadcast_name_of(payload: Value) -> Option<Seq<char>> {
    crate::message::field_text(payload, "event"@)
}

/// A listener receives an event (already read back from its name) when:
/// for a named broadcast listener, the event is a broadcast whose inner
/// event name (`inner`) is that name; for any other listener, it listens to
/// exactly that event and, for a filtered Postgres changes listener, the
/// change was read and its filter accepts it.
pub open spec fn receives(
    b: BindingView,
    ev: ChannelEventView,
    change: Option<PgChangeView>,
    inner: Option<Seq<char>>,
) -> bool {
    match b.event {
        ChannelEventView::Broadcast(Some(name)) => ev is Broadcast && inner == Some(name),
        _ => {
            &&& b.event == ev
            &&& (ev is PostgresChanges && b.filter is Some) ==> (change matches Some(c)
                && filter_accepts(b.filter->0, c))
        },
    }
}

/// The positions of the listeners that receive an event, in order.
pub open spec fn receivers(
    bs: Seq<BindingView>,
    ev: ChannelEventView,
    change: Option<PgChangeView>,
    inner: Option<Seq<char>>,
) -> Seq<usize> {
    Seq::new(bs.len(), |i: int| i as usize).filter(|i: usize| receives(bs[i as int], ev, change, inner))
}

/// The value of a key in a list of named strings: the first pair with it.
pub open spec fn first_value(pairs: Seq<(Seq<char>, Seq<char>)>, k: Seq<char>) -> Option<Seq<char>>
    decreases pairs.len(),
{
    if pairs.len() == 0 {
        None
    } else if pairs[0].0 == k {
        Some(pairs[0].1)
    } else {
        first_value(pairs.drop_first(), k)
    }
}

/// The subscription a filter asks for at join time: its `event` (default
/// `*`), `schema` (default `public`), `table` and `filter`.
pub open spec fn config_of_filter(f: Seq<(Seq<char>, Seq<char>)>) -> PgConfigView {
    PgConfigView {
        event: match first_value(f, "event"@) {
            Some(v) => v,
            None => "*"@,
        },
        schema: match first_value(f, "schema"@) {
            Some(v) => v,
            None => "public"@,
        },
        table: first_value(f, "table"@),
        filter: first_value(f, "filter"@),
    }
}

/// A listener that asks the server for Postgres changes.
pub open spec fn asks_postgres(b: BindingView) -> bool {
    b.event is PostgresChanges && b.filter is Some
}

/// The subscriptions a join asks for: one per filtered Postgres changes
/// listener, in order.
pub open spec fn join_configs(bs: Seq<BindingView>) -> Seq<PgConfigView> {
    bs.filter(|b: BindingView| asks_postgres(b)).map_values(|b: BindingView| config_of_filter(b.filter->0))
}

/// The join payload of a channel with options `o`, listeners `bs` and the
/// client's access token.
pub open spec fn join_payload_of(
    broadcast_self: bool,
    broadcast_ack: bool,
    presence_key: Option<Seq<char>>,
    is_private: bool,
    configs: Seq<PgConfigView>,
    access_token: Option<Seq<char>>,
) -> JoinPayloadView {
    JoinPayloadView {
        broadcast_self,
        broadcast_ack,
        presence_key,
        presence_enabled: presence_key is Some,
        is_private,
        postgres_changes: if configs.len() == 0 {
            None
        } else {
            Some(configs)
        },
        access_token,
    }
}

/// The value of a key in a list of named strings.
fn lookup_pair(pairs: &Vec<(String, String)>, key: &str) -> (r: Option<String>)
    ensures
        opt_view(r) == first_value(crate::postgres_changes::pairs_view(pairs@), key@),
{
    let ghost pv = crate::postgres_changes::pairs_view(pairs@);
    let mut i: usize = 0;
    assert(pv.skip(0) =~= pv);
    while i < pairs.len()
        invariant
            i <= pairs@.len(),
            pv == crate::postgres_changes::pairs_view(pairs@),
            first_value(pv, key@) == first_value(pv.skip(i as int), key@),
        decreases pairs@.len() - i,
    {
        let ghost rest = pv.skip(i as int);
        assert(rest[0] == pv[i as int]);
        assert(rest.drop_first() =~= pv.skip(i + 1));
        if str_eq(pairs[i].0.as_str(), key) {
            return Some(pairs[i].1.clone());
        }
        i = i + 1;
    }
    assert(pv.skip(i as int).len() == 0);
    None
}

/// The subscription a filter asks for at join time.
fn config_from_filter(f: &Vec<(String, String)>) -> (r: PostgresChangesConfig)
    ensures
        r@ == config_of_filter(crate::postgres_changes::pairs_view(f@)),
{
    let event = match lookup_pair(f, "event") {
        Some(v) => v,
        None => owned("*"),
    };
    let schema = match lookup_pair(f, "schema") {
        Some(v) => v,
        None => owned("public"),
    };
    let table = lookup_pair(f, "table");
    let filter = lookup_pair(f, "filter");
    PostgresChangesConfig { event, schema, table, filter }
}

/// The message that joins `topic` with `payload`, with its reference and
/// join reference.
pub open spec fn join_message_of(
    topic: Seq<char>,
    payload: JoinPayloadView,
    msg_ref: Seq<char>,
    join_ref: Seq<char>,
) -> MessageView {
    MessageView {
        topic,
        event: ChannelEventView::System(SystemEvent::Join),
        payload: crate::config::join_payload_json(payload),
        msg_ref: Some(msg_ref),
        join_ref: Some(join_ref),
    }
}

/// The message of a presence request on a channel that is not joined.
pub open spec fn not_subscribed_text() -> Seq<char> {
    "channel is not subscribed"@
}

/// The message that leaves `topic`.
pub open spec fn leave_message_of(topic: Seq<char>) -> MessageView {
    MessageView {
        topic,
        event: ChannelEventView::System(SystemEvent::Leave),
        payload: json_object_of(Seq::empty()),
        msg_ref: None,
        join_ref: None,
    }
}

/// The WebSocket message of a broadcast on `topic`: sent on the topic
/// `<topic>:broadcast`, payload `{"type": "broadcast", "payload": ..}`.
pub open spec fn broadcast_message_of(topic: Seq<char>, event: ChannelEventView, payload: Value) -> MessageView {
    MessageView {
        topic: topic + ":broadcast"@,
        event,
        payload: json_object_of(seq![("type"@, json_string_of("broadcast"@)), ("payload"@, payload)]),
        msg_ref: None,
        join_ref: None,
    }
}

/// The message that leaves `topic`.
pub fn leave_message(topic: &str) -> (r: RealtimeMessage)
    ensures
        r@ == leave_message_of(topic@),
{
    let payload = json_object(Vec::new());
    proof {
        assert(crate::json::fields_view(Seq::<(String, Value)>::empty()) =~= Seq::empty());
    }
    RealtimeMessage::new(owned(topic), ChannelEvent::System(SystemEvent::Leave), payload)
}

/// The WebSocket message of a broadcast.
pub fn broadcast_message(topic: &str, event: ChannelEvent, payload: Value) -> (r: RealtimeMessage)
    ensures
        r@ == broadcast_message_of(topic@, event@, payload),
{
    let mut t = owned(topic);
    t.append(":broadcast");
    let mut fields: Vec<(String, Value)> = Vec::new();
    fields.push((owned("type"), json_string("broadcast")));
    fields.push((owned("payload"), payload));
    assert(crate::json::fields_view(fields@) =~= seq![
        ("type"@, json_string_of("broadcast"@)),
        ("payload"@, payload),
    ]);
    RealtimeMessage::new(t, event, json_object(fields))
}

/// The next step of sending a broadcast.
#[derive(Debug, Clone, Copy, PartialEq, Eq, Structural)]
pub enum BroadcastStep {
    /// Push it over the WebSocket.
    WebSocket,
    /// Post it over HTTP.
    Http,
    /// It was sent.
    Done,
}

/// The next step of sending a broadcast. Before any attempt
/// (`websocket_sent` is `None`) a broadcast goes over the WebSocket when
/// the channel is joined and the client connected, and over HTTP otherwise;
/// after a WebSocket push it is done if the push went through, and falls
/// back to HTTP if it failed.
pub fn broadcast_step(is_joined: bool, is_connected: bool, websocket_sent: Option<bool>) -> (r:
    BroadcastStep)
    ensures
        websocket_sent is None && is_joined && is_connected ==> r == BroadcastStep::WebSocket,
        websocket_sent is None && !(is_joined && is_connected) ==> r == BroadcastStep::Http,
        websocket_sent == Some(true) ==> r == BroadcastStep::Done,
        websocket_sent == Some(false) ==> r == BroadcastStep::Http,
{
    match websocket_sent {
        None => if is_joined && is_connected {
            BroadcastStep::WebSocket
        } else {
            BroadcastStep::Http
        },
        Some(true) => BroadcastStep::Done,
        Some(false) => BroadcastStep::Http,
    }
}

/// The payload that tracks presence with `metadata`:
/// `{"type": "presence", "event": "track", "payload": metadata}`.
pub open spec fn track_payload_of(metadata: Value) -> Value {
    json_object_of(
        seq![
            ("type"@, json_string_of("presence"@)),
            ("event"@, json_string_of("track"@)),
            ("payload"@, metadata),
        ],
    )
}

/// The payload that stops tracking presence:
/// `{"type": "presence", "event": "untrack"}`.
pub open spec fn untrack_payload_of() -> Value {
    json_object_of(seq![("type"@, json_string_of("presence"@)), ("event"@, json_string_of("untrack"@))])
}

/// The payload that tracks presence with `metadata`.
pub fn track_payload(metadata: Value) -> (r: Value)
    ensures
        r == track_payload_of(metadata),
{
    let mut fields: Vec<(String, Value)> = Vec::new();
    fields.push((owned("type"), json_string("presence")));
    fields.push((owned("event"), json_string("track")));
    fields.push((owned("payload"), metadata));
    assert(crate::json::fields_view(fields@) =~= seq![
        ("type"@, json_string_of("presence"@)),
        ("event"@, json_string_of("track"@)),
        ("payload"@, metadata),
    ]);
    json_object(fields)
}

/// The payload that stops tracking presence.
pub fn untrack_payload() -> (r: Value)
    ensures
        r == untrack_payload_of(),
{
    let mut fields: Vec<(String, Value)> = Vec::new();
    fields.push((owned("type"), json_string("presence")));
    fields.push((owned("event"), json_string("untrack")));
    assert(crate::json::fields_view(fields@) =~= seq![
        ("type"@, json_string_of("presence"@)),
        ("event"@, json_string_of("untrack"@)),
    ]);
    json_object(fields)
}

/// The join payload of a channel.
pub fn join_payload(
    options: &RealtimeChannelOptions,
    configs: Vec<PostgresChangesConfig>,
    access_token: Option<String>,
) -> (r: JoinPayload)
    ensures
        r@ == join_payload_of(
            options.broadcast_self,
            options.broadcast_ack,
            opt_view(options.presence_key),
            options.is_private,
            configs_view(configs@),
            opt_view(access_token),
        ),
{
    let key = match &options.presence_key {
        Some(k) => Some(k.clone()),
        None => None,
    };
    let enabled = options.presence_key.is_some();
    let postgres_changes = if configs.len() == 0 {
        None
    } else {
        Some(configs)
    };
    JoinPayload {
        config: ChannelJoinConfig {
            broadcast: BroadcastConfig { self_: options.broadcast_self, ack: options.broadcast_ack },
            presence: PresenceConfig { key, enabled },
            is_private: options.is_private,
            postgres_changes,
        },
        access_token,
    }
}

/// The message that joins `topic`.
pub fn join_message(topic: &str, payload: &JoinPayload, msg_ref: String, join_ref: String) -> (r:
    RealtimeMessage)
    ensures
        r@ == join_message_of(topic@, payload@, msg_ref@, join_ref@),
{
    RealtimeMessage::new(owned(topic), ChannelEvent::System(SystemEvent::Join), payload.to_value()).with_ref(
        msg_ref,
    ).with_join_ref(join_ref)
}

/// The mathematical value of a channel state.
pub struct ChannelStateView<P> {
    pub status: ChannelStatus,
    pub bindings: Seq<BindingView>,
    pub pending_pushes: Map<Seq<char>, P>,
    pub join_ref: Option<Seq<char>>,
}

impl<S, P> ChannelState<S, P> {
    /// The state's invariant: pending pushes have distinct references and the
    /// presence is well formed.
    pub open spec fn wf(&self) -> bool {
        keys_unique(keys_of(self.pending_pushes@)) && self.presence.wf()
    }

    /// The mathematical value of the state.
    pub open spec fn model(&self) -> ChannelStateView<P> {
        ChannelStateView {
            status: self.status,
            bindings: bindings_view(self.bindings@),
            pending_pushes: assoc_map(keys_of(self.pending_pushes@)),
            join_ref: opt_view(self.join_ref),
        }
    }

    /// A closed channel with no listener, no pending push and no presence.
    pub fn new() -> (r: ChannelState<S, P>)
        ensures
            r.wf(),
            r.model().status == ChannelStatus::Closed,
            r.model().bindings == Seq::<BindingView>::empty(),
            r.model().pending_pushes == Map::<Seq<char>, P>::empty(),
            r.model().join_ref is None,
            r.presence@.state == Map::<Seq<char>, Seq<crate::presence::MetaView>>::empty(),
    {
        let r = ChannelState {
            status: ChannelStatus::Closed,
            bindings: Vec::new(),
            pending_pushes: Vec::new(),
            presence: Presence::new(),
            join_ref: None,
        };
        assert(keys_of(r.pending_pushes@) =~= Seq::empty());
        assert(bindings_view(r.bindings@) =~= Seq::empty());
        assert(assoc_map(keys_of(r.pending_pushes@)) =~= Map::empty());
        r
    }

    /// Whether the channel is joined.
    pub fn was_joined(&self) -> (r: bool)
        ensures
            r == (self.status == ChannelStatus::Joined),
    {
        self.status == ChannelStatus::Joined
    }

    /// Registers a listener.
    pub fn add_binding(&mut self, binding: EventBinding<S>)
        ensures
            final(self).model() == (ChannelStateView {
                bindings: old(self).model().bindings.push(binding@),
                ..old(self).model()
            }),
            final(self).bindings@ == old(self).bindings@.push(binding),
            final(self).presence == old(self).presence,
            final(self).pending_pushes == old(self).pending_pushes,
    {
        self.bindings.push(binding);
        assert(bindings_view(self.bindings@) =~= bindings_view(old(self).bindings@).push(binding@));
    }

    /// The positions of the listeners that an incoming event with `payload`
    /// reaches, in order. `change` is the payload read as a Postgres change,
    /// or `None` where it could not be read; it matters only for filtered
    /// Postgres changes listeners. The payload's `event` field matters only
    /// for named broadcast listeners.
    pub fn dispatch_targets(
        &self,
        event: &ChannelEvent,
        payload: &Value,
        change: Option<&crate::config::PostgresChangesPayload>,
    ) -> (r: Vec<usize>)
        ensures
            r@ == receivers(
                self.model().bindings,
                ChannelEventView::parse_spec(event@.text()),
                match change {
                    Some(c) => Some(c@),
                    None => None,
                },
                broadcast_name_of(*payload),
            ),
    {
        let event_enum = ChannelEvent::parse(event.as_str());
        let ghost ev = event_enum@;
        let ghost ch = match change {
            Some(c) => Some(c@),
            None => None,
        };
        let ghost inn = broadcast_name_of(*payload);
        let ghost bs = bindings_view(self.bindings@);
        let ghost pred = |i: usize| receives(bs[i as int], ev, ch, inn);
        let is_pg = match &event_enum {
            ChannelEvent::PostgresChanges => true,
            _ => false,
        };
        let is_bc = match &event_enum {
            ChannelEvent::Broadcast(_) => true,
            _ => false,
        };
        let inner: Option<String> = if is_bc {
            match json_get(payload, "event") {
                Some(x) => json_as_str(&x),
                None => None,
            }
        } else {
            None
        };
        let mut r: Vec<usize> = Vec::new();
        let mut i: usize = 0;
        proof {
            reveal(Seq::filter);
            assert(Seq::new(0, |j: int| j as usize) =~= Seq::<usize>::empty());
        }
        while i < self.bindings.len()
            invariant
                i <= self.bindings@.len(),
                bs == bindings_view(self.bindings@),
                ev == event_enum@,
                is_pg == (ev is PostgresChanges),
                is_bc == (ev is Broadcast),
                is_bc ==> opt_view(inner) == inn,
                ch == match change {
                    Some(c) => Some(c@),
                    None => None::<PgChangeView>,
                },
                pred == (|i: usize| receives(bs[i as int], ev, ch, inn)),
                r@ == Seq::new(i as nat, |j: int| j as usize).filter(pred),
            decreases self.bindings@.len() - i,
        {
            let binding = &self.bindings[i];
            assert(bs[i as int] == binding@);
            let hit = match &binding.event {
                ChannelEvent::Broadcast(Some(name)) => is_bc && match &inner {
                    Some(n) => str_eq(n.as_str(), name.as_str()),
                    None => false,
                },
                _ => {
                    let mut h = binding.event.same_as(&event_enum);
                    if h && is_pg {
                        match &binding.filter {
                            Some(filter) => {
                                h = match change {
                                    Some(c) => matches_postgres_filter(filter, c),
                                    None => false,
                                };
                            },
                            None => {},
                        }
                    }
                    h
                },
            };
            assert(hit == pred(i));
            proof {
                let s0 = Seq::new(i as nat, |j: int| j as usize);
                assert(Seq::new((i + 1) as nat, |j: int| j as usize) =~= s0.push(i));
                s0.lemma_filter_push(i, pred);
            }
            if hit {
                r.push(i);
            }
            i = i + 1;
        }
        r
    }

    /// Starts a join: unless the channel is joined or joining, marks it
    /// joining and gives the Postgres changes subscriptions its listeners ask
    /// for. `None` means there is nothing to do.
    pub fn begin_subscribe(&mut self) -> (r: Option<Vec<PostgresChangesConfig>>)
        requires
            old(self).wf(),
        ensures
            final(self).wf(),
            final(self).bindings == old(self).bindings,
            final(self).pending_pushes == old(self).pending_pushes,
            final(self).presence == old(self).presence,
            old(self).status == ChannelStatus::Joined || old(self).status == ChannelStatus::Joining
                ==> r is None && final(self).model() == old(self).model(),
            !(old(self).status == ChannelStatus::Joined || old(self).status == ChannelStatus::Joining)
                ==> r is Some && configs_view(r->0@) == join_configs(old(self).model().bindings)
                && final(self).model() == (ChannelStateView {
                status: ChannelStatus::Joining,
                ..old(self).model()
            }),
    {
        if self.status == ChannelStatus::Joined || self.status == ChannelStatus::Joining {
            return None;
        }
        self.status = ChannelStatus::Joining;
        let ghost bs = bindings_view(self.bindings@);
        let ghost pred = |b: BindingView| asks_postgres(b);
        let ghost f = |b: BindingView| config_of_filter(b.filter->0);
        let mut configs: Vec<PostgresChangesConfig> = Vec::new();
        let mut i: usize = 0;
        proof {
            reveal(Seq::filter);
            assert(bs.take(0) =~= Seq::<BindingView>::empty());
            assert(configs_view(configs@) =~= Seq::<PgConfigView>::empty());
        }
        while i < self.bindings.len()
            invariant
                i <= self.bindings@.len(),
                bs == bindings_view(self.bindings@),
                pred == (|b: BindingView| asks_postgres(b)),
                f == (|b: BindingView| config_of_filter(b.filter->0)),
                configs_view(configs@) == bs.take(i as int).filter(pred).map_values(f),
            decreases self.bindings@.len() - i,
        {
            let binding = &self.bindings[i];
            assert(bs[i as int] == binding@);
            let ghost before = configs@;
            let is_pg = match &binding.event {
                ChannelEvent::PostgresChanges => true,
                _ => false,
            };
            if is_pg {
                match &binding.filter {
                    Some(filter) => {
                        configs.push(config_from_filter(filter));
                    },
                    None => {},
                }
            }
            proof {
                assert(bs.take(i + 1) =~= bs.take(i as int).push(bs[i as int]));
                bs.take(i as int).lemma_filter_push(bs[i as int], pred);
                if pred(bs[i as int]) {
                    assert(configs_view(configs@) =~= configs_view(before).push(f(bs[i as int])));
                    assert(bs.take(i + 1).filter(pred).map_values(f) =~= bs.take(i as int).filter(
                        pred,
                    ).map_values(f).push(f(bs[i as int])));
                } else {
                    assert(configs@ == before);
                }
            }
            i = i + 1;
        }
        assert(bs.take(self.bindings@.len() as int) =~= bs);
        assert(bindings_view(self.bindings@) == bs);
        Some(configs)
    }

    /// Completes a join sent with join reference `join_ref`.
    pub fn finish_subscribe(&mut self, join_ref: String)
        ensures
            final(self).model() == (ChannelStateView {
                status: ChannelStatus::Joined,
                join_ref: Some(join_ref@),
                ..old(self).model()
            }),
            final(self).bindings == old(self).bindings,
            final(self).presence == old(self).presence,
            final(self).pending_pushes == old(self).pending_pushes,
    {
        self.status = ChannelStatus::Joined;
        self.join_ref = Some(join_ref);
    }

    /// Starts leaving: unless the channel is closed, marks it leaving.
    /// `false` means there is nothing to do.
    pub fn begin_unsubscribe(&mut self) -> (r: bool)
        ensures
            r == (old(self).status != ChannelStatus::Closed),
            final(self).model() == (ChannelStateView {
                status: if r {
                    ChannelStatus::Leaving
                } else {
                    old(self).status
                },
                ..old(self).model()
            }),
            final(self).bindings == old(self).bindings,
            final(self).presence == old(self).presence,
            final(self).pending_pushes == old(self).pending_pushes,
    {
        if self.status == ChannelStatus::Closed {
            return false;
        }
        self.status = ChannelStatus::Leaving;
        true
    }

    /// Completes leaving: the channel is closed and its listeners are
    /// dropped, so that no later event reaches them.
    pub fn finish_unsubscribe(&mut self)
        ensures
            final(self).model() == (ChannelStateView {
                status: ChannelStatus::Closed,
                bindings: Seq::<BindingView>::empty(),
                ..old(self).model()
            }),
            final(self).bindings@ == Seq::<EventBinding<S>>::empty(),
            final(self).presence == old(self).presence,
            final(self).pending_pushes == old(self).pending_pushes,
    {
        self.status = ChannelStatus::Closed;
        self.bindings = Vec::new();
        assert(bindings_view(self.bindings@) =~= Seq::<BindingView>::empty());
    }

    /// Readies the channel to join again over a new connection: a joined
    /// channel's join ended with the old connection, so it is marked closed
    /// and a `subscribe` joins it again. `false` for a channel that was not
    /// joined, which is left as it is.
    pub fn prepare_rejoin(&mut self) -> (r: bool)
        ensures
            r == (old(self).status == ChannelStatus::Joined),
            final(self).model() == (ChannelStateView {
                status: if r {
                    ChannelStatus::Closed
                } else {
                    old(self).status
                },
                ..old(self).model()
            }),
            final(self).bindings == old(self).bindings,
            final(self).presence == old(self).presence,
            final(self).pending_pushes == old(self).pending_pushes,
    {
        if self.status == ChannelStatus::Joined {
            self.status = ChannelStatus::Closed;
            true
        } else {
            false
        }
    }

    /// A join that could not be sent: the channel is closed again, neither
    /// joined nor joining, so that a later `subscribe` tries again.
    pub fn fail_subscribe(&mut self)
        ensures
            final(self).model() == (ChannelStateView { status: ChannelStatus::Closed, ..old(self).model() }),
            final(self).bindings == old(self).bindings,
            final(self).presence == old(self).presence,
            final(self).pending_pushes == old(self).pending_pushes,
    {
        self.status = ChannelStatus::Closed;
    }

    /// Presence may be tracked only on a joined channel; any other channel
    /// refuses with a channel error.
    pub fn require_joined(&self) -> (r: Result<(), RealtimeError>)
        ensures
            r is Ok <==> self.status == ChannelStatus::Joined,
            r matches Err(e) ==> e is Channel && e->Channel_0@ == not_subscribed_text(),
    {
        if self.status == ChannelStatus::Joined {
            Ok(())
        } else {
            Err(RealtimeError::Channel(owned("channel is not subscribed")))
        }
    }

    /// Records a push awaiting its reply under `ref_id` (replacing any push
    /// recorded under it).
    pub fn add_pending_push(&mut self, ref_id: String, push: P)
        requires
            old(self).wf(),
        ensures
            final(self).wf(),
            final(self).model() == (ChannelStateView {
                pending_pushes: old(self).model().pending_pushes.insert(ref_id@, push),
                ..old(self).model()
            }),
            final(self).bindings == old(self).bindings,
            final(self).presence == old(self).presence,
    {
        let ghost k = ref_id@;
        let ghost kv = keys_of(self.pending_pushes@);
        match crate::assoc::find_key(&self.pending_pushes, ref_id.as_str()) {
            Some(i) => {
                proof {
                    assert(kv[i as int].0 == k);
                    lemma_assoc_update(kv, i as int, push);
                }
                self.pending_pushes.set(i, (ref_id, push));
                assert(keys_of(self.pending_pushes@) =~= kv.update(i as int, (k, push)));
            },
            None => {
                proof {
                    assert(!has_key(kv, k)) by {
                        if has_key(kv, k) {
                            let j = choose|j: int| 0 <= j < kv.len() && kv[j].0 == k;
                            assert(self.pending_pushes@[j].0@ == k);
                        }
                    }
                    lemma_assoc_push(kv, k, push);
                }
                self.pending_pushes.push((ref_id, push));
                assert(keys_of(self.pending_pushes@) =~= kv.push((k, push)));
            },
        }
    }

    /// Removes and gives the push awaiting its reply under `ref_id`, if any.
    pub fn take_pending_push(&mut self, ref_id: &str) -> (r: Option<P>)
        requires
            old(self).wf(),
        ensures
            final(self).wf(),
            r is Some <==> old(self).model().pending_pushes.contains_key(ref_id@),
            r matches Some(p) ==> p == old(self).model().pending_pushes[ref_id@],
            final(self).model() == (ChannelStateView {
                pending_pushes: old(self).model().pending_pushes.remove(ref_id@),
                ..old(self).model()
            }),
            final(self).bindings == old(self).bindings,
            final(self).presence == old(self).presence,
    {
        let ghost kv = keys_of(self.pending_pushes@);
        proof {
            lemma_assoc(kv);
        }
        match crate::assoc::find_key(&self.pending_pushes, ref_id) {
            Some(i) => {
                proof {
                    assert(kv[i as int].0 == ref_id@);
                    lemma_assoc_remove(kv, i as int);
                }
                let ghost old_v = self.pending_pushes@;
                let (_, p) = self.pending_pushes.remove(i);
                assert(keys_of(self.pending_pushes@) =~= kv.remove(i as int));
                assert(kv[i as int].1 == p);
                assert(assoc_map(kv).contains_key(kv[i as int].0));
                Some(p)
            },
            None => {
                proof {
                    if has_key(kv, ref_id@) {
                        let j = choose|j: int| 0 <= j < kv.len() && kv[j].0 == ref_id@;
                        assert(self.pending_pushes@[j].0@ == ref_id@);
                    }
                    assert(assoc_map(kv).remove(ref_id@) =~= assoc_map(kv));
                }
                None
            },
        }
    }
}

/// A reply settles the push recorded under its reference exactly once:
/// after `add_pending_push(k, p)`, `take_pending_push(k)` gives `p`, and a
/// second `take_pending_push(k)` gives nothing.
pub proof fn lemma_reply_settles_push_once<P>(pending: Map<Seq<char>, P>, k: Seq<char>, p: P)
    ensures
        pending.insert(k, p).contains_key(k),
        pending.insert(k, p)[k] == p,
        !pending.insert(k, p).remove(k).contains_key(k),
        pending.insert(k, p).remove(k) == pending.remove(k),
{
    assert(pending.insert(k, p).remove(k) =~= pending.remove(k));
}

/// An operation on the pushes awaiting a reply: recording one under a
/// reference (`add_pending_push`), or taking the one under a reference
/// (`take_pending_push`), as a reply or a timeout does.
pub enum PendingOp<P> {
    Add(Seq<char>, P),
    Take(Seq<char>),
}

/// What each operation of a run gives (a take gives the push it removed),
/// starting from the pending pushes `m`.
pub open spec fn pending_run<P>(m: Map<Seq<char>, P>, ops: Seq<PendingOp<P>>) -> Seq<Option<P>>
    decreases ops.len(),
{
    if ops.len() == 0 {
        Seq::empty()
    } else {
        match ops[0] {
            PendingOp::Add(k, q) => seq![None] + pending_run(m.insert(k, q), ops.drop_first()),
            PendingOp::Take(k) => seq![
                if m.contains_key(k) {
                    Some(m[k])
                } else {
                    None
                },
            ] + pending_run(m.remove(k), ops.drop_first()),
        }
    }
}

/// Operation `i` of `ops` is the first that takes under `k`.
pub open spec fn first_take<P>(ops: Seq<PendingOp<P>>, k: Seq<char>, i: int) -> bool {
    &&& ops[i] == PendingOp::<P>::Take(k)
    &&& forall|j: int| 0 <= j < i ==> ops[j] != PendingOp::<P>::Take(k)
}

/// Operation `i` of `ops` takes under `k`, after an earlier one did.
pub open spec fn later_take<P>(ops: Seq<PendingOp<P>>, k: Seq<char>, i: int) -> bool {
    &&& ops[i] == PendingOp::<P>::Take(k)
    &&& exists|j: int| 0 <= j < i && ops[j] == PendingOp::<P>::Take(k)
}

/// Operation `op` records a push under `k`.
pub open spec fn adds_under<P>(op: PendingOp<P>, k: Seq<char>) -> bool {
    op matches PendingOp::Add(k2, _) && k2 == k
}

/// The general form of `lemma_reply_or_timeout_settles_once`, from any
/// pending pushes.
proof fn lemma_pending_run<P>(m: Map<Seq<char>, P>, k: Seq<char>, ops: Seq<PendingOp<P>>)
    requires
        forall|i: int| 0 <= i < ops.len() ==> !adds_under(#[trigger] ops[i], k),
    ensures
        pending_run(m, ops).len() == ops.len(),
        forall|i: int|
            0 <= i < ops.len() && #[trigger] first_take(ops, k, i) ==> pending_run(m, ops)[i] == (if m.contains_key(
                k,
            ) {
                Some(m[k])
            } else {
                None
            }),
        forall|i: int| 0 <= i < ops.len() && #[trigger] later_take(ops, k, i) ==> pending_run(m, ops)[i] is None,
    decreases ops.len(),
{
    if ops.len() > 0 {
        let rest = ops.drop_first();
        assert forall|i: int| 0 <= i < rest.len() implies !adds_under(#[trigger] rest[i], k) by {
            assert(rest[i] == ops[i + 1]);
        }
        let m1 = match ops[0] {
            PendingOp::Add(k2, q) => m.insert(k2, q),
            PendingOp::Take(k2) => m.remove(k2),
        };
        lemma_pending_run(m1, k, rest);
        let outs = pending_run(m, ops);
        let routs = pending_run(m1, rest);
        assert(outs.drop_first() =~= routs);
        assert forall|i: int| 0 <= i < ops.len() && #[trigger] first_take(ops, k, i) implies outs[i] == (if m.contains_key(k) {
            Some(m[k])
        } else {
            None
        }) by {
            if i > 0 {
                assert(ops[0] != PendingOp::<P>::Take(k));
                assert(!adds_under(ops[0], k));
                assert(m1.contains_key(k) == m.contains_key(k));
                assert(m.contains_key(k) ==> m1[k] == m[k]);
                assert(rest[i - 1] == ops[i]);
                assert forall|j: int| 0 <= j < i - 1 implies rest[j] != PendingOp::<P>::Take(k) by {
                    assert(rest[j] == ops[j + 1]);
                }
                assert(first_take(rest, k, i - 1));
                assert(outs[i] == routs[i - 1]);
            }
        }
        assert forall|i: int| 0 <= i < ops.len() && #[trigger] later_take(ops, k, i) implies outs[i] is None by {
            let j = choose|j: int| 0 <= j < i && ops[j] == PendingOp::<P>::Take(k);
            assert(i > 0);
            assert(rest[i - 1] == ops[i]);
            assert(outs[i] == routs[i - 1]);
            if j == 0 {
                // the first operation took the push: none is left under `k`
                assert(!m1.contains_key(k));
                if exists|j2: int| 0 <= j2 < i - 1 && rest[j2] == PendingOp::<P>::Take(k) {
                    assert(later_take(rest, k, i - 1));
                } else {
                    assert forall|j2: int| 0 <= j2 < i - 1 implies rest[j2] != PendingOp::<P>::Take(k) by {}
                    assert(first_take(rest, k, i - 1));
                }
            } else {
                assert(rest[j - 1] == ops[j]);
                assert(later_take(rest, k, i - 1));
            }
        }
    }
}

/// A push settles once, by its reply or by its timeout, whichever comes
/// first: both take the push recorded under its reference; whatever else
/// happens meanwhile (other pushes recorded or taken), the first take gets
/// the push and every later one gets nothing, so only one callback runs.
pub proof fn lemma_reply_or_timeout_settles_once<P>(
    m: Map<Seq<char>, P>,
    k: Seq<char>,
    p: P,
    ops: Seq<PendingOp<P>>,
)
    requires
        forall|i: int| 0 <= i < ops.len() ==> !adds_under(#[trigger] ops[i], k),
    ensures
        forall|i: int|
            0 <= i < ops.len() && #[trigger] first_take(ops, k, i) ==> pending_run(m.insert(k, p), ops)[i]
                == Some(p),
        forall|i: int|
            0 <= i < ops.len() && #[trigger] later_take(ops, k, i) ==> pending_run(m.insert(k, p), ops)[i] is None,
{
    lemma_pending_run(m.insert(k, p), k, ops);
}

/// A listener that is not a named broadcast listener is reached only by
/// its own event: a position among the receivers of an event (read back
/// from its wire name) is a listener of exactly that event. And it is
/// reached by it, unless it is a filtered Postgres changes listener.
pub proof fn lemma_listener_reached_by_its_event(
    bs: Seq<BindingView>,
    ev: ChannelEventView,
    change: Option<PgChangeView>,
    inner: Option<Seq<char>>,
    i: int,
)
    requires
        0 <= i < bs.len(),
        bs.len() <= usize::MAX,
        !(bs[i].event matches ChannelEventView::Broadcast(Some(_))),
    ensures
        receivers(bs, ev, change, inner).contains(i as usize) ==> bs[i].event == ev,
        bs[i].event == ev && !(ev is PostgresChanges && bs[i].filter is Some) ==> receivers(
            bs,
            ev,
            change,
            inner,
        ).contains(i as usize),
{
    broadcast use Seq::lemma_filter_contains, Seq::lemma_filter_pred;

    let idx = Seq::new(bs.len(), |x: int| x as usize);
    let pred = |x: usize| receives(bs[x as int], ev, change, inner);
    if receivers(bs, ev, change, inner).contains(i as usize) {
        let r = idx.filter(pred);
        let y = choose|y: int| 0 <= y < r.len() && r[y] == i as usize;
        assert(pred(r[y]));
        assert((i as usize) as int == i);
        assert(receives(bs[i], ev, change, inner));
    }
    if bs[i].event == ev && !(ev is PostgresChanges && bs[i].filter is Some) {
        assert(idx[i] == i as usize);
        assert((i as usize) as int == i);
        assert(receives(bs[i], ev, change, inner));
        assert(pred(idx[i]));
    }
}

/// A filtered Postgres changes listener is reached by a Postgres change
/// exactly when the change was read and its filter accepts it.
pub proof fn lemma_filtered_listener_reached_by_accepted_changes(
    bs: Seq<BindingView>,
    change: Option<PgChangeView>,
    inner: Option<Seq<char>>,
    i: int,
)
    requires
        0 <= i < bs.len(),
        bs.len() <= usize::MAX,
        bs[i].event == ChannelEventView::PostgresChanges,
        bs[i].filter is Some,
    ensures
        receivers(bs, ChannelEventView::PostgresChanges, change, inner).contains(i as usize) <==> (change
            matches Some(c) && filter_accepts(bs[i].filter->0, c)),
{
    broadcast use Seq::lemma_filter_contains, Seq::lemma_filter_pred;

    let ev = ChannelEventView::PostgresChanges;
    let idx = Seq::new(bs.len(), |x: int| x as usize);
    let pred = |x: usize| receives(bs[x as int], ev, change, inner);
    assert((i as usize) as int == i);
    if receivers(bs, ev, change, inner).contains(i as usize) {
        let r = idx.filter(pred);
        let y = choose|y: int| 0 <= y < r.len() && r[y] == i as usize;
        assert(pred(r[y]));
    }
    if change matches Some(c) && filter_accepts(bs[i].filter->0, c) {
        assert(idx[i] == i as usize);
        assert(pred(idx[i]));
    }
}

/// The filter of a listener registered for Postgres changes accepts a
/// change exactly when the change is of the filter's kind (any kind for
/// `*`), in its schema, and in its table where it names one; a row filter
/// is left to the server.
pub proof fn lemma_filter_accepts_selected_changes(
    f: crate::postgres_changes::FilterView,
    c: PgChangeView,
)
    ensures
        filter_accepts(crate::postgres_changes::filter_pairs(f), c) <==> {
            &&& (f.event == crate::postgres_changes::PostgresChangeEvent::All || f.event.text() == change_name(
                c.event_type,
            ))
            &&& f.schema == c.schema
            &&& (f.table matches Some(t) ==> t == c.table)
        },
{
    reveal_strlit("event");
    reveal_strlit("schema");
    reveal_strlit("table");
    reveal_strlit("filter");
    reveal_strlit("*");
    reveal_strlit("INSERT");
    reveal_strlit("UPDATE");
    reveal_strlit("DELETE");
    assert("event"@[0] != "schema"@[0]);
    assert("event"@[0] != "table"@[0]);
    assert("event"@[0] != "filter"@[0]);
    assert("schema"@[0] != "table"@[0]);
    assert("schema"@[0] != "filter"@[0]);
    assert("table"@[0] != "filter"@[0]);
    assert("*"@ != "INSERT"@ && "*"@ != "UPDATE"@ && "*"@ != "DELETE"@) by {
        assert("*"@.len() != "INSERT"@.len());
        assert("*"@.len() != "UPDATE"@.len());
        assert("*"@.len() != "DELETE"@.len());
    }
    let ps = crate::postgres_changes::filter_pairs(f);
    let tp = crate::postgres_changes::optional_pair("table"@, f.table);
    let fp = crate::postgres_changes::optional_pair("filter"@, f.filter);
    assert(ps =~= seq![("event"@, f.event.text()), ("schema"@, f.schema)] + tp + fp);
    assert(pair_accepts(ps[0], c) <==> (f.event == crate::postgres_changes::PostgresChangeEvent::All
        || f.event.text() == change_name(c.event_type)));
    assert(pair_accepts(ps[1], c) <==> f.schema == c.schema);
    match f.table {
        Some(t) => {
            assert(ps[2] == ("table"@, t));
            assert(pair_accepts(ps[2], c) <==> t == c.table);
        },
        None => {},
    }
    match f.filter {
        Some(x) => {
            assert(ps[ps.len() - 1] == ("filter"@, x));
            assert(pair_accepts(ps[ps.len() - 1], c));
        },
        None => {},
    }
    if filter_accepts(ps, c) {
        assert(pair_accepts(ps[0], c));
        assert(pair_accepts(ps[1], c));
        if f.table is Some {
            assert(pair_accepts(ps[2], c));
        }
    }
}

/// The subscription a filtered listener asks for at join time is its
/// filter: the event kind, the schema, and the table and row filter where
/// the filter has them.
pub proof fn lemma_subscription_is_the_filter(f: crate::postgres_changes::FilterView)
    ensures
        config_of_filter(crate::postgres_changes::filter_pairs(f)) == (PgConfigView {
            event: f.event.text(),
            schema: f.schema,
            table: f.table,
            filter: f.filter,
        }),
{
    reveal_strlit("event");
    reveal_strlit("schema");
    reveal_strlit("table");
    reveal_strlit("filter");
    assert("event"@[0] != "schema"@[0]);
    assert("event"@[0] != "table"@[0]);
    assert("event"@[0] != "filter"@[0]);
    assert("schema"@[0] != "table"@[0]);
    assert("schema"@[0] != "filter"@[0]);
    assert("table"@[0] != "filter"@[0]);
    let ps = crate::postgres_changes::filter_pairs(f);
    let tail = crate::postgres_changes::optional_pair("table"@, f.table)
        + crate::postgres_changes::optional_pair("filter"@, f.filter);
    assert(ps =~= seq![("event"@, f.event.text()), ("schema"@, f.schema)] + tail);
    assert(ps.drop_first().drop_first() =~= tail);
    assert(ps[0].0 == "event"@);
    assert(ps.drop_first()[0].0 == "schema"@);
    reveal_with_fuel(first_value, 5);
    match f.table {
        Some(t) => {
            assert(tail[0] == ("table"@, t));
            assert(tail.drop_first() =~= crate::postgres_changes::optional_pair("filter"@, f.filter));
        },
        None => {
            assert(tail =~= crate::postgres_changes::optional_pair("filter"@, f.filter));
        },
    }
    match f.filter {
        Some(x) => {},
        None => {},
    }
}

/// The row filter of a listener's filter goes into its join subscription:
/// the value of the first `filter` pair, none where it has no such pair.
pub proof fn lemma_subscription_carries_row_filter(f: Seq<(Seq<char>, Seq<char>)>, i: int)
    requires
        0 <= i < f.len(),
        f[i].0 == "filter"@,
        forall|x: int| 0 <= x < i ==> f[x].0 != "filter"@,
    ensures
        config_of_filter(f).filter == Some(f[i].1),
    decreases i,
{
    if i > 0 {
        assert(f.drop_first()[i - 1] == f[i]);
        assert forall|x: int| 0 <= x < i - 1 implies f.drop_first()[x].0 != "filter"@ by {
            assert(f.drop_first()[x] == f[x + 1]);
        }
        lemma_subscription_carries_row_filter(f.drop_first(), i - 1);
        assert(f[0].0 != "filter"@);
    }
}

/// A broadcast reaches the listeners of plain broadcasts, and those of
/// named broadcasts whose name is the broadcast's inner event name, and no
/// other named broadcast listener.
pub proof fn lemma_broadcast_reaches_its_name(
    named: BindingView,
    plain: BindingView,
    name: Seq<char>,
    ev: ChannelEventView,
    change: Option<PgChangeView>,
    inner: Seq<char>,
)
    requires
        named.event == ChannelEventView::Broadcast(Some(name)),
        plain.event == ChannelEventView::Broadcast(None),
        ev == ChannelEventView::Broadcast(None),
    ensures
        receives(named, ev, change, Some(inner)) <==> inner == name,
        receives(plain, ev, change, Some(inner)),
        !receives(named, ev, change, None),
{
}

/// The row filter of a Postgres changes filter is left to the server: a
/// filter accepts the same changes with or without it.
pub proof fn lemma_row_filter_left_to_server(
    f: Seq<(Seq<char>, Seq<char>)>,
    row_filter: Seq<char>,
    c: PgChangeView,
)
    ensures
        filter_accepts(f.push(("filter"@, row_filter)), c) == filter_accepts(f, c),
{
    reveal_strlit("filter");
    reveal_strlit("event");
    reveal_strlit("schema");
    reveal_strlit("table");
    let g = f.push(("filter"@, row_filter));
    assert("filter"@[0] != "event"@[0]);
    assert("filter"@[0] != "schema"@[0]);
    assert("filter"@[0] != "table"@[0]);
    assert(pair_accepts(g[f.len() as int], c));
    if filter_accepts(f, c) {
        assert forall|i: int| 0 <= i < g.len() implies #[trigger] pair_accepts(g[i], c) by {
            if i < f.len() {
                assert(g[i] == f[i]);
            }
        }
    }
    if filter_accepts(g, c) {
        assert forall|i: int| 0 <= i < f.len() implies #[trigger] pair_accepts(f[i], c) by {
            assert(g[i] == f[i]);
        }
    }
}

impl<S, P> Default for ChannelState<S, P> {
    /// A closed channel with no listener, no pending push and no presence.
    fn default() -> (r: ChannelState<S, P>)
        ensures
            r.wf(),
            r.model().status == ChannelStatus::Closed,
            r.model().bindings == Seq::<BindingView>::empty(),
            r.model().pending_pushes == Map::<Seq<char>, P>::empty(),
            r.model().join_ref is None,
            r.presence@.state == Map::<Seq<char>, Seq<crate::presence::MetaView>>::empty(),
    {
        ChannelState::new()
    }
}

} // verus!
