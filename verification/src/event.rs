//! Event names of the Phoenix Channels protocol as used by Supabase Realtime.
//!
//! On the wire every event is a plain string. `ChannelEvent::parse` reads one,
//! `ChannelEvent::as_str` writes one back.

use vstd::prelude::*;
use crate::text::{is_prefix, owned, starts_with, str_eq};

verus! {

/// Phoenix system events.
#[derive(Debug, Clone, Copy, PartialEq, Eq, Hash, Structural)]
pub enum SystemEvent {
    /// Join channel (`phx_join`)
    Join,
    /// Leave channel (`phx_leave`)
    Leave,
    /// Reply to a message (`phx_reply`)
    Reply,
    /// Close channel (`phx_close`)
    Close,
    /// Error event (`phx_error`)
    Error,
    /// Heartbeat (`heartbeat`)
    Heartbeat,
}

/// Type-safe channel events.
#[derive(Debug, Clone, PartialEq, Eq, Hash)]
pub enum ChannelEvent {
    /// PostgreSQL database changes
    PostgresChanges,
    /// Broadcast event with optional inner event name:
    /// `Broadcast(None)` is the event `broadcast` itself.
    Broadcast(Option<String>),
    /// Presence state (full list of present users)
    PresenceState,
    /// Presence diff (joins and leaves)
    PresenceDiff,
    /// System events (`phx_*` and `heartbeat`)
    System(SystemEvent),
    /// Custom user-defined event
    Custom(String),
}

/// The mathematical value of a `ChannelEvent`: its strings taken as `Seq<char>`.
pub enum ChannelEventView {
    PostgresChanges,
    Broadcast(Option<Seq<char>>),
    PresenceState,
    PresenceDiff,
    System(SystemEvent),
    Custom(Seq<char>),
}

impl View for ChannelEvent {
    type V = ChannelEventView;

    open spec fn view(&self) -> ChannelEventView {
        match self {
            ChannelEvent::PostgresChanges => ChannelEventView::PostgresChanges,
            ChannelEvent::Broadcast(name) => ChannelEventView::Broadcast(
                match name {
                    Some(n) => Some(n@),
                    None => None,
                },
            ),
            ChannelEvent::PresenceState => ChannelEventView::PresenceState,
            ChannelEvent::PresenceDiff => ChannelEventView::PresenceDiff,
            ChannelEvent::System(e) => ChannelEventView::System(*e),
            ChannelEvent::Custom(s) => ChannelEventView::Custom(s@),
        }
    }
}

pub open spec fn join_text() -> Seq<char> {
    "phx_join"@
}

pub open spec fn leave_text() -> Seq<char> {
    "phx_leave"@
}

pub open spec fn reply_text() -> Seq<char> {
    "phx_reply"@
}

pub open spec fn close_text() -> Seq<char> {
    "phx_close"@
}

pub open spec fn error_text() -> Seq<char> {
    "phx_error"@
}

pub open spec fn heartbeat_text() -> Seq<char> {
    "heartbeat"@
}

pub open spec fn postgres_changes_text() -> Seq<char> {
    "postgres_changes"@
}

pub open spec fn broadcast_text() -> Seq<char> {
    "broadcast"@
}

pub open spec fn presence_state_text() -> Seq<char> {
    "presence_state"@
}

pub open spec fn presence_diff_text() -> Seq<char> {
    "presence_diff"@
}

pub open spec fn phx_prefix() -> Seq<char> {
    "phx_"@
}

impl SystemEvent {
    /// The wire name of a system event.
    pub open spec fn text(self) -> Seq<char> {
        match self {
            SystemEvent::Join => join_text(),
            SystemEvent::Leave => leave_text(),
            SystemEvent::Reply => reply_text(),
            SystemEvent::Close => close_text(),
            SystemEvent::Error => error_text(),
            SystemEvent::Heartbeat => heartbeat_text(),
        }
    }

    /// What `parse` gives for a string: the event of that name, and
    /// `Error` for any other string.
    pub open spec fn parse_spec(s: Seq<char>) -> SystemEvent {
        if s == join_text() {
            SystemEvent::Join
        } else if s == leave_text() {
            SystemEvent::Leave
        } else if s == reply_text() {
            SystemEvent::Reply
        } else if s == close_text() {
            SystemEvent::Close
        } else if s == error_text() {
            SystemEvent::Error
        } else if s == heartbeat_text() {
            SystemEvent::Heartbeat
        } else {
            SystemEvent::Error
        }
    }

    /// Parses a system event name; unknown names give `Error`.
    pub fn parse(s: &str) -> (r: SystemEvent)
        ensures
            r == SystemEvent::parse_spec(s@),
    {
        if str_eq(s, "phx_join") {
            SystemEvent::Join
        } else if str_eq(s, "phx_leave") {
            SystemEvent::Leave
        } else if str_eq(s, "phx_reply") {
            SystemEvent::Reply
        } else if str_eq(s, "phx_close") {
            SystemEvent::Close
        } else if str_eq(s, "phx_error") {
            SystemEvent::Error
        } else if str_eq(s, "heartbeat") {
            SystemEvent::Heartbeat
        } else {
            SystemEvent::Error
        }
    }

    /// The wire name of this event.
    pub fn as_str(&self) -> (r: &'static str)
        ensures
            r@ == self.text(),
    {
        match self {
            SystemEvent::Join => "phx_join",
            SystemEvent::Leave => "phx_leave",
            SystemEvent::Reply => "phx_reply",
            SystemEvent::Close => "phx_close",
            SystemEvent::Error => "phx_error",
            SystemEvent::Heartbeat => "heartbeat",
        }
    }
}

impl ChannelEventView {
    /// The wire name of an event.
    pub open spec fn text(self) -> Seq<char> {
        match self {
            ChannelEventView::PostgresChanges => postgres_changes_text(),
            ChannelEventView::Broadcast(_) => broadcast_text(),
            ChannelEventView::PresenceState => presence_state_text(),
            ChannelEventView::PresenceDiff => presence_diff_text(),
            ChannelEventView::System(e) => e.text(),
            ChannelEventView::Custom(s) => s,
        }
    }

    /// What `ChannelEvent::parse` gives for a string.
    pub open spec fn parse_spec(s: Seq<char>) -> ChannelEventView {
        if s == postgres_changes_text() {
            ChannelEventView::PostgresChanges
        } else if s == broadcast_text() {
            ChannelEventView::Broadcast(None)
        } else if s == presence_state_text() {
            ChannelEventView::PresenceState
        } else if s == presence_diff_text() {
            ChannelEventView::PresenceDiff
        } else if is_prefix(phx_prefix(), s) || s == heartbeat_text() {
            ChannelEventView::System(SystemEvent::parse_spec(s))
        } else {
            ChannelEventView::Custom(s)
        }
    }
}

impl ChannelEvent {
    /// Parses a string into a `ChannelEvent`.
    pub fn parse(s: &str) -> (r: ChannelEvent)
        ensures
            r@ == ChannelEventView::parse_spec(s@),
    {
        if str_eq(s, "postgres_changes") {
            ChannelEvent::PostgresChanges
        } else if str_eq(s, "broadcast") {
            ChannelEvent::Broadcast(None)
        } else if str_eq(s, "presence_state") {
            ChannelEvent::PresenceState
        } else if str_eq(s, "presence_diff") {
            ChannelEvent::PresenceDiff
        } else if starts_with(s, "phx_") || str_eq(s, "heartbeat") {
            ChannelEvent::System(SystemEvent::parse(s))
        } else {
            ChannelEvent::Custom(owned(s))
        }
    }

    /// The string representation of this event.
    pub fn as_str(&self) -> (r: &str)
        ensures
            r@ == self@.text(),
    {
        match self {
            ChannelEvent::PostgresChanges => "postgres_changes",
            ChannelEvent::Broadcast(_) => "broadcast",
            ChannelEvent::PresenceState => "presence_state",
            ChannelEvent::PresenceDiff => "presence_diff",
            ChannelEvent::System(sys) => sys.as_str(),
            ChannelEvent::Custom(s) => s.as_str(),
        }
    }

    /// A broadcast event with a specific inner event name.
    pub fn broadcast(event: String) -> (r: ChannelEvent)
        ensures
            r@ == ChannelEventView::Broadcast(Some(event@)),
    {
        ChannelEvent::Broadcast(Some(event))
    }

    /// Equality of events, as the derived `==` computes it.
    pub fn same_as(&self, other: &ChannelEvent) -> (r: bool)
        ensures
            r == (self@ == other@),
    {
        match (self, other) {
            (ChannelEvent::PostgresChanges, ChannelEvent::PostgresChanges) => true,
            (ChannelEvent::Broadcast(a), ChannelEvent::Broadcast(b)) => match (a, b) {
                (None, None) => true,
                (Some(x), Some(y)) => {
                    let e = str_eq(x.as_str(), y.as_str());
                    proof {
                        if !e {
                            assert(self@->Broadcast_0->Some_0 != other@->Broadcast_0->Some_0);
                        }
                    }
                    e
                },
                _ => false,
            },
            (ChannelEvent::PresenceState, ChannelEvent::PresenceState) => true,
            (ChannelEvent::PresenceDiff, ChannelEvent::PresenceDiff) => true,
            (ChannelEvent::System(a), ChannelEvent::System(b)) => *a == *b,
            (ChannelEvent::Custom(a), ChannelEvent::Custom(b)) => str_eq(a.as_str(), b.as_str()),
            _ => false,
        }
    }

    /// A copy of this event.
    pub fn duplicate(&self) -> (r: ChannelEvent)
        ensures
            r@ == self@,
    {
        match self {
            ChannelEvent::PostgresChanges => ChannelEvent::PostgresChanges,
            ChannelEvent::Broadcast(None) => ChannelEvent::Broadcast(None),
            ChannelEvent::Broadcast(Some(n)) => ChannelEvent::Broadcast(Some(n.clone())),
            ChannelEvent::PresenceState => ChannelEvent::PresenceState,
            ChannelEvent::PresenceDiff => ChannelEvent::PresenceDiff,
            ChannelEvent::System(e) => ChannelEvent::System(*e),
            ChannelEvent::Custom(s) => ChannelEvent::Custom(s.clone()),
        }
    }
}

/// The wire names of the system events are pairwise distinct.
pub proof fn lemma_system_texts_distinct()
    ensures
        join_text() != leave_text(),
        join_text() != reply_text(),
        join_text() != close_text(),
        join_text() != error_text(),
        join_text() != heartbeat_text(),
        leave_text() != reply_text(),
        leave_text() != close_text(),
        leave_text() != error_text(),
        leave_text() != heartbeat_text(),
        reply_text() != close_text(),
        reply_text() != error_text(),
        reply_text() != heartbeat_text(),
        close_text() != error_text(),
        close_text() != heartbeat_text(),
        error_text() != heartbeat_text(),
{
    reveal_strlit("phx_join");
    reveal_strlit("phx_leave");
    reveal_strlit("phx_reply");
    reveal_strlit("phx_close");
    reveal_strlit("phx_error");
    reveal_strlit("heartbeat");
    assert(join_text().len() != leave_text().len());
    assert(join_text().len() != reply_text().len());
    assert(join_text().len() != close_text().len());
    assert(join_text().len() != error_text().len());
    assert(join_text().len() != heartbeat_text().len());
    assert(leave_text()[4] != reply_text()[4]);
    assert(leave_text()[4] != close_text()[4]);
    assert(leave_text()[4] != error_text()[4]);
    assert(leave_text()[0] != heartbeat_text()[0]);
    assert(reply_text()[4] != close_text()[4]);
    assert(reply_text()[4] != error_text()[4]);
    assert(reply_text()[0] != heartbeat_text()[0]);
    assert(close_text()[4] != error_text()[4]);
    assert(close_text()[0] != heartbeat_text()[0]);
    assert(error_text()[0] != heartbeat_text()[0]);
}

/// Every system event reads back from its wire name as itself.
pub proof fn lemma_system_event_round_trip(e: SystemEvent)
    ensures
        SystemEvent::parse_spec(e.text()) == e,
{
    lemma_system_texts_distinct();
}

/// Reading an event name back is stable: the name of a parsed event reads
/// back as the same event.
pub proof fn lemma_parse_idempotent(s: Seq<char>)
    ensures
        ChannelEventView::parse_spec(ChannelEventView::parse_spec(s).text())
            == ChannelEventView::parse_spec(s),
{
    lemma_special_texts();
    let e = ChannelEventView::parse_spec(s);
    match e {
        ChannelEventView::System(se) => {
            lemma_system_event_round_trip(se);
            lemma_system_texts_phx(se);
        },
        _ => {},
    }
}

/// A parsed event writes back to the string it was read from, unless that
/// string starts with `phx_` and names no Phoenix event (it then reads as
/// `phx_error`).
pub proof fn lemma_parse_then_as_str(s: Seq<char>)
    requires
        !is_prefix(phx_prefix(), s) || s == join_text() || s == leave_text() || s == reply_text()
            || s == close_text() || s == error_text(),
    ensures
        ChannelEventView::parse_spec(s).text() == s,
{
    lemma_special_texts();
}

/// Facts about the literal event names: which start with `phx_`, and that
/// the four named channel events are distinct from each other and from the
/// Phoenix names.
proof fn lemma_special_texts()
    ensures
        !is_prefix(phx_prefix(), postgres_changes_text()),
        !is_prefix(phx_prefix(), broadcast_text()),
        !is_prefix(phx_prefix(), presence_state_text()),
        !is_prefix(phx_prefix(), presence_diff_text()),
        !is_prefix(phx_prefix(), heartbeat_text()),
        postgres_changes_text() != broadcast_text(),
        postgres_changes_text() != presence_state_text(),
        postgres_changes_text() != presence_diff_text(),
        postgres_changes_text() != heartbeat_text(),
        broadcast_text() != presence_state_text(),
        broadcast_text() != presence_diff_text(),
        broadcast_text() != heartbeat_text(),
        presence_state_text() != presence_diff_text(),
        presence_state_text() != heartbeat_text(),
        presence_diff_text() != heartbeat_text(),
{
    reveal_strlit("phx_");
    reveal_strlit("postgres_changes");
    reveal_strlit("broadcast");
    reveal_strlit("presence_state");
    reveal_strlit("presence_diff");
    reveal_strlit("heartbeat");
    assert(postgres_changes_text()[1] != phx_prefix()[1]);
    assert(broadcast_text()[0] != phx_prefix()[0]);
    assert(presence_state_text()[1] != phx_prefix()[1]);
    assert(presence_diff_text()[1] != phx_prefix()[1]);
    assert(heartbeat_text()[0] != phx_prefix()[0]);
    assert(postgres_changes_text()[0] != broadcast_text()[0]);
    assert(postgres_changes_text()[1] != presence_state_text()[1]);
    assert(postgres_changes_text()[1] != presence_diff_text()[1]);
    assert(postgres_changes_text()[0] != heartbeat_text()[0]);
    assert(broadcast_text()[0] != presence_state_text()[0]);
    assert(broadcast_text()[0] != presence_diff_text()[0]);
    assert(broadcast_text()[0] != heartbeat_text()[0]);
    assert(presence_state_text().len() != presence_diff_text().len());
    assert(presence_state_text()[0] != heartbeat_text()[0]);
    assert(presence_diff_text()[0] != heartbeat_text()[0]);
}

/// The names of the system events other than `heartbeat` start with `phx_`,
/// and none of them is a named channel event.
proof fn lemma_system_texts_phx(e: SystemEvent)
    ensures
        e != SystemEvent::Heartbeat ==> is_prefix(phx_prefix(), e.text()),
        e.text() != postgres_changes_text(),
        e.text() != broadcast_text(),
        e.text() != presence_state_text(),
        e.text() != presence_diff_text(),
{
    reveal_strlit("phx_");
    reveal_strlit("phx_join");
    reveal_strlit("phx_leave");
    reveal_strlit("phx_reply");
    reveal_strlit("phx_close");
    reveal_strlit("phx_error");
    reveal_strlit("heartbeat");
    reveal_strlit("postgres_changes");
    reveal_strlit("broadcast");
    reveal_strlit("presence_state");
    reveal_strlit("presence_diff");
    lemma_special_texts();
    if e != SystemEvent::Heartbeat {
        assert(e.text().subrange(0, 4) =~= phx_prefix());
        assert(e.text()[1] != postgres_changes_text()[1]);
        assert(e.text()[0] != broadcast_text()[0]);
        assert(e.text()[1] != presence_state_text()[1]);
        assert(e.text()[1] != presence_diff_text()[1]);
    }
}

/// Postgres change types.
#[derive(Debug, Clone, Copy, PartialEq, Eq, Hash, Structural)]
pub enum PostgresChangeType {
    Insert,
    Update,
    Delete,
}

/// Postgres change event filter.
#[derive(Debug, Clone, PartialEq, Eq)]
pub struct PostgresChangeFilter {
    pub event: PostgresChangeType,
    pub schema: String,
    pub table: String,
    pub filter: Option<String>,
}

impl PostgresChangeFilter {
    /// A filter on `event` changes of `schema.table`, without row filter.
    pub fn new(event: PostgresChangeType, schema: String, table: String) -> (r: PostgresChangeFilter)
        ensures
            r.event == event,
            r.schema == schema,
            r.table == table,
            r.filter is None,
    {
        PostgresChangeFilter { event, schema, table, filter: None }
    }

    /// The same filter with the row filter `filter`.
    pub fn with_filter(self, filter: String) -> (r: PostgresChangeFilter)
        ensures
            r.event == self.event,
            r.schema == self.schema,
            r.table == self.table,
            r.filter == Some(filter),
    {
        PostgresChangeFilter { filter: Some(filter), ..self }
    }
}

} // verus!
