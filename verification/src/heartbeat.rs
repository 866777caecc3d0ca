//! The heartbeat policy: on each tick, send a heartbeat unless one is still
//! unanswered, in which case the connection has timed out.

use vstd::prelude::*;
use crate::client::ClientState;
use crate::event::{ChannelEvent, ChannelEventView, SystemEvent};
use crate::json::{json_object, json_object_of};
use crate::message::{MessageView, RealtimeMessage};
use crate::refs::decimal;

verus! {

/// What a heartbeat tick asks for.
pub enum HeartbeatAction {
    /// The connection is gone: end the heartbeat task.
    Stop,
    /// Not connected: nothing to do this tick.
    Skip,
    /// The last heartbeat was not answered: close the connection.
    Timeout,
    /// Send this heartbeat, then record its reference as pending.
    Send(RealtimeMessage),
}

/// The kinds of heartbeat actions.
pub enum TickKind {
    Stop,
    Skip,
    Timeout,
    Send,
}

/// The kind of action a tick takes.
pub open spec fn tick_kind(connection_alive: bool, is_connected: bool, pending: bool) -> TickKind {
    if !connection_alive {
        TickKind::Stop
    } else if !is_connected {
        TickKind::Skip
    } else if pending {
        TickKind::Timeout
    } else {
        TickKind::Send
    }
}

pub open spec fn kind_of(a: HeartbeatAction) -> TickKind {
    match a {
        HeartbeatAction::Stop => TickKind::Stop,
        HeartbeatAction::Skip => TickKind::Skip,
        HeartbeatAction::Timeout => TickKind::Timeout,
        HeartbeatAction::Send(_) => TickKind::Send,
    }
}

/// The heartbeat message with reference `r`: topic `phoenix`, event
/// `heartbeat`, empty payload.
pub open spec fn heartbeat_message_of(r: Seq<char>) -> MessageView {
    MessageView {
        topic: "phoenix"@,
        event: ChannelEventView::System(SystemEvent::Heartbeat),
        payload: json_object_of(Seq::empty()),
        msg_ref: Some(r),
        join_ref: None,
    }
}

/// One heartbeat tick. `connection_alive` is whether the connection still
/// exists, `is_connected` whether it is open. Sending takes the next
/// message reference.
pub fn heartbeat_tick<C>(connection_alive: bool, is_connected: bool, state: &mut ClientState<C>) -> (a:
    HeartbeatAction)
    requires
        tick_kind(connection_alive, is_connected, old(state).pending_heartbeat_ref is Some) == TickKind::Send
            ==> old(state).ref_counter < u64::MAX,
    ensures
        kind_of(a) == tick_kind(
            connection_alive,
            is_connected,
            old(state).pending_heartbeat_ref is Some,
        ),
        !(a is Send) ==> *final(state) == *old(state),
        a matches HeartbeatAction::Send(m) ==> {
            &&& final(state).ref_counter == old(state).ref_counter + 1
            &&& m@ == heartbeat_message_of(decimal(final(state).ref_counter as nat))
            &&& final(state).pending_heartbeat_ref == old(state).pending_heartbeat_ref
            &&& final(state).channels == old(state).channels
            &&& final(state).was_manual_disconnect == old(state).was_manual_disconnect
        },
{
    if !connection_alive {
        return HeartbeatAction::Stop;
    }
    if !is_connected {
        return HeartbeatAction::Skip;
    }
    if state.pending_heartbeat_ref.is_some() {
        return HeartbeatAction::Timeout;
    }
    let new_ref = state.make_ref();
    let payload = json_object(Vec::new());
    proof {
        assert(crate::json::fields_view(Seq::<(String, serde_json::Value)>::empty()) =~= Seq::empty());
    }
    let msg = RealtimeMessage::new(
        crate::text::owned("phoenix"),
        ChannelEvent::System(SystemEvent::Heartbeat),
        payload,
    ).with_ref(new_ref);
    HeartbeatAction::Send(msg)
}

/// Records the reference of a heartbeat that was sent.
pub fn heartbeat_sent<C>(state: &mut ClientState<C>, msg_ref: String)
    ensures
        final(state).pending_heartbeat_ref == Some(msg_ref),
        final(state).ref_counter == old(state).ref_counter,
        final(state).channels == old(state).channels,
        final(state).was_manual_disconnect == old(state).was_manual_disconnect,
{
    state.pending_heartbeat_ref = Some(msg_ref);
}

/// At most one heartbeat is outstanding: no heartbeat is sent while one is
/// pending; a pending one at a connected tick means a timeout.
pub proof fn lemma_one_heartbeat_outstanding(connection_alive: bool, is_connected: bool)
    ensures
        tick_kind(connection_alive, is_connected, true) != TickKind::Send,
        connection_alive && is_connected ==> tick_kind(connection_alive, is_connected, true)
            == TickKind::Timeout,
{
}

} // verus!
