//! Routing of incoming messages: heartbeat acknowledgements, replies to
//! pushes, and delivery to the channels of the message's topic.

use vstd::prelude::*;
use serde_json::Value;
use crate::client::ClientState;
use crate::event::{ChannelEvent, ChannelEventView, SystemEvent};
use crate::json::{json_as_str, json_field_of, json_get, json_is_null, json_null, json_str_of};
use crate::message::{RealtimeMessage, opt_view};
use crate::text::{owned, str_eq};

verus! {

/// A message is a heartbeat acknowledgement when it is a reply on the
/// `phoenix` topic, or a heartbeat.
pub open spec fn is_heartbeat_spec(topic: Seq<char>, event: ChannelEventView) -> bool {
    (topic == "phoenix"@ && event == ChannelEventView::System(SystemEvent::Reply)) || event
        == ChannelEventView::System(SystemEvent::Heartbeat)
}

/// Whether a message acknowledges heartbeats.
pub fn is_heartbeat_message(message: &RealtimeMessage) -> (r: bool)
    ensures
        r == is_heartbeat_spec(message@.topic, message@.event),
{
    let reply = ChannelEvent::System(SystemEvent::Reply);
    let heartbeat = ChannelEvent::System(SystemEvent::Heartbeat);
    (str_eq(message.topic.as_str(), "phoenix") && message.event.same_as(&reply)) || message.event.same_as(
        &heartbeat,
    )
}

/// Whether a message is a reply.
pub fn is_reply(message: &RealtimeMessage) -> (r: bool)
    ensures
        r == (message@.event == ChannelEventView::System(SystemEvent::Reply)),
{
    message.event.same_as(&ChannelEvent::System(SystemEvent::Reply))
}

/// Handles a heartbeat acknowledgement: a message whose reference is the
/// pending heartbeat's clears it; any other leaves the state as it is.
pub fn handle_heartbeat_ack<C>(state: &mut ClientState<C>, message: &RealtimeMessage)
    ensures
        (message@.msg_ref is Some && opt_view(old(state).pending_heartbeat_ref) == message@.msg_ref)
            ==> final(state).pending_heartbeat_ref is None,
        !(message@.msg_ref is Some && opt_view(old(state).pending_heartbeat_ref) == message@.msg_ref)
            ==> final(state).pending_heartbeat_ref == old(state).pending_heartbeat_ref,
        final(state).ref_counter == old(state).ref_counter,
        final(state).channels == old(state).channels,
        final(state).was_manual_disconnect == old(state).was_manual_disconnect,
{
    match &message.msg_ref {
        Some(msg_ref) => {
            let matches = match &state.pending_heartbeat_ref {
                Some(p) => str_eq(p.as_str(), msg_ref.as_str()),
                None => false,
            };
            if matches {
                state.pending_heartbeat_ref = None;
            }
        },
        None => {},
    }
}

/// Where a reply may settle a push: its reference and the position of the
/// first channel of its topic. `None` when the reply has no reference or
/// no channel has its topic.
pub fn reply_target<C>(state: &ClientState<C>, message: &RealtimeMessage) -> (r: Option<(usize, String)>)
    ensures
        r is Some <==> (message@.msg_ref is Some && exists|j: int|
            0 <= j < state.channels@.len() && state.channels@[j].0@ == message@.topic),
        r matches Some((i, ref_id)) ==> {
            &&& i < state.channels@.len()
            &&& state.channels@[i as int].0@ == message@.topic
            &&& forall|j: int| 0 <= j < i ==> state.channels@[j].0@ != message@.topic
            &&& Some(ref_id@) == message@.msg_ref
        },
{
    match &message.msg_ref {
        None => None,
        Some(ref_id) => match state.find_channel(message.topic.as_str()) {
            Some(i) => Some((i, ref_id.clone())),
            None => None,
        },
    }
}

/// The status of a reply: its payload's `status` string, `error` where
/// there is none.
pub open spec fn reply_status_of(payload: Value) -> Seq<char> {
    match json_field_of(payload, "status"@) {
        Some(x) => match json_str_of(x) {
            Some(s) => s,
            None => "error"@,
        },
        None => "error"@,
    }
}

/// The status of a reply.
pub fn reply_status(payload: &Value) -> (r: String)
    ensures
        r@ == reply_status_of(*payload),
{
    match json_get(payload, "status") {
        Some(x) => match json_as_str(&x) {
            Some(s) => s,
            None => owned("error"),
        },
        None => owned("error"),
    }
}

/// The response of a reply: its payload's `response`, `null` where there is
/// none.
pub fn reply_response(payload: &Value) -> (r: Value)
    ensures
        match json_field_of(*payload, "response"@) {
            Some(x) => r == x,
            None => json_is_null(r),
        },
{
    match json_get(payload, "response") {
        Some(x) => x,
        None => json_null(),
    }
}

/// How far the routing of a message has gone.
pub enum RouteStage {
    /// Nothing done yet.
    Start,
    /// The heartbeat acknowledgement was handled.
    HeartbeatHandled,
    /// A push reply was looked for; whether it settled a push.
    ReplyTried(bool),
}

/// What the routing of a message does next.
#[derive(Debug, Clone, Copy, PartialEq, Eq, Structural)]
pub enum RouteAction {
    /// Handle it as a heartbeat acknowledgement.
    AckHeartbeat,
    /// Settle the push it replies to, if any.
    SettlePush,
    /// Deliver it to the channels of its topic, then stop.
    Deliver,
    /// Stop: a reply that settled a push goes no further.
    Stop,
}

/// The order in which a message is routed: a heartbeat acknowledgement is
/// handled first; a reply then settles the push it answers, and goes no
/// further if it did; everything else is delivered to the channels of its
/// topic.
pub open spec fn route_next(heartbeat: bool, reply: bool, stage: RouteStage) -> RouteAction {
    match stage {
        RouteStage::Start => if heartbeat {
            RouteAction::AckHeartbeat
        } else if reply {
            RouteAction::SettlePush
        } else {
            RouteAction::Deliver
        },
        RouteStage::HeartbeatHandled => if reply {
            RouteAction::SettlePush
        } else {
            RouteAction::Deliver
        },
        RouteStage::ReplyTried(settled) => if settled {
            RouteAction::Stop
        } else {
            RouteAction::Deliver
        },
    }
}

/// The next routing action for `message` at `stage`.
pub fn route_step(message: &RealtimeMessage, stage: RouteStage) -> (a: RouteAction)
    ensures
        a == route_next(
            is_heartbeat_spec(message@.topic, message@.event),
            message@.event == ChannelEventView::System(SystemEvent::Reply),
            stage,
        ),
{
    match stage {
        RouteStage::Start => if is_heartbeat_message(message) {
            RouteAction::AckHeartbeat
        } else if is_reply(message) {
            RouteAction::SettlePush
        } else {
            RouteAction::Deliver
        },
        RouteStage::HeartbeatHandled => if is_reply(message) {
            RouteAction::SettlePush
        } else {
            RouteAction::Deliver
        },
        RouteStage::ReplyTried(settled) => if settled {
            RouteAction::Stop
        } else {
            RouteAction::Deliver
        },
    }
}

/// A reply that settles a push is not delivered to channels; any other
/// message is, after its heartbeat acknowledgement and push settling.
pub proof fn lemma_settled_reply_not_delivered(heartbeat: bool)
    ensures
        route_next(heartbeat, true, RouteStage::ReplyTried(true)) == RouteAction::Stop,
        route_next(heartbeat, true, RouteStage::ReplyTried(false)) == RouteAction::Deliver,
        heartbeat ==> route_next(heartbeat, true, RouteStage::Start) == RouteAction::AckHeartbeat,
        route_next(false, false, RouteStage::Start) == RouteAction::Deliver,
{
}

} // verus!
