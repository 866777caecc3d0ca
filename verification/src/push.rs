//! Pushes: messages that await a reply (`ok`, `error`) or time out, with a
//! callback per reply status.

use vstd::prelude::*;
use serde_json::Value;
use std::time::Duration;
use crate::assoc::{assoc_map, has_key, keys_unique, lemma_assoc, lemma_assoc_push, lemma_assoc_update};
use crate::channel::keys_of;
use crate::event::{ChannelEvent, ChannelEventView};
use crate::message::{MessageView, RealtimeMessage};
use crate::timer::{duration_from_millis, millis};

verus! {

/// `Uuid::new_v4().to_string()`: a fresh random reference, in the
/// hyphenated form of 36 characters. Nothing else is stated of it: it
/// depends on chance.
#[verifier::external_body]
fn new_ref_id() -> (r: String)
    ensures
        r@.len() == 36,
{
    uuid::Uuid::new_v4().to_string()
}

/// A message that awaits a reply, with a callback per reply status, sent
/// through the channel handle `C`.
pub struct Push<F, C> {
    event: String,
    payload: Value,
    ref_id: String,
    timeout: Duration,
    callbacks: Vec<(String, F)>,
    channel: C,
}

/// The mathematical value of a push.
pub struct PushView<F, C> {
    pub event: Seq<char>,
    pub payload: Value,
    pub ref_id: Seq<char>,
    pub timeout: Duration,
    pub callbacks: Map<Seq<char>, F>,
    pub channel: C,
}

impl<F, C> View for Push<F, C> {
    type V = PushView<F, C>;

    closed spec fn view(&self) -> PushView<F, C> {
        PushView {
            event: self.event@,
            payload: self.payload,
            ref_id: self.ref_id@,
            timeout: self.timeout,
            callbacks: assoc_map(keys_of(self.callbacks@)),
            channel: self.channel,
        }
    }
}

impl<F, C> Push<F, C> {
    /// The callbacks' invariant: one per status.
    pub closed spec fn wf(&self) -> bool {
        keys_unique(keys_of(self.callbacks@))
    }

    /// A push of `event` with `payload` under reference `ref_id`, with no
    /// callback yet.
    pub fn new(event: String, payload: Value, ref_id: String, timeout: Duration, channel: C) -> (r: Push<F, C>)
        ensures
            r.wf(),
            r@ == (PushView {
                event: event@,
                payload,
                ref_id: ref_id@,
                timeout,
                callbacks: Map::<Seq<char>, F>::empty(),
                channel,
            }),
    {
        let r = Push { event, payload, ref_id, timeout, callbacks: Vec::new(), channel };
        assert(keys_of(r.callbacks@) =~= Seq::empty());
        assert(assoc_map(keys_of(r.callbacks@)) =~= Map::empty());
        r
    }

    /// A push on `channel` of the event named by `event`, under a fresh
    /// random reference, timing out after the default timeout.
    pub fn for_channel(channel: C, event: &ChannelEvent, payload: Value) -> (r: Push<F, C>)
        ensures
            r.wf(),
            r@.event == event@.text(),
            r@.payload == payload,
            r@.ref_id.len() == 36,
            r@.timeout == duration_from_millis(crate::constants::DEFAULT_TIMEOUT),
            r@.callbacks == Map::<Seq<char>, F>::empty(),
            r@.channel == channel,
    {
        let ref_id = new_ref_id();
        Push::new(
            crate::text::owned(event.as_str()),
            payload,
            ref_id,
            millis(crate::constants::DEFAULT_TIMEOUT),
            channel,
        )
    }

    /// The same push with `callback` for replies of `status` (replacing any
    /// callback for that status).
    pub fn receive(self, status: &str, callback: F) -> (r: Push<F, C>)
        requires
            self.wf(),
        ensures
            r.wf(),
            r@ == (PushView { callbacks: self@.callbacks.insert(status@, callback), ..self@ }),
    {
        let Push { event, payload, ref_id, timeout, mut callbacks, channel } = self;
        let ghost kv = keys_of(callbacks@);
        let ghost k = status@;
        match crate::assoc::find_key(&callbacks, status) {
            Some(i) => {
                proof {
                    assert(kv[i as int].0 == k);
                    lemma_assoc_update(kv, i as int, callback);
                }
                callbacks.set(i, (crate::text::owned(status), callback));
                assert(keys_of(callbacks@) =~= kv.update(i as int, (k, callback)));
            },
            None => {
                proof {
                    assert(!has_key(kv, k)) by {
                        if has_key(kv, k) {
                            let j = choose|j: int| 0 <= j < kv.len() && kv[j].0 == k;
                            assert(callbacks@[j].0@ == k);
                        }
                    }
                    lemma_assoc_push(kv, k, callback);
                }
                callbacks.push((crate::text::owned(status), callback));
                assert(keys_of(callbacks@) =~= kv.push((k, callback)));
            },
        }
        Push { event, payload, ref_id, timeout, callbacks, channel }
    }

    /// The callback registered for replies of `status`, if any.
    pub fn callback(&self, status: &str) -> (r: Option<&F>)
        requires
            self.wf(),
        ensures
            r is Some <==> self@.callbacks.contains_key(status@),
            r matches Some(f) ==> *f == self@.callbacks[status@],
    {
        let ghost kv = keys_of(self.callbacks@);
        proof {
            lemma_assoc(kv);
        }
        match crate::assoc::find_key(&self.callbacks, status) {
            Some(i) => {
                assert(kv[i as int].0 == status@);
                assert(assoc_map(kv).contains_key(kv[i as int].0));
                Some(&self.callbacks[i].1)
            },
            None => {
                proof {
                    if has_key(kv, status@) {
                        let j = choose|j: int| 0 <= j < kv.len() && kv[j].0 == status@;
                        assert(self.callbacks@[j].0@ == status@);
                    }
                }
                None
            },
        }
    }

    /// The name of the pushed event.
    pub fn event(&self) -> (r: &str)
        ensures
            r@ == self@.event,
    {
        self.event.as_str()
    }

    /// The pushed payload.
    pub fn payload(&self) -> (r: &Value)
        ensures
            *r == self@.payload,
    {
        &self.payload
    }

    /// The reference the reply will carry.
    pub fn ref_id(&self) -> (r: &str)
        ensures
            r@ == self@.ref_id,
    {
        self.ref_id.as_str()
    }

    /// How long to wait for the reply.
    pub fn timeout(&self) -> (r: Duration)
        ensures
            r == self@.timeout,
    {
        self.timeout
    }

    /// The channel this push is sent through.
    pub fn channel(&self) -> (r: &C)
        ensures
            *r == self@.channel,
    {
        &self.channel
    }

    /// The message of this push on `topic`: a custom event named by the
    /// push's event, with its payload and reference.
    pub fn message(&self, topic: &str) -> (r: RealtimeMessage)
        ensures
            r@ == (MessageView {
                topic: topic@,
                event: ChannelEventView::Custom(self@.event),
                payload: self@.payload,
                msg_ref: Some(self@.ref_id),
                join_ref: None,
            }),
    {
        RealtimeMessage::new(
            crate::text::owned(topic),
            ChannelEvent::Custom(self.event.clone()),
            self.payload.clone(),
        ).with_ref(self.ref_id.clone())
    }
}

} // verus!
