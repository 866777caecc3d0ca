//! Protocol messages and their JSON framing.
//!
//! A message is the JSON object
//! `{"topic": .., "event": .., "payload": .., "ref": .., "join_ref": ..}`
//! where `ref` and `join_ref` are left out when absent.

use vstd::prelude::*;
use serde_json::Value;
use crate::text::owned;
use crate::keys::{count_name, field_names, name_count, read_field_names};
use crate::assoc::{assoc_map, keys_unique, lemma_assoc};
use crate::error::RealtimeError;
use crate::event::{ChannelEvent, ChannelEventView};
use crate::json::{
    fields_view, json_as_str, json_check_null, json_error, json_field_of, json_get, json_is_null,
    json_null, json_object, json_object_of, json_parse, json_parse_of, json_str_of, json_string,
    json_string_of, json_text_of, json_to_text, object_lookup,
};

verus! {

/// A message of the Phoenix Channels protocol.
#[derive(Debug, Clone, PartialEq)]
pub struct RealtimeMessage {
    pub topic: String,
    pub event: ChannelEvent,
    pub payload: Value,
    /// The message reference (`ref` on the wire).
    pub msg_ref: Option<String>,
    pub join_ref: Option<String>,
}

/// An optional string as an optional `Seq<char>`.
pub open spec fn opt_view(o: Option<String>) -> Option<Seq<char>> {
    match o {
        Some(s) => Some(s@),
        None => None,
    }
}

/// The mathematical value of a message.
pub struct MessageView {
    pub topic: Seq<char>,
    pub event: ChannelEventView,
    pub payload: Value,
    pub msg_ref: Option<Seq<char>>,
    pub join_ref: Option<Seq<char>>,
}

impl View for RealtimeMessage {
    type V = MessageView;

    open spec fn view(&self) -> MessageView {
        MessageView {
            topic: self.topic@,
            event: self.event@,
            payload: self.payload,
            msg_ref: opt_view(self.msg_ref),
            join_ref: opt_view(self.join_ref),
        }
    }
}

pub open spec fn topic_key() -> Seq<char> {
    "topic"@
}

pub open spec fn event_key() -> Seq<char> {
    "event"@
}

pub open spec fn payload_key() -> Seq<char> {
    "payload"@
}

pub open spec fn ref_key() -> Seq<char> {
    "ref"@
}

pub open spec fn join_ref_key() -> Seq<char> {
    "join_ref"@
}

/// An optional string field: present when the value is.
pub open spec fn optional_field(k: Seq<char>, o: Option<Seq<char>>) -> Seq<(Seq<char>, Value)> {
    match o {
        Some(s) => seq![(k, json_string_of(s))],
        None => Seq::empty(),
    }
}

/// An optional string field as JSON text, led by a comma: present when
/// the value is.
pub open spec fn optional_text_field(name: Seq<char>, o: Option<Seq<char>>) -> Seq<char> {
    match o {
        Some(s) => ","@ + name + ":"@ + json_text_of(json_string_of(s)),
        None => Seq::empty(),
    }
}

/// The compact JSON text of a message, its fields in declaration order.
pub open spec fn encoded_text(m: MessageView) -> Seq<char> {
    "{\"topic\":"@ + json_text_of(json_string_of(m.topic)) + ",\"event\":"@ + json_text_of(
        json_string_of(m.event.text()),
    ) + ",\"payload\":"@ + json_text_of(m.payload) + optional_text_field("\"ref\""@, m.msg_ref)
        + optional_text_field("\"join_ref\""@, m.join_ref) + "}"@
}

/// The fields of the JSON object of a message, in order.
pub open spec fn message_fields(m: MessageView) -> Seq<(Seq<char>, Value)> {
    seq![
        (topic_key(), json_string_of(m.topic)),
        (event_key(), json_string_of(m.event.text())),
        (payload_key(), m.payload),
    ] + optional_field(ref_key(), m.msg_ref) + optional_field(join_ref_key(), m.join_ref)
}

/// The string held by the field `k` of `v`, if that field is a string.
pub open spec fn field_text(v: Value, k: Seq<char>) -> Option<Seq<char>> {
    match json_field_of(v, k) {
        Some(x) => json_str_of(x),
        None => None,
    }
}

/// Reads an optional string field: an absent or `null` field is `Some(None)`,
/// a string field is `Some(Some(s))`, any other field is invalid (`None`).
pub open spec fn optional_text(v: Value, k: Seq<char>) -> Option<Option<Seq<char>>> {
    match json_field_of(v, k) {
        None => Some(None),
        Some(x) => if json_is_null(x) {
            Some(None)
        } else {
            match json_str_of(x) {
                Some(s) => Some(Some(s)),
                None => None,
            }
        },
    }
}

/// A JSON value is a message: `topic` and `event` are strings, `ref` and
/// `join_ref` are absent, `null` or strings.
pub open spec fn decodes(v: Value) -> bool {
    &&& field_text(v, topic_key()) is Some
    &&& field_text(v, event_key()) is Some
    &&& optional_text(v, ref_key()) is Some
    &&& optional_text(v, join_ref_key()) is Some
}

/// `m` is what the JSON value `v` reads as: its fields, the event parsed from
/// its name, and a `null` payload where `payload` is absent.
pub open spec fn is_decoding_of(v: Value, m: MessageView) -> bool {
    &&& Some(m.topic) == field_text(v, topic_key())
    &&& m.event == ChannelEventView::parse_spec(field_text(v, event_key())->0)
    &&& Some(m.msg_ref) == optional_text(v, ref_key())
    &&& Some(m.join_ref) == optional_text(v, join_ref_key())
    &&& match json_field_of(v, payload_key()) {
        Some(p) => m.payload == p,
        None => json_is_null(m.payload),
    }
}

/// A JSON text names one of a message's fields more than once at its top
/// level.
pub open spec fn repeats_field(text: Seq<char>) -> bool {
    let names = field_names(text);
    ||| name_count(names, topic_key()) >= 2
    ||| name_count(names, event_key()) >= 2
    ||| name_count(names, payload_key()) >= 2
    ||| name_count(names, ref_key()) >= 2
    ||| name_count(names, join_ref_key()) >= 2
}

/// An event that reads back from its name as itself.
pub open spec fn canonical(e: ChannelEventView) -> bool {
    ChannelEventView::parse_spec(e.text()) == e
}

/// The field names of a message are distinct, and each is found with its value.
proof fn lemma_message_fields(m: MessageView)
    ensures
        keys_unique(message_fields(m)),
        object_lookup(message_fields(m), topic_key()) == Some(json_string_of(m.topic)),
        object_lookup(message_fields(m), event_key()) == Some(json_string_of(m.event.text())),
        object_lookup(message_fields(m), payload_key()) == Some(m.payload),
        object_lookup(message_fields(m), ref_key()) == match m.msg_ref {
            Some(s) => Some(json_string_of(s)),
            None => None::<Value>,
        },
        object_lookup(message_fields(m), join_ref_key()) == match m.join_ref {
            Some(s) => Some(json_string_of(s)),
            None => None::<Value>,
        },
{
    reveal_strlit("topic");
    reveal_strlit("event");
    reveal_strlit("payload");
    reveal_strlit("ref");
    reveal_strlit("join_ref");
    let fs = message_fields(m);
    assert(topic_key()[0] != event_key()[0]);
    assert(topic_key().len() != payload_key().len());
    assert(topic_key().len() != ref_key().len());
    assert(topic_key().len() != join_ref_key().len());
    assert(event_key().len() != payload_key().len());
    assert(event_key().len() != ref_key().len());
    assert(event_key().len() != join_ref_key().len());
    assert(payload_key().len() != ref_key().len());
    assert(payload_key().len() != join_ref_key().len());
    assert(ref_key().len() != join_ref_key().len());
    assert(keys_unique(fs));
    lemma_assoc(fs);
    crate::assoc::lemma_assoc_dom(fs);
    assert(fs[0].0 == topic_key());
    assert(fs[1].0 == event_key());
    assert(fs[2].0 == payload_key());
    match m.msg_ref {
        Some(s) => {
            assert(fs[3] == (ref_key(), json_string_of(s)));
        },
        None => {
            if crate::assoc::has_key(fs, ref_key()) {
                let i = choose|i: int| 0 <= i < fs.len() && fs[i].0 == ref_key();
                assert(false);
            }
        },
    }
    match m.join_ref {
        Some(s) => {
            assert(fs[fs.len() - 1] == (join_ref_key(), json_string_of(s)));
        },
        None => {
            if crate::assoc::has_key(fs, join_ref_key()) {
                let i = choose|i: int| 0 <= i < fs.len() && fs[i].0 == join_ref_key();
                assert(false);
            }
        },
    }
}

/// Reads an optional string field.
fn read_optional_text(v: &Value, key: &str) -> (r: Option<Option<String>>)
    ensures
        match r {
            None => optional_text(*v, key@) is None,
            Some(o) => optional_text(*v, key@) == Some(opt_view(o)),
        },
        forall|fs: Seq<(Seq<char>, Value)>, s: Seq<char>|
            keys_unique(fs) && *v == json_object_of(fs) && object_lookup(fs, key@) == Some(
                json_string_of(s),
            ) ==> (r matches Some(Some(t)) && t@ == s),
        forall|fs: Seq<(Seq<char>, Value)>|
            keys_unique(fs) && *v == json_object_of(fs) && object_lookup(fs, key@) is None ==> r
                matches Some(None),
{
    match json_get(v, key) {
        None => Some(None),
        Some(x) => {
            if json_check_null(&x) {
                Some(None)
            } else {
                match json_as_str(&x) {
                    Some(s) => Some(Some(s)),
                    None => None,
                }
            }
        },
    }
}

impl RealtimeMessage {
    /// A message without references.
    pub fn new(topic: String, event: ChannelEvent, payload: Value) -> (r: RealtimeMessage)
        ensures
            r@ == (MessageView {
                topic: topic@,
                event: event@,
                payload,
                msg_ref: None,
                join_ref: None,
            }),
    {
        RealtimeMessage { topic, event, payload, msg_ref: None, join_ref: None }
    }

    /// The same message with the reference `msg_ref`.
    pub fn with_ref(self, msg_ref: String) -> (r: RealtimeMessage)
        ensures
            r@ == (MessageView { msg_ref: Some(msg_ref@), ..self@ }),
    {
        RealtimeMessage { msg_ref: Some(msg_ref), ..self }
    }

    /// The same message with the join reference `join_ref`.
    pub fn with_join_ref(self, join_ref: String) -> (r: RealtimeMessage)
        ensures
            r@ == (MessageView { join_ref: Some(join_ref@), ..self@ }),
    {
        RealtimeMessage { join_ref: Some(join_ref), ..self }
    }

    /// The JSON object of this message.
    pub fn to_value(&self) -> (r: Value)
        ensures
            r == json_object_of(message_fields(self@)),
    {
        let mut fields: Vec<(String, Value)> = Vec::new();
        fields.push((String::from_str("topic"), json_string(self.topic.as_str())));
        fields.push((String::from_str("event"), json_string(self.event.as_str())));
        fields.push((String::from_str("payload"), self.payload.clone()));
        match &self.msg_ref {
            Some(r) => fields.push((String::from_str("ref"), json_string(r.as_str()))),
            None => {},
        }
        match &self.join_ref {
            Some(r) => fields.push((String::from_str("join_ref"), json_string(r.as_str()))),
            None => {},
        }
        assert(fields_view(fields@) =~= message_fields(self@));
        json_object(fields)
    }

    /// Reads a message from a JSON value. Reading the JSON object of a message
    /// whose event reads back as itself gives that message back.
    pub fn from_value(v: &Value) -> (r: Result<RealtimeMessage, RealtimeError>)
        ensures
            r is Ok <==> decodes(*v),
            r matches Ok(m) ==> is_decoding_of(*v, m@),
            r matches Err(e) ==> e is Serialization,
            forall|m: MessageView|
                #![trigger message_fields(m)]
                *v == json_object_of(message_fields(m)) && canonical(m.event) ==> r is Ok && r->Ok_0@
                    == m,
    {
        let topic = match json_get(v, "topic") {
            Some(x) => json_as_str(&x),
            None => None,
        };
        let event = match json_get(v, "event") {
            Some(x) => json_as_str(&x),
            None => None,
        };
        let payload = json_get(v, "payload");
        let msg_ref = read_optional_text(v, "ref");
        let join_ref = read_optional_text(v, "join_ref");
        proof {
            assert forall|m: MessageView|
                #![trigger message_fields(m)]
                *v == json_object_of(message_fields(m)) implies {
                &&& topic matches Some(t) && t@ == m.topic
                &&& event matches Some(t) && t@ == m.event.text()
                &&& payload == Some(m.payload)
                &&& msg_ref matches Some(o) && opt_view(o) == m.msg_ref
                &&& join_ref matches Some(o) && opt_view(o) == m.join_ref
            } by {
                lemma_message_fields(m);
            }
        }
        match (topic, event, msg_ref, join_ref) {
            (Some(topic), Some(event), Some(msg_ref), Some(join_ref)) => {
                let payload = match payload {
                    Some(p) => p,
                    None => json_null(),
                };
                let event = ChannelEvent::parse(event.as_str());
                Ok(RealtimeMessage { topic, event, payload, msg_ref, join_ref })
            },
            _ => Err(RealtimeError::Serialization(json_error("not a Realtime message"))),
        }
    }

    /// The JSON text of this message: its fields in the order `topic`,
    /// `event`, `payload`, `ref`, `join_ref`, the references only where set,
    /// written compactly.
    pub fn encode(&self) -> (r: String)
        ensures
            r@ == encoded_text(self@),
    {
        let mut r = owned("{\"topic\":");
        r.append(json_to_text(&json_string(self.topic.as_str())).as_str());
        r.append(",\"event\":");
        r.append(json_to_text(&json_string(self.event.as_str())).as_str());
        r.append(",\"payload\":");
        r.append(json_to_text(&self.payload).as_str());
        let ghost head = r@;
        match &self.msg_ref {
            Some(x) => {
                r.append(",\"ref\":");
                r.append(json_to_text(&json_string(x.as_str())).as_str());
            },
            None => {},
        }
        assert(r@ =~= head + optional_text_field("\"ref\""@, self@.msg_ref)) by {
            reveal_strlit(",\"ref\":");
            reveal_strlit(",");
            reveal_strlit("\"ref\"");
            reveal_strlit(":");
        }
        let ghost mid = r@;
        match &self.join_ref {
            Some(x) => {
                r.append(",\"join_ref\":");
                r.append(json_to_text(&json_string(x.as_str())).as_str());
            },
            None => {},
        }
        assert(r@ =~= mid + optional_text_field("\"join_ref\""@, self@.join_ref)) by {
            reveal_strlit(",\"join_ref\":");
            reveal_strlit(",");
            reveal_strlit("\"join_ref\"");
            reveal_strlit(":");
        }
        r.append("}");
        assert(r@ =~= encoded_text(self@));
        r
    }

    /// Reads a message from a JSON text. A text that names one of the
    /// message's fields twice is refused, as serde's derived reader does.
    pub fn decode(text: &str) -> (r: Result<RealtimeMessage, RealtimeError>)
        ensures
            r is Ok <==> (json_parse_of(text@) matches Some(v) && decodes(v) && !repeats_field(text@)),
            r matches Ok(m) ==> is_decoding_of(json_parse_of(text@)->0, m@),
            r matches Err(e) ==> e is Serialization,
    {
        match json_parse(text) {
            Ok(v) => {
                let names = read_field_names(text);
                if count_name(&names, "topic") >= 2 || count_name(&names, "event") >= 2 || count_name(
                    &names,
                    "payload",
                ) >= 2 || count_name(&names, "ref") >= 2 || count_name(&names, "join_ref") >= 2 {
                    return Err(RealtimeError::Serialization(json_error("duplicate field")));
                }
                RealtimeMessage::from_value(&v)
            },
            Err(e) => Err(RealtimeError::Serialization(e)),
        }
    }
}

} // verus!
