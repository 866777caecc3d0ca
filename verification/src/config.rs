//! The join payload of a channel, and the Postgres change payload that
//! bindings are filtered on.
//! Reference: https://supabase.com/docs/guides/realtime/protocol

use vstd::prelude::*;
use serde_json::Value;
use crate::json::{
    fields_view, json_array, json_array_of, json_bool, json_bool_of, json_object, json_object_of,
    json_string, json_string_of,
};
use crate::message::opt_view;
use crate::text::owned;

verus! {

/// Broadcast options of a join.
pub struct BroadcastConfig {
    /// Enable client to receive messages it broadcast (`self` on the wire)
    pub self_: bool,
    /// Instruct server to acknowledge broadcast receipt
    pub ack: bool,
}

/// Presence options of a join.
pub struct PresenceConfig {
    /// Track presence payload across clients
    pub key: Option<String>,
    /// Enable presence tracking
    pub enabled: bool,
}

/// One Postgres changes subscription of a join.
pub struct PostgresChangesConfig {
    /// `*`, `INSERT`, `UPDATE` or `DELETE`
    pub event: String,
    pub schema: String,
    pub table: Option<String>,
    pub filter: Option<String>,
}

/// Channel join payload configuration.
pub struct ChannelJoinConfig {
    pub broadcast: BroadcastConfig,
    pub presence: PresenceConfig,
    /// `private` on the wire
    pub is_private: bool,
    pub postgres_changes: Option<Vec<PostgresChangesConfig>>,
}

/// Full join payload sent to server.
pub struct JoinPayload {
    pub config: ChannelJoinConfig,
    pub access_token: Option<String>,
}

/// Postgres change kinds in a change payload.
#[derive(Debug, Clone, Copy, PartialEq, Eq, Structural)]
pub enum PostgresEventType {
    Insert,
    Update,
    Delete,
}

/// Postgres changes data (inside message payload).
pub struct PostgresChangesData {
    pub event_type: PostgresEventType,
    pub schema: String,
    pub table: String,
    pub commit_timestamp: String,
    pub errors: Option<Vec<String>>,
    /// New record data (for INSERT/UPDATE)
    pub new: Option<Value>,
    /// Old record data (for UPDATE/DELETE)
    pub old: Option<Value>,
}

/// Full postgres changes message payload.
pub struct PostgresChangesPayload {
    pub ids: Vec<i32>,
    pub data: PostgresChangesData,
}

/// The mathematical value of a Postgres changes subscription.
pub struct PgConfigView {
    pub event: Seq<char>,
    pub schema: Seq<char>,
    pub table: Option<Seq<char>>,
    pub filter: Option<Seq<char>>,
}

impl View for PostgresChangesConfig {
    type V = PgConfigView;

    open spec fn view(&self) -> PgConfigView {
        PgConfigView {
            event: self.event@,
            schema: self.schema@,
            table: opt_view(self.table),
            filter: opt_view(self.filter),
        }
    }
}

pub open spec fn configs_view(v: Seq<PostgresChangesConfig>) -> Seq<PgConfigView> {
    v.map_values(|c: PostgresChangesConfig| c@)
}

/// The mathematical value of a join payload.
pub struct JoinPayloadView {
    pub broadcast_self: bool,
    pub broadcast_ack: bool,
    pub presence_key: Option<Seq<char>>,
    pub presence_enabled: bool,
    pub is_private: bool,
    pub postgres_changes: Option<Seq<PgConfigView>>,
    pub access_token: Option<Seq<char>>,
}

impl View for JoinPayload {
    type V = JoinPayloadView;

    open spec fn view(&self) -> JoinPayloadView {
        JoinPayloadView {
            broadcast_self: self.config.broadcast.self_,
            broadcast_ack: self.config.broadcast.ack,
            presence_key: opt_view(self.config.presence.key),
            presence_enabled: self.config.presence.enabled,
            is_private: self.config.is_private,
            postgres_changes: match self.config.postgres_changes {
                Some(v) => Some(configs_view(v@)),
                None => None,
            },
            access_token: opt_view(self.access_token),
        }
    }
}

/// A string field present when the value is.
pub open spec fn optional_string_field(k: Seq<char>, o: Option<Seq<char>>) -> Seq<(Seq<char>, Value)> {
    match o {
        Some(s) => seq![(k, json_string_of(s))],
        None => Seq::empty(),
    }
}

/// The JSON object of a Postgres changes subscription.
pub open spec fn pg_config_json(c: PgConfigView) -> Value {
    json_object_of(
        seq![("event"@, json_string_of(c.event)), ("schema"@, json_string_of(c.schema))]
            + optional_string_field("table"@, c.table) + optional_string_field("filter"@, c.filter),
    )
}

/// The JSON object of a join payload: `config` with `broadcast` (`self`,
/// `ack`), `presence` (`key` when set, `enabled`), `private` and
/// `postgres_changes` when set; then `access_token` when set.
pub open spec fn join_payload_json(p: JoinPayloadView) -> Value {
    let broadcast = json_object_of(
        seq![("self"@, json_bool_of(p.broadcast_self)), ("ack"@, json_bool_of(p.broadcast_ack))],
    );
    let presence = json_object_of(
        optional_string_field("key"@, p.presence_key) + seq![
            ("enabled"@, json_bool_of(p.presence_enabled)),
        ],
    );
    let pg = match p.postgres_changes {
        Some(cs) => seq![
            ("postgres_changes"@, json_array_of(cs.map_values(|c: PgConfigView| pg_config_json(c)))),
        ],
        None => Seq::empty(),
    };
    let config = json_object_of(
        seq![
            ("broadcast"@, broadcast),
            ("presence"@, presence),
            ("private"@, json_bool_of(p.is_private)),
        ] + pg,
    );
    json_object_of(seq![("config"@, config)] + optional_string_field("access_token"@, p.access_token))
}

impl PostgresChangesConfig {
    /// The JSON object of this subscription.
    pub fn to_value(&self) -> (r: Value)
        ensures
            r == pg_config_json(self@),
    {
        let mut fields: Vec<(String, Value)> = Vec::new();
        fields.push((owned("event"), json_string(self.event.as_str())));
        fields.push((owned("schema"), json_string(self.schema.as_str())));
        match &self.table {
            Some(t) => fields.push((owned("table"), json_string(t.as_str()))),
            None => {},
        }
        match &self.filter {
            Some(f) => fields.push((owned("filter"), json_string(f.as_str()))),
            None => {},
        }
        assert(fields_view(fields@) =~= seq![
            ("event"@, json_string_of(self.event@)),
            ("schema"@, json_string_of(self.schema@)),
        ] + optional_string_field("table"@, self@.table) + optional_string_field(
            "filter"@,
            self@.filter,
        ));
        json_object(fields)
    }
}

impl JoinPayload {
    /// The JSON object of this join payload.
    pub fn to_value(&self) -> (r: Value)
        ensures
            r == join_payload_json(self@),
    {
        let mut b: Vec<(String, Value)> = Vec::new();
        b.push((owned("self"), json_bool(self.config.broadcast.self_)));
        b.push((owned("ack"), json_bool(self.config.broadcast.ack)));
        let ghost bv = fields_view(b@);
        let broadcast = json_object(b);
        let mut p: Vec<(String, Value)> = Vec::new();
        match &self.config.presence.key {
            Some(k) => p.push((owned("key"), json_string(k.as_str()))),
            None => {},
        }
        p.push((owned("enabled"), json_bool(self.config.presence.enabled)));
        let ghost pv = fields_view(p@);
        let presence = json_object(p);
        let mut c: Vec<(String, Value)> = Vec::new();
        c.push((owned("broadcast"), broadcast));
        c.push((owned("presence"), presence));
        c.push((owned("private"), json_bool(self.config.is_private)));
        match &self.config.postgres_changes {
            Some(cs) => {
                let mut items: Vec<Value> = Vec::new();
                let mut i: usize = 0;
                while i < cs.len()
                    invariant
                        i <= cs@.len(),
                        items@.len() == i,
                        forall|j: int| 0 <= j < i ==> #[trigger] items@[j] == pg_config_json(cs@[j]@),
                    decreases cs@.len() - i,
                {
                    items.push(cs[i].to_value());
                    i = i + 1;
                }
                assert(items@ =~= configs_view(cs@).map_values(|c: PgConfigView| pg_config_json(c)));
                c.push((owned("postgres_changes"), json_array(items)));
            },
            None => {},
        }
        let ghost cv = fields_view(c@);
        let config = json_object(c);
        let mut top: Vec<(String, Value)> = Vec::new();
        top.push((owned("config"), config));
        match &self.access_token {
            Some(t) => top.push((owned("access_token"), json_string(t.as_str()))),
            None => {},
        }
        proof {
            let v = self@;
            assert(bv =~= seq![("self"@, json_bool_of(v.broadcast_self)), ("ack"@, json_bool_of(v.broadcast_ack))]);
            assert(pv =~= optional_string_field("key"@, v.presence_key) + seq![
                ("enabled"@, json_bool_of(v.presence_enabled)),
            ]);
            let pgs = match v.postgres_changes {
                Some(cs) => seq![
                    ("postgres_changes"@, json_array_of(cs.map_values(|c: PgConfigView| pg_config_json(c)))),
                ],
                None => Seq::empty(),
            };
            assert(cv =~= seq![
                ("broadcast"@, json_object_of(bv)),
                ("presence"@, json_object_of(pv)),
                ("private"@, json_bool_of(v.is_private)),
            ] + pgs);
            assert(fields_view(top@) =~= seq![("config"@, json_object_of(cv))] + optional_string_field(
                "access_token"@,
                v.access_token,
            ));
        }
        json_object(top)
    }
}

} // verus!
