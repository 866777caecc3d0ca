//! Filters for Postgres change events, and the payloads of such events.

use vstd::prelude::*;
use serde_json::Value;
use crate::text::owned;

verus! {

/// Which Postgres changes a filter selects.
#[derive(Debug, Clone, Copy, PartialEq, Eq, Structural)]
pub enum PostgresChangeEvent {
    /// Every change (`*`)
    All,
    Insert,
    Update,
    Delete,
}

pub open spec fn all_text() -> Seq<char> {
    "*"@
}

pub open spec fn insert_text() -> Seq<char> {
    "INSERT"@
}

pub open spec fn update_text() -> Seq<char> {
    "UPDATE"@
}

pub open spec fn delete_text() -> Seq<char> {
    "DELETE"@
}

impl PostgresChangeEvent {
    /// The wire name of the event kind.
    pub open spec fn text(self) -> Seq<char> {
        match self {
            PostgresChangeEvent::All => all_text(),
            PostgresChangeEvent::Insert => insert_text(),
            PostgresChangeEvent::Update => update_text(),
            PostgresChangeEvent::Delete => delete_text(),
        }
    }

    /// The wire name of the event kind: `*`, `INSERT`, `UPDATE` or `DELETE`.
    pub fn as_str(&self) -> (r: &'static str)
        ensures
            r@ == self.text(),
    {
        match self {
            PostgresChangeEvent::All => "*",
            PostgresChangeEvent::Insert => "INSERT",
            PostgresChangeEvent::Update => "UPDATE",
            PostgresChangeEvent::Delete => "DELETE",
        }
    }
}

/// A filter on Postgres changes: event kind, schema, and optionally table
/// and row filter.
pub struct PostgresChangesFilter {
    pub event: PostgresChangeEvent,
    pub schema: String,
    pub table: Option<String>,
    pub filter: Option<String>,
}

/// The mathematical value of a filter.
pub struct FilterView {
    pub event: PostgresChangeEvent,
    pub schema: Seq<char>,
    pub table: Option<Seq<char>>,
    pub filter: Option<Seq<char>>,
}

impl View for PostgresChangesFilter {
    type V = FilterView;

    open spec fn view(&self) -> FilterView {
        FilterView {
            event: self.event,
            schema: self.schema@,
            table: crate::message::opt_view(self.table),
            filter: crate::message::opt_view(self.filter),
        }
    }
}

pub open spec fn event_key() -> Seq<char> {
    "event"@
}

pub open spec fn schema_key() -> Seq<char> {
    "schema"@
}

pub open spec fn table_key() -> Seq<char> {
    "table"@
}

pub open spec fn filter_key() -> Seq<char> {
    "filter"@
}

/// A pair present when the value is.
pub open spec fn optional_pair(k: Seq<char>, o: Option<Seq<char>>) -> Seq<(Seq<char>, Seq<char>)> {
    match o {
        Some(s) => seq![(k, s)],
        None => Seq::empty(),
    }
}

/// The filter as named strings: `event`, `schema`, then `table` and `filter`
/// where set.
pub open spec fn filter_pairs(f: FilterView) -> Seq<(Seq<char>, Seq<char>)> {
    seq![(event_key(), f.event.text()), (schema_key(), f.schema)] + optional_pair(table_key(), f.table)
        + optional_pair(filter_key(), f.filter)
}

/// The view of a list of string pairs.
pub open spec fn pairs_view(v: Seq<(String, String)>) -> Seq<(Seq<char>, Seq<char>)> {
    v.map_values(|p: (String, String)| (p.0@, p.1@))
}

impl PostgresChangesFilter {
    /// A filter on `event` changes in `schema`, any table.
    pub fn new(event: PostgresChangeEvent, schema: String) -> (r: PostgresChangesFilter)
        ensures
            r@ == (FilterView { event, schema: schema@, table: None, filter: None }),
    {
        PostgresChangesFilter { event, schema, table: None, filter: None }
    }

    /// The same filter restricted to `table`.
    pub fn table(self, table: String) -> (r: PostgresChangesFilter)
        ensures
            r@ == (FilterView { table: Some(table@), ..self@ }),
    {
        PostgresChangesFilter { table: Some(table), ..self }
    }

    /// The same filter with the row filter `filter`.
    pub fn filter(self, filter: String) -> (r: PostgresChangesFilter)
        ensures
            r@ == (FilterView { filter: Some(filter@), ..self@ }),
    {
        PostgresChangesFilter { filter: Some(filter), ..self }
    }

    /// The filter as named strings (distinct names).
    pub fn to_hash_map(&self) -> (r: Vec<(String, String)>)
        ensures
            pairs_view(r@) == filter_pairs(self@),
    {
        let mut r: Vec<(String, String)> = Vec::new();
        r.push((owned("event"), owned(self.event.as_str())));
        r.push((owned("schema"), self.schema.clone()));
        match &self.table {
            Some(t) => r.push((owned("table"), t.clone())),
            None => {},
        }
        match &self.filter {
            Some(f) => r.push((owned("filter"), f.clone())),
            None => {},
        }
        assert(pairs_view(r@) =~= filter_pairs(self@));
        r
    }
}

/// A column of a changed table.
pub struct ColumnInfo {
    pub name: String,
    pub column_type: String,
}

/// The fields common to all Postgres change payloads.
pub struct PostgresChangesPayloadBase {
    pub schema: String,
    pub table: String,
    pub commit_timestamp: String,
    pub errors: Option<Vec<String>>,
    pub columns: Vec<ColumnInfo>,
}

/// An inserted row.
pub struct PostgreInsertPayload {
    pub base: PostgresChangesPayloadBase,
    pub new: Vec<(String, Value)>,
}

/// An updated row, new and old.
pub struct PostgresUpdatePayload {
    pub base: PostgresChangesPayloadBase,
    pub new: Vec<(String, Value)>,
    pub old: Vec<(String, Value)>,
}

/// A deleted row.
pub struct PostgresDeletePayload {
    pub base: PostgresChangesPayloadBase,
    pub old: Vec<(String, Value)>,
}

/// A Postgres change, by kind.
pub enum PostgresChangesPayload {
    Insert(PostgreInsertPayload),
    Update(PostgresUpdatePayload),
    Delete(PostgresDeletePayload),
}

impl PostgresChangesPayload {
    /// The common fields of the change.
    pub open spec fn base_of(&self) -> PostgresChangesPayloadBase {
        match self {
            PostgresChangesPayload::Insert(p) => p.base,
            PostgresChangesPayload::Update(p) => p.base,
            PostgresChangesPayload::Delete(p) => p.base,
        }
    }

    /// The schema of the changed table.
    pub fn schema(&self) -> (r: &str)
        ensures
            r@ == self.base_of().schema@,
    {
        match self {
            PostgresChangesPayload::Insert(p) => p.base.schema.as_str(),
            PostgresChangesPayload::Update(p) => p.base.schema.as_str(),
            PostgresChangesPayload::Delete(p) => p.base.schema.as_str(),
        }
    }

    /// The changed table.
    pub fn table(&self) -> (r: &str)
        ensures
            r@ == self.base_of().table@,
    {
        match self {
            PostgresChangesPayload::Insert(p) => p.base.table.as_str(),
            PostgresChangesPayload::Update(p) => p.base.table.as_str(),
            PostgresChangesPayload::Delete(p) => p.base.table.as_str(),
        }
    }

    /// When the change was committed.
    pub fn commit_timestamp(&self) -> (r: &str)
        ensures
            r@ == self.base_of().commit_timestamp@,
    {
        match self {
            PostgresChangesPayload::Insert(p) => p.base.commit_timestamp.as_str(),
            PostgresChangesPayload::Update(p) => p.base.commit_timestamp.as_str(),
            PostgresChangesPayload::Delete(p) => p.base.commit_timestamp.as_str(),
        }
    }
}

} // verus!
