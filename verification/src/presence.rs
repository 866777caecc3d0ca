//! Presence bookkeeping: who is present on a channel, with which metadata.
//!
//! The server sends either a full presence state or a diff of joins and
//! leaves. Each presence entry is identified by its `presence_ref`.
//! Maps keyed by strings are held as lists of pairs with distinct keys
//! (see `assoc`); their meaning is the map `assoc_map` of the pairs.

use vstd::prelude::*;
use serde_json::Value;
use crate::assoc::{
    assoc_map, has_key, keys_unique, lemma_assoc, lemma_assoc_push, lemma_assoc_remove,
    lemma_assoc_update,
};
use crate::json::{clone_fields, fields_view};
use crate::text::str_eq;

verus! {

/// One presence entry as sent by the server.
#[derive(Debug, Clone)]
pub struct RawPresenceMeta {
    pub phx_ref: Option<String>,
    pub phx_ref_prev: Option<String>,
    /// The other fields of the entry.
    pub data: Vec<(String, Value)>,
}

/// The presence entries of one key, as sent by the server.
#[derive(Debug, Clone)]
pub struct RawPresenceEntries {
    pub metas: Vec<RawPresenceMeta>,
}

/// A presence state as sent by the server: key to entries.
pub type RawPresenceState = Vec<(String, RawPresenceEntries)>;

/// One presence entry.
#[derive(Debug, Clone)]
pub struct PresenceMeta {
    pub presence_ref: String,
    /// The other fields of the entry.
    pub data: Vec<(String, Value)>,
}

/// A presence state: key to entries, keys pairwise distinct.
pub type PresenceState = Vec<(String, Vec<PresenceMeta>)>;

/// A presence diff as sent by the server.
#[derive(Debug, Clone)]
pub struct RawPresenceDiff {
    pub joins: RawPresenceState,
    pub leaves: RawPresenceState,
}

/// The presence of one channel.
#[derive(Debug)]
pub struct Presence {
    state: PresenceState,
    pending_diffs: Vec<RawPresenceDiff>,
    join_ref: Option<String>,
}

/// What a synchronisation changed.
#[derive(Debug)]
pub struct PresenceChanges {
    pub joins: PresenceState,
    pub leaves: PresenceState,
}

/// The mathematical value of a presence entry.
pub struct MetaView {
    pub presence_ref: Seq<char>,
    pub data: Seq<(Seq<char>, Value)>,
}

impl View for PresenceMeta {
    type V = MetaView;

    open spec fn view(&self) -> MetaView {
        MetaView { presence_ref: self.presence_ref@, data: fields_view(self.data@) }
    }
}

pub open spec fn metas_view(v: Seq<PresenceMeta>) -> Seq<MetaView> {
    v.map_values(|m: PresenceMeta| m@)
}

pub open spec fn entries_view(s: Seq<(String, Vec<PresenceMeta>)>) -> Seq<(Seq<char>, Seq<MetaView>)> {
    s.map_values(|p: (String, Vec<PresenceMeta>)| (p.0@, metas_view(p.1@)))
}

/// The map that a presence state stands for.
pub open spec fn state_map(s: Seq<(String, Vec<PresenceMeta>)>) -> Map<Seq<char>, Seq<MetaView>> {
    assoc_map(entries_view(s))
}

/// A presence state has pairwise distinct keys.
pub open spec fn state_wf(s: Seq<(String, Vec<PresenceMeta>)>) -> bool {
    keys_unique(entries_view(s))
}

/// An entry as the server sent it, read as a presence entry: a missing
/// `phx_ref` becomes the empty string.
pub open spec fn meta_from_raw(m: RawPresenceMeta) -> MetaView {
    MetaView {
        presence_ref: match m.phx_ref {
            Some(r) => r@,
            None => Seq::empty(),
        },
        data: fields_view(m.data@),
    }
}

pub open spec fn raw_metas_view(v: Seq<RawPresenceMeta>) -> Seq<MetaView> {
    v.map_values(|m: RawPresenceMeta| meta_from_raw(m))
}

pub open spec fn raw_entries_view(s: Seq<(String, RawPresenceEntries)>) -> Seq<(Seq<char>, Seq<MetaView>)> {
    s.map_values(|p: (String, RawPresenceEntries)| (p.0@, raw_metas_view(p.1.metas@)))
}

/// The map that a raw presence state stands for (a later key wins, as when
/// a map is collected from pairs).
pub open spec fn raw_state_map(s: Seq<(String, RawPresenceEntries)>) -> Map<Seq<char>, Seq<MetaView>> {
    assoc_map(raw_entries_view(s))
}

/// Some entry of `metas` has reference `r`.
pub open spec fn has_ref(metas: Seq<MetaView>, r: Seq<char>) -> bool {
    exists|j: int| 0 <= j < metas.len() && metas[j].presence_ref == r
}

/// The references of a list of entries.
pub open spec fn seq_refs(metas: Seq<MetaView>) -> Set<Seq<char>> {
    Set::new(|r: Seq<char>| has_ref(metas, r))
}

/// The references of all entries of a state.
pub open spec fn map_refs(m: Map<Seq<char>, Seq<MetaView>>) -> Set<Seq<char>> {
    Set::new(|r: Seq<char>| exists|k: Seq<char>| m.contains_key(k) && has_ref(m[k], r))
}

/// The entries of `metas` whose reference is not in `refs`, in order.
pub open spec fn without(metas: Seq<MetaView>, refs: Set<Seq<char>>) -> Seq<MetaView> {
    metas.filter(|m: MetaView| !refs.contains(m.presence_ref))
}

/// For each key of `to`, its entries whose reference is not in `refs`;
/// keys left with no entry are dropped.
pub open spec fn kept_entries(refs: Set<Seq<char>>, to: Map<Seq<char>, Seq<MetaView>>) -> Map<
    Seq<char>,
    Seq<MetaView>,
> {
    Map::new(
        |k: Seq<char>| to.contains_key(k) && without(to[k], refs).len() > 0,
        |k: Seq<char>| without(to[k], refs),
    )
}

/// The entries of `to` that `from` does not have (by reference): what a
/// change from `from` to `to` adds.
pub open spec fn changes_between(
    from: Map<Seq<char>, Seq<MetaView>>,
    to: Map<Seq<char>, Seq<MetaView>>,
) -> Map<Seq<char>, Seq<MetaView>> {
    kept_entries(map_refs(from), to)
}

/// The strings of a list, as a set.
pub open spec fn strs_set(v: Seq<String>) -> Set<Seq<char>> {
    Set::new(|x: Seq<char>| exists|j: int| 0 <= j < v.len() && v[j]@ == x)
}

/// Whether `x` occurs in `v`.
fn contains_str(v: &Vec<String>, x: &str) -> (r: bool)
    ensures
        r == strs_set(v@).contains(x@),
{
    let mut i: usize = 0;
    while i < v.len()
        invariant
            i <= v@.len(),
            forall|j: int| 0 <= j < i ==> v@[j]@ != x@,
        decreases v@.len() - i,
    {
        if str_eq(v[i].as_str(), x) {
            return true;
        }
        i = i + 1;
    }
    false
}

/// A copy of a presence entry.
fn clone_meta(m: &PresenceMeta) -> (r: PresenceMeta)
    ensures
        r@ == m@,
{
    PresenceMeta { presence_ref: m.presence_ref.clone(), data: clone_fields(&m.data) }
}

/// A copy of a list of presence entries.
fn clone_metas(v: &Vec<PresenceMeta>) -> (r: Vec<PresenceMeta>)
    ensures
        metas_view(r@) == metas_view(v@),
{
    let mut r: Vec<PresenceMeta> = Vec::new();
    let mut i: usize = 0;
    while i < v.len()
        invariant
            i <= v@.len(),
            r@.len() == i,
            forall|j: int| 0 <= j < i ==> #[trigger] r@[j]@ == v@[j]@,
        decreases v@.len() - i,
    {
        let m = clone_meta(&v[i]);
        r.push(m);
        i = i + 1;
    }
    assert(metas_view(r@) =~= metas_view(v@));
    r
}

/// Reads the entries of one key as the server sent them.
fn metas_from_raw(raw: &Vec<RawPresenceMeta>) -> (r: Vec<PresenceMeta>)
    ensures
        metas_view(r@) == raw_metas_view(raw@),
{
    let mut r: Vec<PresenceMeta> = Vec::new();
    let mut i: usize = 0;
    while i < raw.len()
        invariant
            i <= raw@.len(),
            r@.len() == i,
            forall|j: int| 0 <= j < i ==> #[trigger] r@[j]@ == meta_from_raw(raw@[j]),
        decreases raw@.len() - i,
    {
        let presence_ref = match &raw[i].phx_ref {
            Some(s) => s.clone(),
            None => String::new(),
        };
        let m = PresenceMeta { presence_ref, data: clone_fields(&raw[i].data) };
        r.push(m);
        i = i + 1;
    }
    assert(metas_view(r@) =~= raw_metas_view(raw@));
    r
}

/// Viewing a state commutes with pushing, updating and removing pairs.
proof fn lemma_entries_view_push(s: Seq<(String, Vec<PresenceMeta>)>, p: (String, Vec<PresenceMeta>))
    ensures
        entries_view(s.push(p)) == entries_view(s).push((p.0@, metas_view(p.1@))),
{
    assert(entries_view(s.push(p)) =~= entries_view(s).push((p.0@, metas_view(p.1@))));
}

proof fn lemma_entries_view_update(
    s: Seq<(String, Vec<PresenceMeta>)>,
    i: int,
    p: (String, Vec<PresenceMeta>),
)
    requires
        0 <= i < s.len(),
    ensures
        entries_view(s.update(i, p)) == entries_view(s).update(i, (p.0@, metas_view(p.1@))),
{
    assert(entries_view(s.update(i, p)) =~= entries_view(s).update(i, (p.0@, metas_view(p.1@))));
}

proof fn lemma_entries_view_remove(s: Seq<(String, Vec<PresenceMeta>)>, i: int)
    requires
        0 <= i < s.len(),
    ensures
        entries_view(s.remove(i)) == entries_view(s).remove(i),
{
    assert(entries_view(s.remove(i)) =~= entries_view(s).remove(i));
}

/// Sets the entries of `key` in a state (inserting the key if absent).
fn state_insert(state: &mut PresenceState, key: String, metas: Vec<PresenceMeta>)
    requires
        state_wf(old(state)@),
    ensures
        state_wf(final(state)@),
        state_map(final(state)@) == state_map(old(state)@).insert(key@, metas_view(metas@)),
{
    let ghost k = key@;
    let ghost v = metas_view(metas@);
    match crate::assoc::find_key(state, key.as_str()) {
        Some(i) => {
            proof {
                lemma_entries_view_update(state@, i as int, (key, metas));
                assert(entries_view(state@)[i as int].0 == k);
                lemma_assoc_update(entries_view(state@), i as int, v);
            }
            state.set(i, (key, metas));
        },
        None => {
            proof {
                lemma_entries_view_push(state@, (key, metas));
                assert(!has_key(entries_view(state@), k)) by {
                    if has_key(entries_view(state@), k) {
                        let j = choose|j: int|
                            0 <= j < entries_view(state@).len() && entries_view(state@)[j].0 == k;
                        assert(state@[j].0@ == k);
                    }
                }
                lemma_assoc_push(entries_view(state@), k, v);
            }
            state.push((key, metas));
        },
    }
}

/// Reads a presence state as the server sent it.
fn transform_state(raw: RawPresenceState) -> (r: PresenceState)
    ensures
        state_wf(r@),
        state_map(r@) == raw_state_map(raw@),
{
    let mut r: PresenceState = Vec::new();
    let mut i: usize = 0;
    proof {
        assert(entries_view(r@) =~= Seq::empty());
        assert(raw_entries_view(raw@).take(0) =~= Seq::empty());
    }
    while i < raw.len()
        invariant
            i <= raw@.len(),
            state_wf(r@),
            state_map(r@) == assoc_map(raw_entries_view(raw@).take(i as int)),
        decreases raw@.len() - i,
    {
        let key = raw[i].0.clone();
        let metas = metas_from_raw(&raw[i].1.metas);
        state_insert(&mut r, key, metas);
        proof {
            let t = raw_entries_view(raw@).take(i + 1);
            assert(t.drop_last() =~= raw_entries_view(raw@).take(i as int));
        }
        i = i + 1;
    }
    assert(raw_entries_view(raw@).take(raw@.len() as int) =~= raw_entries_view(raw@));
    r
}


/// The references of the entries under the first `i` keys of a state.
pub open spec fn prefix_refs(ev: Seq<(Seq<char>, Seq<MetaView>)>, i: int) -> Set<Seq<char>> {
    Set::new(|x: Seq<char>| exists|a: int| 0 <= a < i && #[trigger] has_ref(ev[a].1, x))
}

/// All references of a state.
fn collect_refs(s: &PresenceState) -> (r: Vec<String>)
    requires
        state_wf(s@),
    ensures
        strs_set(r@) == map_refs(state_map(s@)),
{
    let ghost ev = entries_view(s@);
    let mut r: Vec<String> = Vec::new();
    let mut i: usize = 0;
    proof {
        assert(strs_set(r@) =~= prefix_refs(ev, 0));
    }
    while i < s.len()
        invariant
            i <= s@.len(),
            ev == entries_view(s@),
            strs_set(r@) == prefix_refs(ev, i as int),
        decreases s@.len() - i,
    {
        let metas = &s[i].1;
        let ghost mv = metas_view(metas@);
        assert(ev[i as int].1 == mv);
        let mut j: usize = 0;
        proof {
            assert(strs_set(r@) =~= prefix_refs(ev, i as int).union(seq_refs(mv.take(0))));
        }
        while j < metas.len()
            invariant
                i < s@.len(),
                j <= metas@.len(),
                mv == metas_view(metas@),
                strs_set(r@) == prefix_refs(ev, i as int).union(seq_refs(mv.take(j as int))),
            decreases metas@.len() - j,
        {
            let ghost old_r = r@;
            r.push(metas[j].presence_ref.clone());
            proof {
                let x = metas@[j as int].presence_ref@;
                assert forall|y: Seq<char>| strs_set(r@).contains(y) <==> strs_set(old_r).contains(y)
                    || y == x by {
                    if strs_set(r@).contains(y) {
                        let a = choose|a: int| 0 <= a < r@.len() && r@[a]@ == y;
                        if a < old_r.len() {
                            assert(old_r[a] == r@[a]);
                        }
                    }
                    if strs_set(old_r).contains(y) {
                        let a = choose|a: int| 0 <= a < old_r.len() && old_r[a]@ == y;
                        assert(r@[a] == old_r[a]);
                    }
                    if y == x {
                        assert(r@[old_r.len() as int]@ == y);
                    }
                }
                let t1 = mv.take(j + 1);
                let t0 = mv.take(j as int);
                assert(mv[j as int] == metas@[j as int]@);
                assert(t1[j as int] == mv[j as int]);
                assert forall|y: Seq<char>| seq_refs(t1).contains(y) <==> seq_refs(t0).contains(y)
                    || y == x by {
                    if has_ref(t1, y) {
                        let a = choose|a: int| 0 <= a < t1.len() && #[trigger] t1[a].presence_ref == y;
                        if a < j {
                            assert(t0[a] == t1[a]);
                        }
                    }
                    if has_ref(t0, y) {
                        let a = choose|a: int| 0 <= a < t0.len() && #[trigger] t0[a].presence_ref == y;
                        assert(t1[a] == t0[a]);
                    }
                    if y == x {
                        assert(t1[j as int].presence_ref == y);
                    }
                }
                assert(t1 == mv.take(j + 1));
                assert forall|y: Seq<char>| strs_set(r@).contains(y) <==> prefix_refs(ev, i as int).union(
                    seq_refs(t1),
                ).contains(y) by {
                    assert(strs_set(old_r).contains(y) <==> prefix_refs(ev, i as int).union(
                        seq_refs(t0)).contains(y));
                }
                assert(strs_set(r@) =~= prefix_refs(ev, i as int).union(seq_refs(t1)));
            }
            j = j + 1;
        }
        proof {
            assert(mv.take(j as int) =~= mv);
            assert forall|y: Seq<char>| prefix_refs(ev, i + 1).contains(y) <==> prefix_refs(
                ev,
                i as int,
            ).contains(y) || seq_refs(mv).contains(y) by {
                if prefix_refs(ev, i + 1).contains(y) {
                    let a = choose|a: int| 0 <= a < i + 1 && #[trigger] has_ref(ev[a].1, y);
                    if a < i {
                        assert(prefix_refs(ev, i as int).contains(y));
                    }
                }
                if seq_refs(mv).contains(y) {
                    assert(has_ref(ev[i as int].1, y));
                }
            }
            assert(strs_set(r@) =~= prefix_refs(ev, i + 1));
        }
        i = i + 1;
    }
    proof {
        assert(keys_unique(ev));
        lemma_assoc(ev);
        let m = assoc_map(ev);
        assert forall|y: Seq<char>| prefix_refs(ev, ev.len() as int).contains(y) <==> map_refs(
            m,
        ).contains(y) by {
            if prefix_refs(ev, ev.len() as int).contains(y) {
                let a = choose|a: int| 0 <= a < ev.len() && #[trigger] has_ref(ev[a].1, y);
                assert(0 <= a < ev.len());
                assert(m.contains_key(ev[a].0));
                assert(m[ev[a].0] == ev[a].1);
                assert(has_ref(m[ev[a].0], y));
            }
            if map_refs(m).contains(y) {
                let k = choose|k: Seq<char>| m.contains_key(k) && has_ref(m[k], y);
                assert(has_key(ev, k));
                let a = choose|a: int| 0 <= a < ev.len() && ev[a].0 == k;
                assert(m[ev[a].0] == ev[a].1);
                assert(has_ref(ev[a].1, y));
            }
        }
        assert(prefix_refs(ev, ev.len() as int) =~= map_refs(m));
    }
    r
}

/// The entries of `metas` whose reference is not in `refs`.
fn keep_unlisted(metas: &Vec<PresenceMeta>, refs: &Vec<String>) -> (r: Vec<PresenceMeta>)
    ensures
        metas_view(r@) == without(metas_view(metas@), strs_set(refs@)),
{
    let ghost mv = metas_view(metas@);
    let ghost pred = |m: MetaView| !strs_set(refs@).contains(m.presence_ref);
    let mut r: Vec<PresenceMeta> = Vec::new();
    let mut i: usize = 0;
    proof {
        reveal(Seq::filter);
        assert(mv.take(0) =~= Seq::<MetaView>::empty());
        assert(metas_view(r@) =~= Seq::<MetaView>::empty());
    }
    while i < metas.len()
        invariant
            i <= metas@.len(),
            mv == metas_view(metas@),
            pred == (|m: MetaView| !strs_set(refs@).contains(m.presence_ref)),
            metas_view(r@) == mv.take(i as int).filter(pred),
        decreases metas@.len() - i,
    {
        let ghost old_r = r@;
        let listed = contains_str(refs, metas[i].presence_ref.as_str());
        if !listed {
            r.push(clone_meta(&metas[i]));
            proof {
                assert(metas_view(r@) =~= metas_view(old_r).push(mv[i as int]));
            }
        }
        proof {
            assert(mv.take(i + 1) =~= mv.take(i as int).push(mv[i as int]));
            mv.take(i as int).lemma_filter_push(mv[i as int], pred);
        }
        i = i + 1;
    }
    assert(mv.take(metas@.len() as int) =~= mv);
    r
}

/// For each key of `to`, its entries whose reference is not listed in `refs`;
/// keys left with no entry are dropped.
fn entries_not_listed(refs: &Vec<String>, to: &PresenceState) -> (r: PresenceState)
    requires
        state_wf(to@),
    ensures
        state_wf(r@),
        state_map(r@) == kept_entries(strs_set(refs@), state_map(to@)),
{
    let ghost ev = entries_view(to@);
    let ghost refs_set = strs_set(refs@);
    let mut r: PresenceState = Vec::new();
    let mut i: usize = 0;
    proof {
        assert(entries_view(r@) =~= Seq::empty());
        assert(ev.take(0) =~= Seq::empty());
        assert(state_map(r@) =~= kept_entries(refs_set, assoc_map(ev.take(0))));
    }
    while i < to.len()
        invariant
            i <= to@.len(),
            ev == entries_view(to@),
            refs_set == strs_set(refs@),
            keys_unique(ev),
            state_wf(r@),
            state_map(r@) == kept_entries(refs_set, assoc_map(ev.take(i as int))),
        decreases to@.len() - i,
    {
        let kept = keep_unlisted(&to[i].1, refs);
        let ghost k = ev[i as int].0;
        let ghost v = ev[i as int].1;
        let ghost m = assoc_map(ev.take(i as int));
        proof {
            assert(ev.take(i + 1).drop_last() =~= ev.take(i as int));
            assert(keys_unique(ev.take(i as int)));
            crate::assoc::lemma_assoc_dom(ev.take(i as int));
            assert(!m.contains_key(k)) by {
                if m.contains_key(k) {
                    let a = choose|a: int| 0 <= a < ev.take(i as int).len() && ev.take(i as int)[a].0 == k;
                    assert(ev[a].0 == k);
                }
            }
        }
        if kept.len() > 0 {
            let key = to[i].0.clone();
            state_insert(&mut r, key, kept);
            proof {
                assert(kept_entries(refs_set, m.insert(k, v)) =~= kept_entries(refs_set, m).insert(
                    k,
                    without(v, refs_set),
                ));
            }
        } else {
            proof {
                assert(kept_entries(refs_set, m.insert(k, v)) =~= kept_entries(refs_set, m));
            }
        }
        i = i + 1;
    }
    assert(ev.take(to@.len() as int) =~= ev);
    r
}

/// The state after the joins of a diff: for each joined key, its current
/// entries without those whose reference rejoins, then the joined entries.
pub open spec fn after_joins(
    m: Map<Seq<char>, Seq<MetaView>>,
    j: Map<Seq<char>, Seq<MetaView>>,
) -> Map<Seq<char>, Seq<MetaView>> {
    Map::new(
        |k: Seq<char>| m.contains_key(k) || j.contains_key(k),
        |k: Seq<char>|
            if j.contains_key(k) {
                without(
                    if m.contains_key(k) {
                        m[k]
                    } else {
                        Seq::empty()
                    },
                    seq_refs(j[k]),
                ) + j[k]
            } else {
                m[k]
            },
    )
}

/// The state after the leaves of a diff: for each key that leaves and is
/// present, its entries without those whose reference leaves; a key left
/// with no entry is removed.
pub open spec fn after_leaves(
    m: Map<Seq<char>, Seq<MetaView>>,
    l: Map<Seq<char>, Seq<MetaView>>,
) -> Map<Seq<char>, Seq<MetaView>> {
    Map::new(
        |k: Seq<char>|
            m.contains_key(k) && (!l.contains_key(k) || without(m[k], seq_refs(l[k])).len() > 0),
        |k: Seq<char>|
            if l.contains_key(k) {
                without(m[k], seq_refs(l[k]))
            } else {
                m[k]
            },
    )
}

/// The state after a diff: joins first, then leaves.
pub open spec fn apply_diff(
    m: Map<Seq<char>, Seq<MetaView>>,
    j: Map<Seq<char>, Seq<MetaView>>,
    l: Map<Seq<char>, Seq<MetaView>>,
) -> Map<Seq<char>, Seq<MetaView>> {
    after_leaves(after_joins(m, j), l)
}

/// The state after a list of raw diffs, applied in order.
pub open spec fn apply_diffs(m: Map<Seq<char>, Seq<MetaView>>, ds: Seq<RawPresenceDiff>) -> Map<
    Seq<char>,
    Seq<MetaView>,
>
    decreases ds.len(),
{
    if ds.len() == 0 {
        m
    } else {
        apply_diff(
            apply_diffs(m, ds.drop_last()),
            raw_state_map(ds.last().joins@),
            raw_state_map(ds.last().leaves@),
        )
    }
}

/// The references of a list of entries.
fn metas_refs(metas: &Vec<PresenceMeta>) -> (r: Vec<String>)
    ensures
        strs_set(r@) == seq_refs(metas_view(metas@)),
{
    let ghost mv = metas_view(metas@);
    let mut r: Vec<String> = Vec::new();
    let mut i: usize = 0;
    while i < metas.len()
        invariant
            i <= metas@.len(),
            mv == metas_view(metas@),
            r@.len() == i,
            forall|j: int| 0 <= j < i ==> #[trigger] r@[j]@ == mv[j].presence_ref,
        decreases metas@.len() - i,
    {
        r.push(metas[i].presence_ref.clone());
        i = i + 1;
    }
    assert forall|y: Seq<char>| strs_set(r@).contains(y) <==> seq_refs(mv).contains(y) by {
        if strs_set(r@).contains(y) {
            let a = choose|a: int| 0 <= a < r@.len() && r@[a]@ == y;
            assert(mv[a].presence_ref == y);
        }
        if seq_refs(mv).contains(y) {
            let a = choose|a: int| 0 <= a < mv.len() && mv[a].presence_ref == y;
            assert(r@[a]@ == y);
        }
    }
    assert(strs_set(r@) =~= seq_refs(mv));
    r
}

/// Appends copies of `add` to `cur`.
fn extend_metas(cur: &mut Vec<PresenceMeta>, add: &Vec<PresenceMeta>)
    ensures
        metas_view(final(cur)@) == metas_view(old(cur)@) + metas_view(add@),
{
    let ghost start = metas_view(cur@);
    let mut i: usize = 0;
    assert(metas_view(cur@) =~= start + metas_view(add@).take(0));
    while i < add.len()
        invariant
            i <= add@.len(),
            metas_view(cur@) == start + metas_view(add@).take(i as int),
        decreases add@.len() - i,
    {
        let ghost before = cur@;
        cur.push(clone_meta(&add[i]));
        proof {
            assert(metas_view(cur@) =~= metas_view(before).push(add@[i as int]@));
            assert(metas_view(cur@) =~= start + metas_view(add@).take(i + 1));
        }
        i = i + 1;
    }
    assert(metas_view(add@).take(add@.len() as int) =~= metas_view(add@));
}

/// Facts about a state at a key: where `find_key` found it, or that it is absent.
proof fn lemma_state_at(s: Seq<(String, Vec<PresenceMeta>)>, k: Seq<char>, found: Option<usize>)
    requires
        state_wf(s),
        match found {
            Some(i) => i < s.len() && s[i as int].0@ == k,
            None => forall|i: int| 0 <= i < s.len() ==> s[i].0@ != k,
        },
    ensures
        match found {
            Some(i) => state_map(s).contains_key(k) && state_map(s)[k] == metas_view(s[i as int].1@)
                && entries_view(s)[i as int].0 == k,
            None => !state_map(s).contains_key(k) && !has_key(entries_view(s), k),
        },
{
    let ev = entries_view(s);
    lemma_assoc(ev);
    match found {
        Some(i) => {
            assert(ev[i as int] == (s[i as int].0@, metas_view(s[i as int].1@)));
            assert(assoc_map(ev).contains_key(ev[i as int].0));
        },
        None => {
            if has_key(ev, k) {
                let a = choose|a: int| 0 <= a < ev.len() && ev[a].0 == k;
                assert(s[a].0@ == k);
            }
        },
    }
}

/// The mathematical value of a `Presence`.
pub struct PresenceView {
    pub state: Map<Seq<char>, Seq<MetaView>>,
    pub pending_diffs: Seq<RawPresenceDiff>,
    pub join_ref: Option<Seq<char>>,
}

impl View for Presence {
    type V = PresenceView;

    closed spec fn view(&self) -> PresenceView {
        PresenceView {
            state: state_map(self.state@),
            pending_diffs: self.pending_diffs@,
            join_ref: match self.join_ref {
                Some(r) => Some(r@),
                None => None,
            },
        }
    }
}

impl Presence {
    /// The presence's own invariant: its state has distinct keys.
    pub closed spec fn wf(&self) -> bool {
        state_wf(self.state@)
    }

    /// An empty presence, not yet synchronised.
    pub fn new() -> (r: Presence)
        ensures
            r.wf(),
            r@.state == Map::<Seq<char>, Seq<MetaView>>::empty(),
            r@.pending_diffs == Seq::<RawPresenceDiff>::empty(),
            r@.join_ref is None,
    {
        let r = Presence { state: Vec::new(), pending_diffs: Vec::new(), join_ref: None };
        assert(entries_view(r.state@) =~= Seq::empty());
        assert(state_map(r.state@) =~= Map::empty());
        r
    }

    /// The current presence state.
    pub fn state(&self) -> (r: &PresenceState)
        requires
            self.wf(),
        ensures
            state_wf(r@),
            state_map(r@) == self@.state,
    {
        &self.state
    }

    /// A copy of the current presence state, one pair per key.
    pub fn list(&self) -> (r: PresenceState)
        requires
            self.wf(),
        ensures
            state_wf(r@),
            state_map(r@) == self@.state,
    {
        let mut r: PresenceState = Vec::new();
        let mut i: usize = 0;
        assert(entries_view(r@) =~= entries_view(self.state@).take(0));
        while i < self.state.len()
            invariant
                i <= self.state@.len(),
                entries_view(r@) == entries_view(self.state@).take(i as int),
            decreases self.state@.len() - i,
        {
            let key = self.state[i].0.clone();
            let metas = clone_metas(&self.state[i].1);
            proof {
                lemma_entries_view_push(r@, (key, metas));
            }
            r.push((key, metas));
            proof {
                assert(entries_view(r@) =~= entries_view(self.state@).take(i + 1));
            }
            i = i + 1;
        }
        assert(entries_view(self.state@).take(self.state@.len() as int) =~= entries_view(self.state@));
        r
    }

    /// Whether a message with the server's join reference `server_join_ref`
    /// arrives before this presence was synchronised for the current join:
    /// true unless both references are known and equal.
    pub fn in_pending_sync_state(&self, server_join_ref: Option<&str>) -> (r: bool)
        ensures
            r == pending_sync(
                self@.join_ref,
                match server_join_ref {
                    Some(s) => Some(s@),
                    None => None,
                },
            ),
    {
        match (&self.join_ref, server_join_ref) {
            (None, _) => true,
            (Some(client_join_ref), Some(server_join_ref)) => !str_eq(
                server_join_ref,
                client_join_ref.as_str(),
            ),
            (Some(_), None) => true,
        }
    }

    /// Queues a diff until the presence is synchronised.
    pub fn add_pending_diff(&mut self, diff: RawPresenceDiff)
        requires
            old(self).wf(),
        ensures
            final(self).wf(),
            final(self)@.state == old(self)@.state,
            final(self)@.join_ref == old(self)@.join_ref,
            final(self)@.pending_diffs == old(self)@.pending_diffs.push(diff),
    {
        self.pending_diffs.push(diff);
    }

    /// Replaces the state by a full state from the server, and reports which
    /// entries joined (present now, reference unknown before) and which left
    /// (present before, reference unknown now).
    pub fn sync_state(&mut self, new_state: RawPresenceState, join_ref: String) -> (r: PresenceChanges)
        requires
            old(self).wf(),
        ensures
            final(self).wf(),
            final(self)@.state == raw_state_map(new_state@),
            final(self)@.join_ref == Some(join_ref@),
            final(self)@.pending_diffs == old(self)@.pending_diffs,
            state_wf(r.joins@),
            state_wf(r.leaves@),
            state_map(r.joins@) == changes_between(old(self)@.state, raw_state_map(new_state@)),
            state_map(r.leaves@) == changes_between(raw_state_map(new_state@), old(self)@.state),
    {
        let new_state = transform_state(new_state);
        let new_refs = collect_refs(&new_state);
        let current_refs = collect_refs(&self.state);
        let joins = entries_not_listed(&current_refs, &new_state);
        let leaves = entries_not_listed(&new_refs, &self.state);
        self.state = new_state;
        self.join_ref = Some(join_ref);
        PresenceChanges { joins, leaves }
    }

    /// Applies a diff from the server: joined entries replace the entries of
    /// the same reference under their key, then leaving entries are removed,
    /// and a key left with no entry is removed. Reports the joins and leaves
    /// of the diff.
    pub fn sync_diff(&mut self, diff: RawPresenceDiff) -> (r: PresenceChanges)
        requires
            old(self).wf(),
        ensures
            final(self).wf(),
            final(self)@.state == apply_diff(
                old(self)@.state,
                raw_state_map(diff.joins@),
                raw_state_map(diff.leaves@),
            ),
            final(self)@.join_ref == old(self)@.join_ref,
            final(self)@.pending_diffs == old(self)@.pending_diffs,
            state_wf(r.joins@),
            state_wf(r.leaves@),
            state_map(r.joins@) == raw_state_map(diff.joins@),
            state_map(r.leaves@) == raw_state_map(diff.leaves@),
    {
        let ghost m0 = state_map(self.state@);
        let joins = transform_state(diff.joins);
        let leaves = transform_state(diff.leaves);
        let ghost jv = entries_view(joins@);
        let ghost lv = entries_view(leaves@);
        let mut i: usize = 0;
        proof {
            assert(jv.take(0) =~= Seq::empty());
            assert(after_joins(m0, assoc_map(jv.take(0))) =~= m0);
        }
        while i < joins.len()
            invariant
                i <= joins@.len(),
                jv == entries_view(joins@),
                keys_unique(jv),
                state_wf(self.state@),
                state_map(self.state@) == after_joins(m0, assoc_map(jv.take(i as int))),
                self.join_ref == old(self).join_ref,
                self.pending_diffs == old(self).pending_diffs,
            decreases joins@.len() - i,
        {
            let ghost mj = assoc_map(jv.take(i as int));
            let ghost k = jv[i as int].0;
            let ghost v = jv[i as int].1;
            proof {
                assert(jv.take(i + 1).drop_last() =~= jv.take(i as int));
                assert(keys_unique(jv.take(i as int)));
                crate::assoc::lemma_assoc_dom(jv.take(i as int));
                assert(!mj.contains_key(k)) by {
                    if mj.contains_key(k) {
                        let a = choose|a: int|
                            0 <= a < jv.take(i as int).len() && jv.take(i as int)[a].0 == k;
                        assert(jv[a].0 == k);
                    }
                }
            }
            let refs = metas_refs(&joins[i].1);
            let found = crate::assoc::find_key(&self.state, joins[i].0.as_str());
            proof {
                lemma_state_at(self.state@, k, found);
            }
            let mut cur = match found {
                Some(x) => keep_unlisted(&self.state[x].1, &refs),
                None => Vec::new(),
            };
            proof {
                if found is None {
                    reveal(Seq::filter);
                    assert(metas_view(cur@) =~= without(Seq::empty(), seq_refs(v)));
                }
            }
            extend_metas(&mut cur, &joins[i].1);
            let key = joins[i].0.clone();
            state_insert(&mut self.state, key, cur);
            proof {
                let before = after_joins(m0, mj);
                assert(before.contains_key(k) == m0.contains_key(k));
                assert(after_joins(m0, mj.insert(k, v)) =~= before.insert(
                    k,
                    without(
                        if m0.contains_key(k) {
                            m0[k]
                        } else {
                            Seq::empty()
                        },
                        seq_refs(v),
                    ) + v,
                ));
            }
            i = i + 1;
        }
        assert(jv.take(joins@.len() as int) =~= jv);
        let ghost m1 = state_map(self.state@);
        let mut i: usize = 0;
        proof {
            assert(lv.take(0) =~= Seq::empty());
            assert(after_leaves(m1, assoc_map(lv.take(0))) =~= m1);
        }
        while i < leaves.len()
            invariant
                i <= leaves@.len(),
                lv == entries_view(leaves@),
                keys_unique(lv),
                state_wf(self.state@),
                state_map(self.state@) == after_leaves(m1, assoc_map(lv.take(i as int))),
                self.join_ref == old(self).join_ref,
                self.pending_diffs == old(self).pending_diffs,
            decreases leaves@.len() - i,
        {
            let ghost ml = assoc_map(lv.take(i as int));
            let ghost k = lv[i as int].0;
            let ghost v = lv[i as int].1;
            proof {
                assert(lv.take(i + 1).drop_last() =~= lv.take(i as int));
                assert(keys_unique(lv.take(i as int)));
                crate::assoc::lemma_assoc_dom(lv.take(i as int));
                assert(!ml.contains_key(k)) by {
                    if ml.contains_key(k) {
                        let a = choose|a: int|
                            0 <= a < lv.take(i as int).len() && lv.take(i as int)[a].0 == k;
                        assert(lv[a].0 == k);
                    }
                }
            }
            let found = crate::assoc::find_key(&self.state, leaves[i].0.as_str());
            proof {
                lemma_state_at(self.state@, k, found);
            }
            let ghost before = after_leaves(m1, ml);
            match found {
                Some(x) => {
                    let refs = metas_refs(&leaves[i].1);
                    let cur = keep_unlisted(&self.state[x].1, &refs);
                    if cur.len() == 0 {
                        proof {
                            lemma_entries_view_remove(self.state@, x as int);
                            lemma_assoc_remove(entries_view(self.state@), x as int);
                        }
                        self.state.remove(x);
                        proof {
                            assert(after_leaves(m1, ml.insert(k, v)) =~= before.remove(k));
                        }
                    } else {
                        let key = leaves[i].0.clone();
                        state_insert(&mut self.state, key, cur);
                        proof {
                            assert(after_leaves(m1, ml.insert(k, v)) =~= before.insert(
                                k,
                                without(m1[k], seq_refs(v)),
                            ));
                        }
                    }
                },
                None => {
                    proof {
                        assert(after_leaves(m1, ml.insert(k, v)) =~= before);
                    }
                },
            }
            i = i + 1;
        }
        assert(lv.take(leaves@.len() as int) =~= lv);
        PresenceChanges { joins, leaves }
    }

    /// Applies the queued diffs in order and empties the queue; reports the
    /// changes of each diff.
    pub fn flush_pending_diffs(&mut self) -> (r: Vec<PresenceChanges>)
        requires
            old(self).wf(),
        ensures
            final(self).wf(),
            final(self)@.state == apply_diffs(old(self)@.state, old(self)@.pending_diffs),
            final(self)@.pending_diffs == Seq::<RawPresenceDiff>::empty(),
            final(self)@.join_ref == old(self)@.join_ref,
            r@.len() == old(self)@.pending_diffs.len(),
            forall|j: int|
                0 <= j < r@.len() ==> state_map(#[trigger] r@[j].joins@) == raw_state_map(
                    old(self)@.pending_diffs[j].joins@,
                ) && state_map(r@[j].leaves@) == raw_state_map(old(self)@.pending_diffs[j].leaves@),
    {
        let mut diffs: Vec<RawPresenceDiff> = Vec::new();
        std::mem::swap(&mut diffs, &mut self.pending_diffs);
        let ghost orig = diffs@;
        let ghost m0 = state_map(self.state@);
        let mut out: Vec<PresenceChanges> = Vec::new();
        let ghost mut i: int = 0;
        proof {
            assert(orig.skip(0) =~= orig);
            assert(orig.take(0) =~= Seq::<RawPresenceDiff>::empty());
        }
        while diffs.len() > 0
            invariant
                0 <= i <= orig.len(),
                diffs@ == orig.skip(i),
                out@.len() == i,
                self.wf(),
                self.pending_diffs@ == Seq::<RawPresenceDiff>::empty(),
                state_map(self.state@) == apply_diffs(m0, orig.take(i)),
                self@.join_ref == old(self)@.join_ref,
                forall|j: int|
                    0 <= j < i ==> state_map(#[trigger] out@[j].joins@) == raw_state_map(
                        orig[j].joins@,
                    ) && state_map(out@[j].leaves@) == raw_state_map(orig[j].leaves@),
            decreases diffs@.len(),
        {
            let d = diffs.remove(0);
            proof {
                assert(d == orig[i]);
                assert(orig.take(i + 1).drop_last() =~= orig.take(i));
            }
            let c = self.sync_diff(d);
            out.push(c);
            proof {
                assert(diffs@ =~= orig.skip(i + 1));
                i = i + 1;
            }
        }
        proof {
            assert(orig.take(i) =~= orig);
        }
        out
    }
    /// The diffs queued until the next synchronisation.
    pub fn pending_diffs(&self) -> (r: &Vec<RawPresenceDiff>)
        ensures
            r@ == self@.pending_diffs,
    {
        &self.pending_diffs
    }

}

/// The pending-sync test on the two join references.
pub open spec fn pending_sync(client: Option<Seq<char>>, server: Option<Seq<char>>) -> bool {
    match (client, server) {
        (Some(c), Some(s)) => s != c,
        _ => true,
    }
}


/// Filtering out every entry leaves nothing.
proof fn lemma_without_all(metas: Seq<MetaView>, refs: Set<Seq<char>>)
    requires
        forall|j: int| 0 <= j < metas.len() ==> refs.contains(#[trigger] metas[j].presence_ref),
    ensures
        without(metas, refs).len() == 0,
    decreases metas.len(),
{
    reveal(Seq::filter);
    if metas.len() > 0 {
        lemma_without_all(metas.drop_last(), refs);
        assert(refs.contains(metas[metas.len() - 1].presence_ref));
    }
}

/// An entry kept by the filter is in its result.
proof fn lemma_without_keeps(metas: Seq<MetaView>, refs: Set<Seq<char>>, j: int)
    requires
        0 <= j < metas.len(),
        !refs.contains(metas[j].presence_ref),
    ensures
        without(metas, refs).contains(metas[j]),
{
    broadcast use Seq::lemma_filter_contains;

    let pred = |m: MetaView| !refs.contains(m.presence_ref);
    assert(pred(metas[j]));
}

/// No entry of the result has a filtered reference.
proof fn lemma_without_drops(metas: Seq<MetaView>, refs: Set<Seq<char>>, j: int)
    requires
        0 <= j < without(metas, refs).len(),
    ensures
        !refs.contains(without(metas, refs)[j].presence_ref),
{
    broadcast use Seq::lemma_filter_pred;

    let pred = |m: MetaView| !refs.contains(m.presence_ref);
    assert(pred(metas.filter(pred)[j]));
}

/// Synchronising to the state the presence already has reports no change:
/// nothing joins and nothing leaves.
pub proof fn lemma_resync_reports_nothing(m: Map<Seq<char>, Seq<MetaView>>)
    ensures
        changes_between(m, m) == Map::<Seq<char>, Seq<MetaView>>::empty(),
{
    assert forall|k: Seq<char>| m.contains_key(k) implies without(m[k], map_refs(m)).len() == 0 by {
        assert forall|j: int| 0 <= j < m[k].len() implies map_refs(m).contains(
            #[trigger] m[k][j].presence_ref,
        ) by {
            assert(has_ref(m[k], m[k][j].presence_ref));
        }
        lemma_without_all(m[k], map_refs(m));
    }
    assert(changes_between(m, m) =~= Map::<Seq<char>, Seq<MetaView>>::empty());
}

/// A key that is absent, joins and leaves with the same entries in one diff
/// leaves the state as it was.
pub proof fn lemma_join_then_leave_restores(
    m: Map<Seq<char>, Seq<MetaView>>,
    k: Seq<char>,
    v: Seq<MetaView>,
)
    requires
        !m.contains_key(k),
    ensures
        apply_diff(m, map![k => v], map![k => v]) == m,
{
    reveal(Seq::filter);
    let j = map![k => v];
    let mj = after_joins(m, j);
    assert(without(Seq::<MetaView>::empty(), seq_refs(v)) =~= Seq::<MetaView>::empty());
    assert(mj[k] =~= v);
    assert forall|i: int| 0 <= i < v.len() implies seq_refs(v).contains(#[trigger] v[i].presence_ref) by {
        assert(has_ref(v, v[i].presence_ref));
    }
    lemma_without_all(v, seq_refs(v));
    assert(apply_diff(m, j, j) =~= m);
}

/// After a diff, every joined entry whose reference does not also leave
/// under its key is present under its key.
pub proof fn lemma_diff_keeps_joined(
    m: Map<Seq<char>, Seq<MetaView>>,
    j: Map<Seq<char>, Seq<MetaView>>,
    l: Map<Seq<char>, Seq<MetaView>>,
    k: Seq<char>,
    i: int,
)
    requires
        j.contains_key(k),
        0 <= i < j[k].len(),
        !(l.contains_key(k) && seq_refs(l[k]).contains(j[k][i].presence_ref)),
    ensures
        apply_diff(m, j, l).contains_key(k),
        apply_diff(m, j, l)[k].contains(j[k][i]),
{
    let mj = after_joins(m, j);
    let base = without(
        if m.contains_key(k) {
            m[k]
        } else {
            Seq::empty()
        },
        seq_refs(j[k]),
    );
    assert(mj[k] == base + j[k]);
    assert(mj[k][base.len() + i] == j[k][i]);
    if l.contains_key(k) {
        lemma_without_keeps(mj[k], seq_refs(l[k]), base.len() + i);
    } else {
        assert(mj[k].contains(j[k][i]));
    }
}

/// After a diff, no entry under a leaving key has a reference that leaves
/// under that key.
pub proof fn lemma_diff_drops_left(
    m: Map<Seq<char>, Seq<MetaView>>,
    j: Map<Seq<char>, Seq<MetaView>>,
    l: Map<Seq<char>, Seq<MetaView>>,
    k: Seq<char>,
    i: int,
)
    requires
        l.contains_key(k),
        apply_diff(m, j, l).contains_key(k),
        0 <= i < apply_diff(m, j, l)[k].len(),
    ensures
        !seq_refs(l[k]).contains(apply_diff(m, j, l)[k][i].presence_ref),
{
    lemma_without_drops(after_joins(m, j)[k], seq_refs(l[k]), i);
}

/// A diff touches only the references it lists: an entry present under a
/// key stays present under that key when no entry with its reference joins
/// or leaves under that key (a leave removes only the listed references,
/// and the key stays while it has entries).
pub proof fn lemma_diff_keeps_untouched(
    m: Map<Seq<char>, Seq<MetaView>>,
    j: Map<Seq<char>, Seq<MetaView>>,
    l: Map<Seq<char>, Seq<MetaView>>,
    k: Seq<char>,
    i: int,
)
    requires
        m.contains_key(k),
        0 <= i < m[k].len(),
        j.contains_key(k) ==> forall|x: int| 0 <= x < j[k].len() ==> j[k][x].presence_ref != m[k][i].presence_ref,
        l.contains_key(k) ==> forall|x: int| 0 <= x < l[k].len() ==> l[k][x].presence_ref != m[k][i].presence_ref,
    ensures
        apply_diff(m, j, l).contains_key(k),
        apply_diff(m, j, l)[k].contains(m[k][i]),
{
    let e = m[k][i];
    let mj = after_joins(m, j);
    assert(mj.contains_key(k));
    assert(mj[k].contains(e)) by {
        if j.contains_key(k) {
            assert(!seq_refs(j[k]).contains(e.presence_ref)) by {
                if has_ref(j[k], e.presence_ref) {
                    let x = choose|x: int| 0 <= x < j[k].len() && j[k][x].presence_ref == e.presence_ref;
                }
            }
            lemma_without_keeps(m[k], seq_refs(j[k]), i);
            let w = without(m[k], seq_refs(j[k]));
            let y = choose|y: int| 0 <= y < w.len() && w[y] == e;
            assert(mj[k] == w + j[k]);
            assert(mj[k][y] == e);
        } else {
            assert(mj[k] == m[k]);
            assert(mj[k][i] == e);
        }
    }
    let y = choose|y: int| 0 <= y < mj[k].len() && mj[k][y] == e;
    if l.contains_key(k) {
        assert(!seq_refs(l[k]).contains(e.presence_ref)) by {
            if has_ref(l[k], e.presence_ref) {
                let x = choose|x: int| 0 <= x < l[k].len() && l[k][x].presence_ref == e.presence_ref;
            }
        }
        lemma_without_keeps(mj[k], seq_refs(l[k]), y);
        assert(without(mj[k], seq_refs(l[k])).len() > 0);
    }
}

/// A diff leaves alone the keys it does not mention.
pub proof fn lemma_diff_leaves_other_keys(
    m: Map<Seq<char>, Seq<MetaView>>,
    j: Map<Seq<char>, Seq<MetaView>>,
    l: Map<Seq<char>, Seq<MetaView>>,
    k: Seq<char>,
)
    requires
        !j.contains_key(k),
        !l.contains_key(k),
    ensures
        apply_diff(m, j, l).contains_key(k) == m.contains_key(k),
        m.contains_key(k) ==> apply_diff(m, j, l)[k] == m[k],
{
}

/// A diff invents nothing: every entry present after it under a key was
/// present before under that key or joined under it.
pub proof fn lemma_diff_invents_nothing(
    m: Map<Seq<char>, Seq<MetaView>>,
    j: Map<Seq<char>, Seq<MetaView>>,
    l: Map<Seq<char>, Seq<MetaView>>,
    k: Seq<char>,
    x: int,
)
    requires
        apply_diff(m, j, l).contains_key(k),
        0 <= x < apply_diff(m, j, l)[k].len(),
    ensures
        (m.contains_key(k) && m[k].contains(apply_diff(m, j, l)[k][x])) || (j.contains_key(k)
            && j[k].contains(apply_diff(m, j, l)[k][x])),
{
    broadcast use Seq::lemma_filter_contains_rev;

    let r = apply_diff(m, j, l);
    let e = r[k][x];
    let mj = after_joins(m, j);
    assert(r[k].contains(e));
    assert(mj[k].contains(e)) by {
        if l.contains_key(k) {
            assert(without(mj[k], seq_refs(l[k])).contains(e));
        }
    }
    let y = choose|y: int| 0 <= y < mj[k].len() && mj[k][y] == e;
    if j.contains_key(k) {
        let base = if m.contains_key(k) {
            m[k]
        } else {
            Seq::empty()
        };
        let w = without(base, seq_refs(j[k]));
        assert(mj[k] == w + j[k]);
        if y < w.len() {
            assert(w.contains(e));
            assert(base.contains(e));
        } else {
            assert(j[k][y - w.len()] == e);
        }
    } else {
        assert(mj[k] == m[k]);
    }
}

/// A presence is synchronised for a server join reference exactly when it
/// was last synchronised with that same reference.
pub proof fn lemma_synced_only_for_own_join_ref(client: Seq<char>, server: Seq<char>)
    ensures
        !pending_sync(Some(client), Some(server)) <==> client == server,
        pending_sync(None, Some(server)),
        pending_sync(Some(client), None),
{
}

impl Default for Presence {
    /// An empty presence, not yet synchronised.
    fn default() -> (r: Presence)
        ensures
            r.wf(),
            r@.state == Map::<Seq<char>, Seq<MetaView>>::empty(),
            r@.pending_diffs == Seq::<RawPresenceDiff>::empty(),
            r@.join_ref is None,
    {
        Presence::new()
    }
}

} // verus!
