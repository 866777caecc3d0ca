//! Client configuration, the client's shared state (message references,
//! pending heartbeat, channel registry, manual-disconnect flag), and the
//! endpoint URLs.

use vstd::prelude::*;
use crate::error::RealtimeError;
use crate::message::opt_view;
use crate::refs::{decimal, decimal_string};
use crate::text::{owned, str_eq};

verus! {

/// Configuration options of a client.
#[derive(Debug, Clone)]
pub struct RealtimeClientOptions {
    pub api_key: String,
    pub timeout: Option<u64>,
    pub heartbeat_interval: Option<u64>,
    pub access_token: Option<String>,
}

impl Default for RealtimeClientOptions {
    fn default() -> (r: RealtimeClientOptions)
        ensures
            r.api_key@ == Seq::<char>::empty(),
            r.timeout is None,
            r.heartbeat_interval is None,
            r.access_token is None,
    {
        RealtimeClientOptions {
            api_key: String::new(),
            timeout: None,
            heartbeat_interval: None,
            access_token: None,
        }
    }
}

/// Builder for a client: an endpoint and options that passed validation.
pub struct RealtimeClientBuilder {
    endpoint: String,
    options: RealtimeClientOptions,
}

pub open spec fn api_key_required() -> Seq<char> {
    "API key is required"@
}

impl RealtimeClientBuilder {
    /// The endpoint and options held.
    pub closed spec fn parts(&self) -> (String, RealtimeClientOptions) {
        (self.endpoint, self.options)
    }

    /// A builder for `endpoint` with `options`; an empty API key is refused
    /// with an authentication error, and then an endpoint that is no URL
    /// with a URL parse error.
    pub fn new(endpoint: String, options: RealtimeClientOptions) -> (r: Result<RealtimeClientBuilder, RealtimeError>)
        ensures
            r is Err <==> (options.api_key@.len() == 0 || !url_accepts(endpoint@)),
            options.api_key@.len() == 0 ==> (r matches Err(e) && e is Auth && e->Auth_0@ == api_key_required()),
            options.api_key@.len() > 0 && !url_accepts(endpoint@) ==> (r matches Err(e) && e is UrlParse),
            r matches Ok(b) ==> b.parts() == (endpoint, options),
    {
        if options.api_key.as_str().unicode_len() == 0 {
            return Err(RealtimeError::Auth(owned("API key is required")));
        }
        match build_endpoint_url(endpoint.as_str(), options.api_key.as_str()) {
            Err(e) => Err(e),
            Ok(_) => Ok(RealtimeClientBuilder { endpoint, options }),
        }
    }

    /// The endpoint and options, to build the client from.
    pub fn into_parts(self) -> (r: (String, RealtimeClientOptions))
        ensures
            r == self.parts(),
    {
        (self.endpoint, self.options)
    }
}

impl RealtimeClientOptions {
    /// The API key.
    pub fn api_key(&self) -> (r: &str)
        ensures
            r@ == self.api_key@,
    {
        self.api_key.as_str()
    }

    /// The access token, if any.
    pub fn access_token(&self) -> (r: Option<&str>)
        ensures
            match r {
                Some(t) => opt_view(self.access_token) == Some(t@),
                None => self.access_token is None,
            },
    {
        match &self.access_token {
            Some(t) => Some(t.as_str()),
            None => None,
        }
    }

    /// The heartbeat interval in milliseconds: the configured one, else 25 seconds.
    pub fn heartbeat_interval_ms(&self) -> (r: u64)
        ensures
            r == match self.heartbeat_interval {
                Some(i) => i,
                None => 25000u64,
            },
    {
        match self.heartbeat_interval {
            Some(i) => i,
            None => 25000,
        }
    }
}

/// The client's mutable state; `C` is the handle of a channel.
pub struct ClientState<C> {
    /// Current ref counter for message references
    pub ref_counter: u64,
    /// Pending heartbeat reference (if any)
    pub pending_heartbeat_ref: Option<String>,
    /// All channels of this client, with their topics, in creation order
    pub channels: Vec<(String, C)>,
    /// Whether the disconnect was manual (prevents auto-reconnect)
    pub was_manual_disconnect: bool,
}

/// The topics of a channel registry.
pub open spec fn topics<C>(v: Seq<(String, C)>) -> Seq<Seq<char>> {
    v.map_values(|p: (String, C)| p.0@)
}

/// No two entries of a channel registry share a topic.
pub open spec fn topics_distinct<C>(v: Seq<(String, C)>) -> bool {
    forall|i: int, j: int| 0 <= i < j < v.len() ==> v[i].0@ != v[j].0@
}

/// The topic under which a channel named `topic` is registered.
pub open spec fn full_topic_of(topic: Seq<char>) -> Seq<char> {
    "realtime:"@ + topic
}

/// The topic under which a channel named `topic` is registered:
/// `realtime:<topic>`.
pub fn full_topic(topic: &str) -> (r: String)
    ensures
        r@ == full_topic_of(topic@),
{
    let mut r = owned("realtime:");
    r.append(topic);
    r
}

impl<C> ClientState<C> {
    /// The registry's invariant: no two channels share a topic.
    pub open spec fn wf(&self) -> bool {
        topics_distinct(self.channels@)
    }

    /// A fresh state: counter at zero, nothing pending, no channel.
    pub fn new() -> (r: ClientState<C>)
        ensures
            r.wf(),
            r.ref_counter == 0,
            r.pending_heartbeat_ref is None,
            r.channels@ == Seq::<(String, C)>::empty(),
            !r.was_manual_disconnect,
    {
        ClientState {
            ref_counter: 0,
            pending_heartbeat_ref: None,
            channels: Vec::new(),
            was_manual_disconnect: false,
        }
    }

    /// The next message reference: the counter, incremented, as a decimal
    /// numeral.
    pub fn make_ref(&mut self) -> (r: String)
        requires
            old(self).ref_counter < u64::MAX,
        ensures
            final(self).ref_counter == old(self).ref_counter + 1,
            r@ == decimal(final(self).ref_counter as nat),
            final(self).pending_heartbeat_ref == old(self).pending_heartbeat_ref,
            final(self).channels == old(self).channels,
            final(self).was_manual_disconnect == old(self).was_manual_disconnect,
    {
        self.ref_counter = self.ref_counter + 1;
        decimal_string(self.ref_counter)
    }

    /// The position of the first channel registered under `topic`, if any.
    pub fn find_channel(&self, topic: &str) -> (r: Option<usize>)
        ensures
            match r {
                Some(i) => i < self.channels@.len() && self.channels@[i as int].0@ == topic@
                    && forall|j: int| 0 <= j < i ==> self.channels@[j].0@ != topic@,
                None => forall|j: int| 0 <= j < self.channels@.len() ==> self.channels@[j].0@ != topic@,
            },
    {
        crate::assoc::find_key(&self.channels, topic)
    }

    /// Registers a channel under `topic`, which no registered channel has.
    pub fn add_channel(&mut self, topic: String, channel: C)
        requires
            forall|j: int| 0 <= j < old(self).channels@.len() ==> old(self).channels@[j].0@ != topic@,
        ensures
            old(self).wf() ==> final(self).wf(),
            final(self).channels@ == old(self).channels@.push((topic, channel)),
            final(self).ref_counter == old(self).ref_counter,
            final(self).pending_heartbeat_ref == old(self).pending_heartbeat_ref,
            final(self).was_manual_disconnect == old(self).was_manual_disconnect,
    {
        self.channels.push((topic, channel));
    }

    /// The channel registered under `topic`: the one already there, or else
    /// `channel`, registered now. Gives its position.
    pub fn register_channel(&mut self, topic: String, channel: C) -> (r: usize)
        requires
            old(self).wf(),
        ensures
            final(self).wf(),
            (final(self).channels@, r as int) == registered(old(self).channels@, topic, channel),
            final(self).ref_counter == old(self).ref_counter,
            final(self).pending_heartbeat_ref == old(self).pending_heartbeat_ref,
            final(self).was_manual_disconnect == old(self).was_manual_disconnect,
    {
        match self.find_channel(topic.as_str()) {
            Some(i) => {
                proof {
                    let v = self.channels@;
                    let j = choose|j: int| 0 <= j < v.len() && v[j].0@ == topic@;
                    assert(v[i as int].0@ == topic@);
                    assert(j == i);
                }
                i
            },
            None => {
                let n = self.channels.len();
                self.add_channel(topic, channel);
                n
            },
        }
    }

    /// The positions of all channels registered under `topic`, in order.
    pub fn topic_targets(&self, topic: &str) -> (r: Vec<usize>)
        ensures
            r@ == Seq::new(self.channels@.len(), |i: int| i as usize).filter(
                |i: usize| topics(self.channels@)[i as int] == topic@,
            ),
    {
        let ghost ts = topics(self.channels@);
        let ghost pred = |i: usize| ts[i as int] == topic@;
        let mut r: Vec<usize> = Vec::new();
        let mut i: usize = 0;
        proof {
            reveal(Seq::filter);
            assert(Seq::new(0, |j: int| j as usize) =~= Seq::<usize>::empty());
        }
        while i < self.channels.len()
            invariant
                i <= self.channels@.len(),
                ts == topics(self.channels@),
                pred == (|i: usize| ts[i as int] == topic@),
                r@ == Seq::new(i as nat, |j: int| j as usize).filter(pred),
            decreases self.channels@.len() - i,
        {
            let hit = str_eq(self.channels[i].0.as_str(), topic);
            assert(ts[i as int] == self.channels@[i as int].0@);
            proof {
                let s0 = Seq::new(i as nat, |j: int| j as usize);
                assert(Seq::new((i + 1) as nat, |j: int| j as usize) =~= s0.push(i));
                s0.lemma_filter_push(i, pred);
            }
            if hit {
                r.push(i);
            }
            i = i + 1;
        }
        r
    }
}

/// Whether `url::Url::parse` accepts a string.
pub uninterp spec fn url_accepts(s: Seq<char>) -> bool;

/// The text of the URL `s` once the query pair `key=value` (form-encoded)
/// is appended to it (`Url::parse`, `query_pairs_mut().append_pair`,
/// `to_string`).
pub uninterp spec fn url_with_query_pair(s: Seq<char>, key: Seq<char>, value: Seq<char>) -> Seq<char>;

/// Parses `endpoint` as a URL, appends the query pair `key=value` and writes
/// the URL back; fails where `url::Url::parse` does.
#[verifier::external_body]
fn append_query_pair(endpoint: &str, key: &str, value: &str) -> (r: Result<String, url::ParseError>)
    ensures
        r is Err <==> !url_accepts(endpoint@),
        r matches Ok(s) ==> s@ == url_with_query_pair(endpoint@, key@, value@),
{
    let mut url = url::Url::parse(endpoint)?;
    url.query_pairs_mut().append_pair(key, value);
    Ok(url.to_string())
}

/// The WebSocket URL to connect to: the endpoint with the query parameter
/// `apikey`; a malformed endpoint is refused with a URL parse error.
pub fn build_endpoint_url(endpoint: &str, api_key: &str) -> (r: Result<String, RealtimeError>)
    ensures
        r is Err <==> !url_accepts(endpoint@),
        r matches Err(e) ==> e is UrlParse,
        r matches Ok(s) ==> s@ == url_with_query_pair(endpoint@, "apikey"@, api_key@),
{
    match append_query_pair(endpoint, "apikey", api_key) {
        Ok(s) => Ok(s),
        Err(e) => Err(RealtimeError::UrlParse(e)),
    }
}

/// References made by successive `make_ref` calls are pairwise distinct:
/// the counter only grows and distinct counters have distinct numerals.
pub proof fn lemma_refs_never_repeat(a: u64, b: u64)
    requires
        a < b,
    ensures
        decimal(a as nat) != decimal(b as nat),
{
    if decimal(a as nat) == decimal(b as nat) {
        crate::refs::lemma_decimal_injective(a as nat, b as nat);
    }
}

/// A channel registered under a topic that no registered channel has is,
/// from then on, the one `find_channel` gives for that topic: the only
/// position meeting its contract is the new channel's.
pub proof fn lemma_registered_channel_is_found<C>(channels: Seq<(String, C)>, topic: String, channel: C)
    requires
        forall|j: int| 0 <= j < channels.len() ==> channels[j].0@ != topic@,
    ensures
        ({
            let s = channels.push((topic, channel));
            &&& s[channels.len() as int].0@ == topic@
            &&& s[channels.len() as int].1 == channel
            &&& forall|j: int| 0 <= j < channels.len() ==> s[j].0@ != topic@
            &&& forall|i: int|
                0 <= i < s.len() && s[i].0@ == topic@ && (forall|j: int| 0 <= j < i ==> s[j].0@ != topic@)
                    ==> i == channels.len()
        }),
{
    let s = channels.push((topic, channel));
    assert forall|j: int| 0 <= j < channels.len() implies s[j].0@ != topic@ by {
        assert(s[j] == channels[j]);
    }
}

/// The position of the channel registered under `t`, if any.
pub open spec fn topic_index<C>(v: Seq<(String, C)>, t: Seq<char>) -> Option<int> {
    if exists|j: int| 0 <= j < v.len() && v[j].0@ == t {
        Some(choose|j: int| 0 <= j < v.len() && v[j].0@ == t)
    } else {
        None
    }
}

/// A registry after asking for the channel of `topic`, offering `channel`,
/// and the position of the channel it gives: the registered one if there is
/// one, else `channel`, appended.
pub open spec fn registered<C>(v: Seq<(String, C)>, topic: String, channel: C) -> (Seq<(String, C)>, int) {
    match topic_index(v, topic@) {
        Some(i) => (v, i),
        None => (v.push((topic, channel)), v.len() as int),
    }
}

/// Asking twice for the channel of a topic gives the same channel: the
/// first request registers one when there is none, the second finds it and
/// leaves the registry as it is; the registry never holds a topic twice.
pub proof fn lemma_channel_registered_once<C>(v: Seq<(String, C)>, topic: String, c1: C, c2: C)
    requires
        topics_distinct(v),
    ensures
        ({
            let (v1, i1) = registered(v, topic, c1);
            let (v2, i2) = registered(v1, topic, c2);
            &&& topics_distinct(v1)
            &&& 0 <= i1 < v1.len()
            &&& v1[i1].0@ == topic@
            &&& v2 == v1
            &&& i2 == i1
            &&& (topic_index(v, topic@) is None ==> v1 == v.push((topic, c1)) && v1[i1].1 == c1)
            &&& (topic_index(v, topic@) is Some ==> v1 == v)
        }),
{
    let (v1, i1) = registered(v, topic, c1);
    match topic_index(v, topic@) {
        Some(i) => {},
        None => {
            assert(forall|j: int| 0 <= j < v.len() ==> v[j].0@ != topic@);
            assert(v1[v.len() as int].0@ == topic@);
            assert forall|a: int, b: int| 0 <= a < b < v1.len() implies v1[a].0@ != v1[b].0@ by {
                assert(v1[a] == if a < v.len() { v[a] } else { (topic, c1) });
                assert(v1[b] == if b < v.len() { v[b] } else { (topic, c1) });
            }
        },
    }
    assert(v1[i1].0@ == topic@);
    assert(exists|j: int| 0 <= j < v1.len() && v1[j].0@ == topic@);
    let k = choose|j: int| 0 <= j < v1.len() && v1[j].0@ == topic@;
    assert(k == i1);
}

/// In a well-formed registry a topic names at most one channel: the
/// channel `find_channel` gives for it is the only one.
pub proof fn lemma_one_channel_per_topic<C>(channels: Seq<(String, C)>, i: int, j: int)
    requires
        topics_distinct(channels),
        0 <= i < channels.len(),
        0 <= j < channels.len(),
        channels[i].0@ == channels[j].0@,
    ensures
        i == j,
{
}

impl<C> Default for ClientState<C> {
    /// A fresh state: counter at zero, nothing pending, no channel.
    fn default() -> (r: ClientState<C>)
        ensures
            r.wf(),
            r.ref_counter == 0,
            r.pending_heartbeat_ref is None,
            r.channels@ == Seq::<(String, C)>::empty(),
            !r.was_manual_disconnect,
    {
        ClientState::new()
    }
}

} // verus!
