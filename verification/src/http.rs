//! Broadcasting over HTTP when the WebSocket is unavailable: the HTTP
//! endpoint derived from the WebSocket endpoint, the request to send, and
//! how its response is read.

use vstd::prelude::*;
use serde_json::Value;
use crate::error::RealtimeError;
use crate::event::{ChannelEvent, ChannelEventView};
use crate::json::{
    fields_view, json_array, json_array_of, json_bool, json_bool_of, json_object, json_object_of,
    json_string, json_string_of,
};
use crate::message::opt_view;
use crate::text::{is_prefix, owned};

verus! {

/// `s` with every occurrence of `pat`, scanning left to right without
/// overlap, replaced by `rep` (as `str::replace` does for a non-empty
/// pattern).
pub open spec fn replace_all(s: Seq<char>, pat: Seq<char>, rep: Seq<char>) -> Seq<char>
    decreases s.len(),
{
    if s.len() == 0 || pat.len() == 0 {
        s
    } else if is_prefix(pat, s) {
        rep + replace_all(s.skip(pat.len() as int), pat, rep)
    } else {
        seq![s[0]] + replace_all(s.skip(1), pat, rep)
    }
}

/// The part of `s` before the first `c` (all of `s` when there is none).
pub open spec fn before_char(s: Seq<char>, c: char) -> Seq<char>
    decreases s.len(),
{
    if s.len() == 0 {
        s
    } else if s[0] == c {
        Seq::empty()
    } else {
        seq![s[0]] + before_char(s.skip(1), c)
    }
}

/// The HTTP endpoint of a WebSocket endpoint: `ws://` becomes `http://`,
/// `wss://` becomes `https://`, and the query is dropped.
pub open spec fn http_endpoint_of(ws: Seq<char>) -> Seq<char> {
    before_char(replace_all(replace_all(ws, "ws://"@, "http://"@), "wss://"@, "https://"@), '?')
}

/// Whether `pat` occurs in `s` at position `i`.
fn occurs_at(s: &str, i: usize, pat: &str) -> (r: bool)
    requires
        i <= s@.len(),
    ensures
        r == is_prefix(pat@, s@.skip(i as int)),
{
    let n = s.unicode_len();
    let m = pat.unicode_len();
    if m > n - i {
        return false;
    }
    let mut j: usize = 0;
    while j < m
        invariant
            n == s@.len(),
            m == pat@.len(),
            i + m <= n,
            j <= m,
            forall|k: int| 0 <= k < j ==> s@[i + k] == pat@[k],
        decreases m - j,
    {
        if s.get_char(i + j) != pat.get_char(j) {
            assert(s@.skip(i as int).subrange(0, m as int)[j as int] != pat@[j as int]);
            return false;
        }
        j = j + 1;
    }
    assert(s@.skip(i as int).subrange(0, m as int) =~= pat@);
    true
}

/// `s` with every occurrence of the non-empty `pat` replaced by `rep`.
pub fn replace_all_str(s: &str, pat: &str, rep: &str) -> (r: String)
    requires
        pat@.len() > 0,
    ensures
        r@ == replace_all(s@, pat@, rep@),
{
    let n = s.unicode_len();
    let m = pat.unicode_len();
    let mut r = String::new();
    let mut i: usize = 0;
    assert(s@.skip(0) =~= s@);
    while i < n
        invariant
            n == s@.len(),
            m == pat@.len(),
            m > 0,
            i <= n,
            r@ + replace_all(s@.skip(i as int), pat@, rep@) == replace_all(s@, pat@, rep@),
        decreases n - i,
    {
        let ghost t = s@.skip(i as int);
        let ghost before = r@;
        if occurs_at(s, i, pat) {
            r.append(rep);
            proof {
                assert(t.skip(m as int) =~= s@.skip(i + m));
                assert(replace_all(t, pat@, rep@) == rep@ + replace_all(t.skip(m as int), pat@, rep@));
                assert(before + (rep@ + replace_all(s@.skip(i + m), pat@, rep@)) =~= r@ + replace_all(
                    s@.skip(i + m),
                    pat@,
                    rep@,
                ));
            }
            i = i + m;
        } else {
            let c = s.substring_char(i, i + 1);
            r.append(c);
            proof {
                assert(c@ =~= seq![t[0]]);
                assert(t.skip(1) =~= s@.skip(i + 1));
                assert(replace_all(t, pat@, rep@) == seq![t[0]] + replace_all(t.skip(1), pat@, rep@));
                assert(before + (seq![t[0]] + replace_all(s@.skip(i + 1), pat@, rep@)) =~= r@
                    + replace_all(s@.skip(i + 1), pat@, rep@));
            }
            i = i + 1;
        }
    }
    proof {
        assert(s@.skip(i as int).len() == 0);
        assert(r@ + Seq::<char>::empty() =~= r@);
    }
    r
}

/// The part of `s` before the first `c`.
pub fn before_first(s: &str, c: char) -> (r: String)
    ensures
        r@ == before_char(s@, c),
{
    let n = s.unicode_len();
    let mut k: usize = 0;
    assert(s@.skip(0) =~= s@);
    assert(s@.take(0) =~= Seq::<char>::empty());
    while k < n && s.get_char(k) != c
        invariant
            n == s@.len(),
            k <= n,
            s@.take(k as int) + before_char(s@.skip(k as int), c) == before_char(s@, c),
        decreases n - k,
    {
        let ghost t = s@.skip(k as int);
        proof {
            assert(t.skip(1) =~= s@.skip(k + 1));
            assert(s@.take(k + 1) =~= s@.take(k as int) + seq![t[0]]);
            assert(s@.take(k as int) + (seq![t[0]] + before_char(t.skip(1), c)) =~= s@.take(k + 1)
                + before_char(s@.skip(k + 1), c));
        }
        k = k + 1;
    }
    proof {
        let t = s@.skip(k as int);
        if k < n {
            assert(t[0] == c);
        }
        assert(before_char(t, c) =~= Seq::<char>::empty());
        assert(s@.take(k as int) + Seq::<char>::empty() =~= s@.take(k as int));
    }
    owned(s.substring_char(0, k))
}

/// The HTTP endpoint of a WebSocket endpoint.
pub fn ws_to_http_endpoint(ws_endpoint: &str) -> (r: String)
    ensures
        r@ == http_endpoint_of(ws_endpoint@),
{
    proof {
        reveal_strlit("ws://");
        reveal_strlit("wss://");
    }
    let a = replace_all_str(ws_endpoint, "ws://", "http://");
    let b = replace_all_str(a.as_str(), "wss://", "https://");
    before_first(b.as_str(), '?')
}

/// The part before a character never holds it.
pub proof fn lemma_before_char_excludes(s: Seq<char>, c: char)
    ensures
        forall|j: int| 0 <= j < before_char(s, c).len() ==> before_char(s, c)[j] != c,
    decreases s.len(),
{
    if s.len() > 0 && s[0] != c {
        lemma_before_char_excludes(s.skip(1), c);
        let t = before_char(s.skip(1), c);
        assert forall|j: int| 0 <= j < before_char(s, c).len() implies before_char(s, c)[j] != c by {
            if j > 0 {
                assert(before_char(s, c)[j] == t[j - 1]);
            }
        }
    }
}

/// The HTTP endpoint never carries a query: it holds no `?`.
pub proof fn lemma_http_endpoint_has_no_query(ws: Seq<char>)
    ensures
        forall|j: int| 0 <= j < http_endpoint_of(ws).len() ==> http_endpoint_of(ws)[j] != '?',
{
    lemma_before_char_excludes(
        replace_all(replace_all(ws, "ws://"@, "http://"@), "wss://"@, "https://"@),
        '?',
    );
}

/// `q` occurs nowhere in `s`.
pub open spec fn free_of(s: Seq<char>, q: Seq<char>) -> bool {
    forall|i: int| 0 <= i <= s.len() ==> !is_prefix(q, #[trigger] s.skip(i))
}

/// A string free of `q` stays free of it from any position on.
proof fn lemma_free_skip(s: Seq<char>, q: Seq<char>, n: int)
    requires
        free_of(s, q),
        0 <= n <= s.len(),
    ensures
        free_of(s.skip(n), q),
{
    assert forall|i: int| 0 <= i <= s.skip(n).len() implies !is_prefix(q, #[trigger] s.skip(n).skip(i)) by {
        assert(s.skip(n).skip(i) =~= s.skip(n + i));
    }
}

/// A prefix of a string free of `q` is free of it.
proof fn lemma_free_prefix(s: Seq<char>, b: Seq<char>, q: Seq<char>)
    requires
        free_of(s, q),
        is_prefix(b, s),
    ensures
        free_of(b, q),
{
    assert forall|i: int| 0 <= i <= b.len() implies !is_prefix(q, #[trigger] b.skip(i)) by {
        if is_prefix(q, b.skip(i)) {
            assert(s.skip(i).subrange(0, q.len() as int) =~= b.skip(i).subrange(0, q.len() as int));
            assert(is_prefix(q, s.skip(i)));
        }
    }
}

/// The part before a character is a prefix.
proof fn lemma_before_char_prefix(s: Seq<char>, c: char)
    ensures
        is_prefix(before_char(s, c), s),
    decreases s.len(),
{
    if s.len() > 0 && s[0] != c {
        lemma_before_char_prefix(s.skip(1), c);
        let t = before_char(s.skip(1), c);
        assert(before_char(s, c) == seq![s[0]] + t);
        assert(s.skip(1).subrange(0, t.len() as int) == t);
        assert(s.subrange(0, t.len() + 1 as int) =~= seq![s[0]] + s.skip(1).subrange(0, t.len() as int));
        assert(s.subrange(0, before_char(s, c).len() as int) =~= before_char(s, c));
    } else {
        assert(before_char(s, c) =~= Seq::<char>::empty());
        assert(s.subrange(0, 0) =~= Seq::<char>::empty());
    }
}

/// A string that `replace_all` writes out starts with `u` only if its
/// source does, when no character of `u` is the first of the replacement.
proof fn lemma_prefix_through_replace(t: Seq<char>, p: Seq<char>, rep: Seq<char>, u: Seq<char>)
    requires
        p.len() > 0,
        rep.len() > 0,
        forall|k: int| 0 <= k < u.len() ==> u[k] != rep[0],
        is_prefix(u, replace_all(t, p, rep)),
    ensures
        is_prefix(u, t),
    decreases t.len(),
{
    let out = replace_all(t, p, rep);
    if u.len() == 0 {
        assert(t.subrange(0, 0) =~= u);
    } else if t.len() == 0 {
    } else if is_prefix(p, t) {
        assert(out == rep + replace_all(t.skip(p.len() as int), p, rep));
        assert(out[0] == rep[0]);
        assert(out.subrange(0, u.len() as int)[0] == u[0]);
    } else {
        let rest = replace_all(t.skip(1), p, rep);
        assert(out == seq![t[0]] + rest);
        let v = u.skip(1);
        assert(rest.subrange(0, v.len() as int) =~= out.subrange(0, u.len() as int).skip(1));
        assert(out.subrange(0, u.len() as int)[0] == u[0]);
        lemma_prefix_through_replace(t.skip(1), p, rep, v);
        assert(t.subrange(0, u.len() as int) =~= seq![t[0]] + t.skip(1).subrange(0, v.len() as int));
        assert(u =~= seq![u[0]] + v);
    }
}

/// `replace_all` leaves no occurrence of `q` when `q` is the replaced
/// pattern, or was absent already, provided the replacement holds no first
/// character of `q` and `q` holds the replacement's first character at most
/// in its first place.
proof fn lemma_replace_free(s: Seq<char>, p: Seq<char>, rep: Seq<char>, q: Seq<char>)
    requires
        p.len() > 0,
        rep.len() > 0,
        q.len() > 0,
        forall|k: int| 0 <= k < rep.len() ==> rep[k] != q[0],
        forall|k: int| 1 <= k < q.len() ==> q[k] != rep[0],
        q == p || free_of(s, q),
    ensures
        free_of(replace_all(s, p, rep), q),
    decreases s.len(),
{
    let out = replace_all(s, p, rep);
    if s.len() == 0 {
        assert forall|i: int| 0 <= i <= out.len() implies !is_prefix(q, #[trigger] out.skip(i)) by {}
    } else if is_prefix(p, s) {
        let s2 = s.skip(p.len() as int);
        if q != p {
            lemma_free_skip(s, q, p.len() as int);
        }
        lemma_replace_free(s2, p, rep, q);
        let rest = replace_all(s2, p, rep);
        assert(out == rep + rest);
        assert forall|i: int| 0 <= i <= out.len() implies !is_prefix(q, #[trigger] out.skip(i)) by {
            if i < rep.len() {
                if is_prefix(q, out.skip(i)) {
                    assert(out.skip(i)[0] == rep[i]);
                    assert(out.skip(i).subrange(0, q.len() as int)[0] == q[0]);
                }
            } else {
                assert(out.skip(i) =~= rest.skip(i - rep.len()));
            }
        }
    } else {
        let s2 = s.skip(1);
        if q != p {
            lemma_free_skip(s, q, 1);
        }
        lemma_replace_free(s2, p, rep, q);
        let rest = replace_all(s2, p, rep);
        assert(out == seq![s[0]] + rest);
        assert forall|i: int| 0 <= i <= out.len() implies !is_prefix(q, #[trigger] out.skip(i)) by {
            if i == 0 {
                assert(out.skip(0) =~= out);
                if is_prefix(q, out) {
                    let v = q.skip(1);
                    assert(out.subrange(0, q.len() as int)[0] == q[0]);
                    assert(rest.subrange(0, v.len() as int) =~= out.subrange(0, q.len() as int).skip(1));
                    assert(is_prefix(v, rest));
                    assert forall|k: int| 0 <= k < v.len() implies v[k] != rep[0] by {
                        assert(v[k] == q[k + 1]);
                    }
                    lemma_prefix_through_replace(s2, p, rep, v);
                    assert(s.subrange(0, q.len() as int) =~= seq![s[0]] + s2.subrange(0, v.len() as int));
                    assert(q =~= seq![q[0]] + v);
                    assert(s.skip(0) =~= s);
                    assert(is_prefix(q, s.skip(0)));
                }
            } else {
                assert(out.skip(i) =~= rest.skip(i - 1));
            }
        }
    }
}

/// `replace_all` changes nothing in a string free of the pattern.
proof fn lemma_replace_identity(s: Seq<char>, p: Seq<char>, rep: Seq<char>)
    requires
        p.len() > 0,
        free_of(s, p),
    ensures
        replace_all(s, p, rep) == s,
    decreases s.len(),
{
    if s.len() > 0 {
        assert(s.skip(0) =~= s);
        lemma_free_skip(s, p, 1);
        lemma_replace_identity(s.skip(1), p, rep);
        assert(seq![s[0]] + s.skip(1) =~= s);
    }
}

/// `before_char` changes nothing in a string without the character.
proof fn lemma_before_char_identity(s: Seq<char>, c: char)
    requires
        forall|j: int| 0 <= j < s.len() ==> s[j] != c,
    ensures
        before_char(s, c) == s,
    decreases s.len(),
{
    if s.len() > 0 {
        assert forall|j: int| 0 <= j < s.skip(1).len() implies s.skip(1)[j] != c by {
            assert(s.skip(1)[j] == s[j + 1]);
        }
        lemma_before_char_identity(s.skip(1), c);
        assert(seq![s[0]] + s.skip(1) =~= s);
    }
}

/// The HTTP endpoint holds no `ws://` and no `wss://`, and deriving the
/// HTTP endpoint of an HTTP endpoint changes nothing.
pub proof fn lemma_http_endpoint_is_settled(ws: Seq<char>)
    ensures
        free_of(http_endpoint_of(ws), "ws://"@),
        free_of(http_endpoint_of(ws), "wss://"@),
        http_endpoint_of(http_endpoint_of(ws)) == http_endpoint_of(ws),
{
    reveal_strlit("ws://");
    reveal_strlit("wss://");
    reveal_strlit("http://");
    reveal_strlit("https://");
    let p1 = "ws://"@;
    let r1 = "http://"@;
    let p2 = "wss://"@;
    let r2 = "https://"@;
    assert forall|k: int| 0 <= k < r1.len() implies r1[k] != p1[0] by {}
    assert forall|k: int| 0 <= k < r2.len() implies r2[k] != p1[0] by {}
    assert forall|k: int| 1 <= k < p1.len() implies p1[k] != r1[0] by {}
    assert forall|k: int| 1 <= k < p1.len() implies p1[k] != r2[0] by {}
    assert forall|k: int| 1 <= k < p2.len() implies p2[k] != r2[0] by {}
    let a = replace_all(ws, p1, r1);
    lemma_replace_free(ws, p1, r1, p1);
    let b = replace_all(a, p2, r2);
    lemma_replace_free(a, p2, r2, p1);
    lemma_replace_free(a, p2, r2, p2);
    let e = before_char(b, '?');
    lemma_before_char_prefix(b, '?');
    lemma_free_prefix(b, e, p1);
    lemma_free_prefix(b, e, p2);
    lemma_before_char_excludes(b, '?');
    lemma_replace_identity(e, p1, r1);
    lemma_replace_identity(e, p2, r2);
    lemma_before_char_identity(e, '?');
}

/// Sends broadcasts over HTTP: the base endpoint and the credentials.
pub struct HttpBroadcaster {
    base_endpoint: String,
    api_key: String,
    access_token: Option<String>,
}

/// An HTTP POST to send: URL, headers and JSON body.
pub struct HttpRequest {
    pub url: String,
    pub headers: Vec<(String, String)>,
    pub body: Value,
}

/// The mathematical value of a broadcaster.
pub struct BroadcasterView {
    pub base_endpoint: Seq<char>,
    pub api_key: Seq<char>,
    pub access_token: Option<Seq<char>>,
}

impl View for HttpBroadcaster {
    type V = BroadcasterView;

    closed spec fn view(&self) -> BroadcasterView {
        BroadcasterView {
            base_endpoint: self.base_endpoint@,
            api_key: self.api_key@,
            access_token: opt_view(self.access_token),
        }
    }
}

/// The headers of a broadcast request: JSON content, the API key, and the
/// access token as a bearer token when there is one.
pub open spec fn broadcast_headers(api_key: Seq<char>, access_token: Option<Seq<char>>) -> Seq<
    (Seq<char>, Seq<char>),
> {
    seq![("Content-Type"@, "application/json"@), ("apiKey"@, api_key)] + match access_token {
        Some(t) => seq![("Authorization"@, "Bearer "@ + t)],
        None => Seq::empty(),
    }
}

/// The body of a broadcast request: one message with its topic, event name,
/// payload and privacy.
pub open spec fn broadcast_body(topic: Seq<char>, event: ChannelEventView, payload: Value, is_private: bool) -> Value {
    json_object_of(
        seq![
            (
                "messages"@,
                json_array_of(
                    seq![
                        json_object_of(
                            seq![
                                ("topic"@, json_string_of(topic)),
                                ("event"@, json_string_of(event.text())),
                                ("payload"@, payload),
                                ("private"@, json_bool_of(is_private)),
                            ],
                        ),
                    ],
                ),
            ),
        ],
    )
}

/// The message of a failed broadcast.
pub open spec fn status_failure_text(topic: Seq<char>, event: ChannelEventView, status: Seq<char>) -> Seq<char> {
    "HTTP broadcast failed for topic '"@ + topic + "' event '"@ + event.text() + "' with status: "@
        + status
}

impl HttpBroadcaster {
    /// A broadcaster for `base_endpoint` with these credentials.
    pub fn new(base_endpoint: String, api_key: String, access_token: Option<String>) -> (r: HttpBroadcaster)
        ensures
            r@ == (BroadcasterView {
                base_endpoint: base_endpoint@,
                api_key: api_key@,
                access_token: opt_view(access_token),
            }),
    {
        HttpBroadcaster { base_endpoint, api_key, access_token }
    }

    /// The request that broadcasts `payload` as `event` on `topic`: a POST to
    /// `<base>/api/broadcast`.
    pub fn broadcast_request(&self, topic: &str, event: &ChannelEvent, payload: Value, is_private: bool) -> (r:
        HttpRequest)
        ensures
            r.url@ == self@.base_endpoint + "/api/broadcast"@,
            crate::postgres_changes::pairs_view(r.headers@) == broadcast_headers(
                self@.api_key,
                self@.access_token,
            ),
            r.body == broadcast_body(topic@, event@, payload, is_private),
    {
        let mut url = self.base_endpoint.clone();
        url.append("/api/broadcast");
        let mut headers: Vec<(String, String)> = Vec::new();
        headers.push((owned("Content-Type"), owned("application/json")));
        headers.push((owned("apiKey"), self.api_key.clone()));
        match &self.access_token {
            Some(t) => {
                let mut bearer = owned("Bearer ");
                bearer.append(t.as_str());
                headers.push((owned("Authorization"), bearer));
            },
            None => {},
        }
        assert(crate::postgres_changes::pairs_view(headers@) =~= broadcast_headers(
            self@.api_key,
            self@.access_token,
        ));
        let mut m: Vec<(String, Value)> = Vec::new();
        m.push((owned("topic"), json_string(topic)));
        m.push((owned("event"), json_string(event.as_str())));
        m.push((owned("payload"), payload));
        m.push((owned("private"), json_bool(is_private)));
        let ghost mv = fields_view(m@);
        let message = json_object(m);
        let mut items: Vec<Value> = Vec::new();
        items.push(message);
        let ghost iv = items@;
        let messages = json_array(items);
        let mut b: Vec<(String, Value)> = Vec::new();
        b.push((owned("messages"), messages));
        proof {
            assert(mv =~= seq![
                ("topic"@, json_string_of(topic@)),
                ("event"@, json_string_of(event@.text())),
                ("payload"@, payload),
                ("private"@, json_bool_of(is_private)),
            ]);
            assert(iv =~= seq![json_object_of(mv)]);
            assert(fields_view(b@) =~= seq![("messages"@, json_array_of(iv))]);
        }
        HttpRequest { url, headers, body: json_object(b) }
    }
}

/// The error of a broadcast request that could not be sent.
pub fn broadcast_failed(reason: &str) -> (r: RealtimeError)
    ensures
        r is Connection && r->Connection_0@ == "HTTP broadcast failed: "@ + reason@,
{
    let mut m = owned("HTTP broadcast failed: ");
    m.append(reason);
    RealtimeError::Connection(m)
}

/// The outcome of a broadcast from the response status: success for a 2xx
/// code, otherwise a connection error naming the topic, the event and the
/// status.
pub fn broadcast_outcome(topic: &str, event: &ChannelEvent, status_code: u16, status_text: &str) -> (r: Result<
    (),
    RealtimeError,
>)
    ensures
        r is Ok <==> 200 <= status_code <= 299,
        r matches Err(e) ==> e is Connection && e->Connection_0@ == status_failure_text(
            topic@,
            event@,
            status_text@,
        ),
{
    if 200 <= status_code && status_code <= 299 {
        return Ok(());
    }
    let mut m = owned("HTTP broadcast failed for topic '");
    m.append(topic);
    m.append("' event '");
    m.append(event.as_str());
    m.append("' with status: ");
    m.append(status_text);
    Err(RealtimeError::Connection(m))
}

} // verus!
