//! The names of the top-level fields of a JSON object text, in the order
//! they are written and with repetitions, which a parsed `Value` no longer
//! shows (it keeps the last of repeated names).

use vstd::prelude::*;
use crate::json::{json_as_str, json_parse, json_parse_of, json_str_of};

verus! {

/// Where a left-to-right reading of a JSON text stands: the nesting depth
/// of objects and arrays, whether it is inside a string and just after a
/// backslash there, whether the next string at depth one is a field name,
/// where the field name being read started, and the positions (start,
/// end) of the field names of the top-level object read so far.
pub struct ScanState {
    pub depth: int,
    pub in_str: bool,
    pub esc: bool,
    pub expect_key: bool,
    pub key_start: Option<int>,
    pub keys: Seq<(int, int)>,
}

pub open spec fn scan_start() -> ScanState {
    ScanState { depth: 0, in_str: false, esc: false, expect_key: false, key_start: None, keys: Seq::empty() }
}

/// Reading the character `c` at position `i`. Inside a string, a backslash
/// escapes the next character and a quote ends the string (and the field
/// name, if it is one). Outside, a quote starts a string, a field name when
/// one is expected at depth one; `{` and `[` go one level deeper (a field
/// name is expected right inside the top-level object), `}` and `]` one
/// level up, and a comma at depth one expects the next field name.
pub open spec fn scan_step(st: ScanState, c: char, i: int) -> ScanState {
    if st.in_str {
        if st.esc {
            ScanState { esc: false, ..st }
        } else if c == '\\' {
            ScanState { esc: true, ..st }
        } else if c == '"' {
            match st.key_start {
                Some(k) => ScanState { in_str: false, key_start: None, keys: st.keys.push((k, i + 1)), ..st },
                None => ScanState { in_str: false, ..st },
            }
        } else {
            st
        }
    } else if c == '"' {
        if st.depth == 1 && st.expect_key {
            ScanState { in_str: true, expect_key: false, key_start: Some(i), ..st }
        } else {
            ScanState { in_str: true, ..st }
        }
    } else if c == '{' {
        ScanState { depth: st.depth + 1, expect_key: st.depth == 0, ..st }
    } else if c == '[' {
        ScanState { depth: st.depth + 1, ..st }
    } else if c == '}' || c == ']' {
        ScanState { depth: if st.depth > 0 { st.depth - 1 } else { 0 }, ..st }
    } else if c == ',' && st.depth == 1 {
        ScanState { expect_key: true, ..st }
    } else {
        st
    }
}

/// The reading state after all of `s`.
pub open spec fn scan(s: Seq<char>) -> ScanState
    decreases s.len(),
{
    if s.len() == 0 {
        scan_start()
    } else {
        scan_step(scan(s.drop_last()), s.last(), s.len() - 1)
    }
}

/// The name a field-name token stands for (the token is a JSON string,
/// quotes included).
pub open spec fn token_name(text: Seq<char>, r: (int, int)) -> Option<Seq<char>> {
    match json_parse_of(text.subrange(r.0, r.1)) {
        Some(v) => json_str_of(v),
        None => None,
    }
}

/// The names of the top-level fields of `text`, in order, repetitions kept.
pub open spec fn field_names(text: Seq<char>) -> Seq<Option<Seq<char>>> {
    scan(text).keys.map_values(|r: (int, int)| token_name(text, r))
}

/// How many of `names` are `name`.
pub open spec fn name_count(names: Seq<Option<Seq<char>>>, name: Seq<char>) -> nat
    decreases names.len(),
{
    if names.len() == 0 {
        0
    } else {
        name_count(names.drop_last(), name) + if names.last() == Some(name) {
            1nat
        } else {
            0nat
        }
    }
}

/// The names of a list of optional strings.
pub open spec fn names_view(v: Seq<Option<String>>) -> Seq<Option<Seq<char>>> {
    v.map_values(
        |o: Option<String>|
            match o {
                Some(n) => Some(n@),
                None => None,
            },
    )
}

/// The reading state of the executable scanner.
struct Scanner {
    depth: usize,
    in_str: bool,
    esc: bool,
    expect_key: bool,
    key_start: Option<usize>,
    keys: Vec<(usize, usize)>,
}

impl Scanner {
    spec fn matches(&self, st: ScanState) -> bool {
        &&& self.depth as int == st.depth
        &&& self.in_str == st.in_str
        &&& self.esc == st.esc
        &&& self.expect_key == st.expect_key
        &&& match self.key_start {
            Some(k) => st.key_start == Some(k as int),
            None => st.key_start is None,
        }
        &&& self.keys@.len() == st.keys.len()
        &&& forall|j: int|
            0 <= j < st.keys.len() ==> (#[trigger] self.keys@[j]).0 as int == st.keys[j].0 && self.keys@[j].1
                as int == st.keys[j].1
    }

    /// Positions stay within what was read.
    spec fn bounded(&self, i: int) -> bool {
        &&& self.depth <= i
        &&& match self.key_start {
            Some(k) => k < i,
            None => true,
        }
        &&& forall|j: int|
            0 <= j < self.keys@.len() ==> (#[trigger] self.keys@[j]).0 < self.keys@[j].1 <= i
    }
}

/// The positions of the top-level field names of `text`.
fn field_name_positions(text: &str) -> (r: Vec<(usize, usize)>)
    ensures
        r@.len() == scan(text@).keys.len(),
        forall|j: int|
            0 <= j < r@.len() ==> (#[trigger] r@[j]).0 as int == scan(text@).keys[j].0 && r@[j].1 as int
                == scan(text@).keys[j].1 && r@[j].0 < r@[j].1 <= text@.len(),
{
    let mut sc = Scanner {
        depth: 0,
        in_str: false,
        esc: false,
        expect_key: false,
        key_start: None,
        keys: Vec::new(),
    };
    let ghost s = text@;
    let n = text.unicode_len();
    let mut i: usize = 0;
    assert(s.take(0) =~= Seq::<char>::empty());
    for c in it: text.chars()
        invariant
            s == text@,
            n == s.len(),
            it.seq() == s,
            i == it.index(),
            i <= s.len(),
            sc.matches(scan(s.take(i as int))),
            sc.bounded(i as int),
    {
        assert(i < s.len());
        assert(c == s[i as int]);
        let ghost before = scan(s.take(i as int));
        assert(s.take(i + 1).drop_last() =~= s.take(i as int));
        assert(s.take(i + 1).last() == c);
        if sc.in_str {
            if sc.esc {
                sc.esc = false;
            } else if c == '\\' {
                sc.esc = true;
            } else if c == '"' {
                sc.in_str = false;
                match sc.key_start {
                    Some(k) => {
                        sc.keys.push((k, i + 1));
                        sc.key_start = None;
                    },
                    None => {},
                }
            }
        } else if c == '"' {
            sc.in_str = true;
            if sc.depth == 1 && sc.expect_key {
                sc.expect_key = false;
                sc.key_start = Some(i);
            }
        } else if c == '{' {
            sc.expect_key = sc.depth == 0;
            sc.depth = sc.depth + 1;
        } else if c == '[' {
            sc.depth = sc.depth + 1;
        } else if c == '}' || c == ']' {
            if sc.depth > 0 {
                sc.depth = sc.depth - 1;
            }
        } else if c == ',' && sc.depth == 1 {
            sc.expect_key = true;
        }
        proof {
            let after = scan(s.take(i + 1));
            assert(after == scan_step(before, c, i as int));
        }
        i = i + 1;
    }
    assert(s.take(i as int) =~= s);
    sc.keys
}

/// The names of the top-level fields of `text`, in order.
pub fn read_field_names(text: &str) -> (r: Vec<Option<String>>)
    ensures
        names_view(r@) == field_names(text@),
        forall|j: int|
            0 <= j < r@.len() ==> match #[trigger] r@[j] {
                Some(n) => field_names(text@)[j] == Some(n@),
                None => field_names(text@)[j] is None,
            },
{
    let pos = field_name_positions(text);
    let mut r: Vec<Option<String>> = Vec::new();
    let mut j: usize = 0;
    while j < pos.len()
        invariant
            j <= pos@.len(),
            pos@.len() == scan(text@).keys.len(),
            forall|k: int|
                0 <= k < pos@.len() ==> (#[trigger] pos@[k]).0 as int == scan(text@).keys[k].0 && pos@[k].1
                    as int == scan(text@).keys[k].1 && pos@[k].0 < pos@[k].1 <= text@.len(),
            r@.len() == j,
            forall|k: int|
                0 <= k < j ==> match #[trigger] r@[k] {
                    Some(n) => field_names(text@)[k] == Some(n@),
                    None => field_names(text@)[k] is None,
                },
        decreases pos@.len() - j,
    {
        let (a, b) = pos[j];
        let token = text.substring_char(a, b);
        let name = match json_parse(token) {
            Ok(v) => json_as_str(&v),
            Err(_) => None,
        };
        assert(field_names(text@)[j as int] == token_name(text@, scan(text@).keys[j as int]));
        r.push(name);
        j = j + 1;
    }
    assert(names_view(r@) =~= field_names(text@)) by {
        assert forall|k: int| 0 <= k < r@.len() implies names_view(r@)[k] == field_names(text@)[k] by {
            match r@[k] {
                Some(n) => {},
                None => {},
            }
        }
    }
    r
}

/// How many of `names` are `name`.
pub fn count_name(names: &Vec<Option<String>>, name: &str) -> (r: usize)
    ensures
        r == name_count(names_view(names@), name@),
{
    let ghost view = names_view(names@);
    let mut r: usize = 0;
    let mut i: usize = 0;
    assert(view.take(0) =~= Seq::<Option<Seq<char>>>::empty());
    while i < names.len()
        invariant
            i <= names@.len(),
            view.len() == names@.len(),
            view == names_view(names@),
            r == name_count(view.take(i as int), name@),
            r <= i,
        decreases names@.len() - i,
    {
        assert(view.take(i + 1).drop_last() =~= view.take(i as int));
        let hit = match &names[i] {
            Some(n) => crate::text::str_eq(n.as_str(), name),
            None => false,
        };
        assert(view.take(i + 1).last() == view[i as int]);
        if hit {
            r = r + 1;
        }
        i = i + 1;
    }
    assert(view.take(i as int) =~= view);
    r
}

} // verus!
