//! The cache file's format: one flat JSON object whose members map a URL
//! string to a fingerprint string.
//!
//! `write_entries` prints a list of pairs in that shape; `read_entries`
//! parses it back.  Both are proved against the spec-level printer and
//! parser below, and `lemma_print_parse_round_trip` shows that parsing a
//! printed list always yields the list itself.

use vstd::prelude::*;

use crate::etag::{pairs_view, Entry};

verus! {

/// How one character appears inside a JSON string literal: the quote and
/// the backslash get a backslash in front, everything else stands as
/// itself.
pub open spec fn esc_char(c: char) -> Seq<char> {
    if c == '"' || c == '\\' {
        seq!['\\', c]
    } else {
        seq![c]
    }
}

/// A whole string's characters, escaped.
pub open spec fn esc(s: Seq<char>) -> Seq<char>
    decreases s.len(),
{
    if s.len() == 0 {
        Seq::empty()
    } else {
        esc_char(s[0]) + esc(s.skip(1))
    }
}

/// One member: `"key":"value"`, both parts escaped.
pub open spec fn print_entry(e: Entry) -> Seq<char> {
    seq!['"'] + esc(e.0) + seq!['"', ':', '"'] + esc(e.1) + seq!['"']
}

/// The members, comma-separated.
pub open spec fn print_entries(es: Seq<Entry>) -> Seq<char>
    decreases es.len(),
{
    if es.len() == 0 {
        Seq::empty()
    } else if es.len() == 1 {
        print_entry(es[0])
    } else {
        print_entry(es[0]) + seq![','] + print_entries(es.skip(1))
    }
}

/// The whole object: members between braces.
pub open spec fn print_object(es: Seq<Entry>) -> Seq<char> {
    seq!['{'] + print_entries(es) + seq!['}']
}

/// JSON's whitespace between tokens.
pub open spec fn is_ws(c: char) -> bool {
    c == ' ' || c == '\t' || c == '\n' || c == '\r'
}

/// The first index at or after `i` holding something other than
/// whitespace, or the text's end.
pub open spec fn skip_ws(s: Seq<char>, i: int) -> int
    recommends
        0 <= i,
    decreases s.len() - i,
{
    if i < 0 {
        0
    } else if i >= s.len() {
        s.len() as int
    } else if is_ws(s[i]) {
        skip_ws(s, i + 1)
    } else {
        i
    }
}

/// Skipping whitespace only moves forward, and never past the end.
pub proof fn lemma_skip_ws_bounds(s: Seq<char>, i: int)
    requires
        0 <= i <= s.len(),
    ensures
        i <= skip_ws(s, i) <= s.len(),
    decreases s.len() - i,
{
    if i < s.len() && is_ws(s[i]) {
        lemma_skip_ws_bounds(s, i + 1);
    }
}

/// Parses the inside of a string literal starting at `i`, up to and past
/// its closing quote: the unescaped content and the index just after the
/// quote.  A backslash must be followed by a quote or a second backslash;
/// anything else malformed gives `None`.  Whitespace inside the quotes is
/// content, not separation.
pub open spec fn parse_string_body(s: Seq<char>, i: int) -> Option<(Seq<char>, int)>
    recommends
        0 <= i,
    decreases s.len() - i,
{
    if i < 0 || i >= s.len() {
        None
    } else if s[i] == '"' {
        Some((Seq::empty(), i + 1))
    } else if s[i] == '\\' {
        if i + 1 >= s.len() || !(s[i + 1] == '"' || s[i + 1] == '\\') {
            None
        } else {
            match parse_string_body(s, i + 2) {
                Some((rest, j)) => Some((seq![s[i + 1]] + rest, j)),
                None => None,
            }
        }
    } else {
        match parse_string_body(s, i + 1) {
            Some((rest, j)) => Some((seq![s[i]] + rest, j)),
            None => None,
        }
    }
}

/// The end index a successful string parse reports lies past its start and
/// within the text.
pub proof fn lemma_parse_string_body_bounds(s: Seq<char>, i: int)
    ensures
        parse_string_body(s, i) matches Some(r) ==> i < r.1 <= s.len(),
    decreases s.len() - i,
{
    if 0 <= i < s.len() {
        if s[i] == '\\' {
            if i + 1 < s.len() && (s[i + 1] == '"' || s[i + 1] == '\\') {
                lemma_parse_string_body_bounds(s, i + 2);
            }
        } else if s[i] != '"' {
            lemma_parse_string_body_bounds(s, i + 1);
        }
    }
}

/// Parses the members of the object from `i` on, consuming the final `}`:
/// the pairs, and the index just after that brace.  Whitespace may stand
/// around every token.  The member list must be non-empty; the empty
/// object is handled by `parse_object`.
pub open spec fn parse_members(s: Seq<char>, i: int) -> Option<(Seq<Entry>, int)>
    recommends
        0 <= i <= s.len(),
    decreases s.len() - i,
    when 0 <= i <= s.len()
    via parse_members_decreases
{
    let i2 = skip_ws(s, i);
    if i2 >= s.len() || s[i2] != '"' {
        None
    } else {
        match parse_string_body(s, i2 + 1) {
            None => None,
            Some((key, j0)) => {
                let j = skip_ws(s, j0);
                if j >= s.len() || s[j] != ':' {
                    None
                } else {
                    let v = skip_ws(s, j + 1);
                    if v >= s.len() || s[v] != '"' {
                        None
                    } else {
                        match parse_string_body(s, v + 1) {
                            None => None,
                            Some((val, m0)) => {
                                let m = skip_ws(s, m0);
                                if m >= s.len() {
                                    None
                                } else if s[m] == '}' {
                                    Some((seq![(key, val)], m + 1))
                                } else if s[m] == ',' {
                                    match parse_members(s, m + 1) {
                                        Some((more, e)) => Some((seq![(key, val)] + more, e)),
                                        None => None,
                                    }
                                } else {
                                    None
                                }
                            },
                        }
                    }
                }
            },
        }
    }
}

#[via_fn]
proof fn parse_members_decreases(s: Seq<char>, i: int) {
    if 0 <= i <= s.len() {
        lemma_skip_ws_bounds(s, i);
        let i2 = skip_ws(s, i);
        if i2 < s.len() && s[i2] == '"' {
            lemma_parse_string_body_bounds(s, i2 + 1);
            if let Some((key, j0)) = parse_string_body(s, i2 + 1) {
                lemma_skip_ws_bounds(s, j0);
                let j = skip_ws(s, j0);
                if j < s.len() {
                    lemma_skip_ws_bounds(s, j + 1);
                    let v = skip_ws(s, j + 1);
                    if v < s.len() {
                        lemma_parse_string_body_bounds(s, v + 1);
                        if let Some((val, m0)) = parse_string_body(s, v + 1) {
                            lemma_skip_ws_bounds(s, m0);
                        }
                    }
                }
            }
        }
    }
}

/// Parses the whole text as one object: one brace-enclosed member list,
/// with nothing but whitespace around it.
pub open spec fn parse_object(s: Seq<char>) -> Option<Seq<Entry>> {
    let start = skip_ws(s, 0);
    if start >= s.len() || s[start] != '{' {
        None
    } else {
        let inner = skip_ws(s, start + 1);
        if inner < s.len() && s[inner] == '}' {
            if skip_ws(s, inner + 1) == s.len() {
                Some(Seq::empty())
            } else {
                None
            }
        } else {
            match parse_members(s, start + 1) {
                Some((es, e)) => {
                    if skip_ws(s, e) == s.len() {
                        Some(es)
                    } else {
                        None
                    }
                },
                None => None,
            }
        }
    }
}

/// Escaping distributes over concatenation.
pub proof fn lemma_esc_append(a: Seq<char>, b: Seq<char>)
    ensures
        esc(a + b) == esc(a) + esc(b),
    decreases a.len(),
{
    if a.len() == 0 {
        assert(a + b =~= b);
        assert(esc(a) + esc(b) =~= esc(b));
    } else {
        assert((a + b)[0] == a[0]);
        assert((a + b).skip(1) =~= a.skip(1) + b);
        lemma_esc_append(a.skip(1), b);
        assert(esc(a + b) =~= esc(a) + esc(b));
    }
}

/// Parsing a string literal whose content was printed by `esc` yields the
/// content back and stops just past the closing quote, whatever stands
/// before and after.
proof fn lemma_parse_printed_string(pre: Seq<char>, content: Seq<char>, rest: Seq<char>)
    ensures
        parse_string_body(pre + esc(content) + seq!['"'] + rest, pre.len() as int) == Some(
            (content, pre.len() as int + esc(content).len() + 1),
        ),
    decreases content.len(),
{
    let s = pre + esc(content) + seq!['"'] + rest;
    if content.len() == 0 {
        assert(esc(content) =~= Seq::<char>::empty());
        assert(s[pre.len() as int] == '"');
    } else {
        let c = content[0];
        let tail = content.skip(1);
        assert(esc(content) == esc_char(c) + esc(tail));
        if c == '"' || c == '\\' {
            assert(s[pre.len() as int] == '\\');
            assert(s[pre.len() as int + 1] == c);
            let pre2 = pre + seq!['\\', c];
            lemma_parse_printed_string(pre2, tail, rest);
            assert(pre2 + esc(tail) + seq!['"'] + rest =~= s);
            assert(parse_string_body(s, pre.len() as int + 2) == Some(
                (tail, pre.len() as int + 2 + esc(tail).len() + 1),
            ));
            assert(seq![c] + tail =~= content);
        } else {
            assert(s[pre.len() as int] == c);
            let pre2 = pre + seq![c];
            lemma_parse_printed_string(pre2, tail, rest);
            assert(pre2 + esc(tail) + seq!['"'] + rest =~= s);
            assert(parse_string_body(s, pre.len() as int + 1) == Some(
                (tail, pre.len() as int + 1 + esc(tail).len() + 1),
            ));
            assert(seq![c] + tail =~= content);
        }
    }
}

/// Walking one printed member: the key literal parses back to the key, the
/// colon and the value's opening quote stand where expected, and the value
/// literal parses back to the value, ending exactly where the printed
/// member ends.
proof fn lemma_parse_printed_entry(pre: Seq<char>, e: Entry, rest: Seq<char>)
    ensures
        ({
            let s = pre + print_entry(e) + rest;
            let j = pre.len() as int + 2 + esc(e.0).len();
            let m = pre.len() as int + print_entry(e).len();
            &&& s[pre.len() as int] == '"'
            &&& parse_string_body(s, pre.len() as int + 1) == Some((e.0, j))
            &&& s[j] == ':'
            &&& s[j + 1] == '"'
            &&& j + 1 < s.len()
            &&& parse_string_body(s, j + 2) == Some((e.1, m))
        }),
{
    let s = pre + print_entry(e) + rest;
    let k = e.0;
    let v = e.1;
    let j = pre.len() as int + 2 + esc(k).len();
    assert(s[pre.len() as int] == '"');
    let pre_k = pre + seq!['"'];
    let rest_k = seq![':', '"'] + esc(v) + seq!['"'] + rest;
    assert(pre_k + esc(k) + seq!['"'] + rest_k =~= s);
    lemma_parse_printed_string(pre_k, k, rest_k);
    assert(parse_string_body(s, pre.len() as int + 1) == Some((k, j)));
    assert(s[j] == ':');
    assert(s[j + 1] == '"');
    let pre_v = pre_k + esc(k) + seq!['"', ':', '"'];
    assert(pre_v + esc(v) + seq!['"'] + rest =~= s);
    assert(pre_v.len() == j + 2);
    lemma_parse_printed_string(pre_v, v, rest);
    assert(parse_string_body(s, j + 2) == Some((v, j + 2 + esc(v).len() + 1)));
    assert(j + 2 + esc(v).len() + 1 == pre.len() as int + print_entry(e).len());
}

/// Parsing a printed member list followed by the closing brace yields the
/// list back and stops just past the brace, whatever stands before and
/// after.
proof fn lemma_parse_printed_members(pre: Seq<char>, es: Seq<Entry>, rest: Seq<char>)
    requires
        es.len() >= 1,
    ensures
        parse_members(pre + print_entries(es) + seq!['}'] + rest, pre.len() as int) == Some(
            (es, pre.len() as int + print_entries(es).len() + 1),
        ),
    decreases es.len(),
{
    let s = pre + print_entries(es) + seq!['}'] + rest;
    let e = es[0];
    let j = pre.len() as int + 2 + esc(e.0).len();
    let m = pre.len() as int + print_entry(e).len();
    if es.len() == 1 {
        assert(print_entries(es) == print_entry(e));
        assert(pre + print_entry(e) + (seq!['}'] + rest) =~= s);
        lemma_parse_printed_entry(pre, e, seq!['}'] + rest);
        assert(skip_ws(s, pre.len() as int) == pre.len());
        assert(skip_ws(s, j) == j);
        assert(skip_ws(s, j + 1) == j + 1);
        assert(skip_ws(s, m) == m);
        assert(s[m] == '}');
        assert(seq![(e.0, e.1)] =~= es);
        assert(m + 1 == pre.len() as int + print_entries(es).len() + 1);
    } else {
        assert(print_entries(es) == print_entry(e) + seq![','] + print_entries(es.skip(1)));
        let after = seq![','] + print_entries(es.skip(1)) + seq!['}'] + rest;
        assert(pre + print_entry(e) + after =~= s);
        lemma_parse_printed_entry(pre, e, after);
        assert(skip_ws(s, pre.len() as int) == pre.len());
        assert(skip_ws(s, j) == j);
        assert(skip_ws(s, j + 1) == j + 1);
        assert(skip_ws(s, m) == m);
        assert(s[m] == ',');
        let pre_t = pre + print_entry(e) + seq![','];
        assert(pre_t + print_entries(es.skip(1)) + seq!['}'] + rest =~= s);
        assert(pre_t.len() == m + 1);
        lemma_parse_printed_members(pre_t, es.skip(1), rest);
        assert(parse_members(s, m + 1) == Some(
            (es.skip(1), m + 1 + print_entries(es.skip(1)).len() + 1),
        ));
        assert(seq![(e.0, e.1)] + es.skip(1) =~= es);
        assert(m + 1 + print_entries(es.skip(1)).len() + 1 == pre.len() as int + print_entries(
            es,
        ).len() + 1);
    }
}

/// A printed member list splits at any member boundary.
proof fn lemma_print_entries_append(a: Seq<Entry>, b: Seq<Entry>)
    requires
        a.len() >= 1,
        b.len() >= 1,
    ensures
        print_entries(a + b) == print_entries(a) + seq![','] + print_entries(b),
    decreases a.len(),
{
    let ab = a + b;
    assert(ab[0] == a[0]);
    if a.len() == 1 {
        assert(ab.skip(1) =~= b);
        assert(print_entries(ab) == print_entry(ab[0]) + seq![','] + print_entries(ab.skip(1)));
        assert(print_entries(a) == print_entry(a[0]));
    } else {
        assert(ab.skip(1) =~= a.skip(1) + b);
        lemma_print_entries_append(a.skip(1), b);
        assert(print_entries(ab) == print_entry(ab[0]) + seq![','] + print_entries(ab.skip(1)));
        assert(print_entries(a) == print_entry(a[0]) + seq![','] + print_entries(a.skip(1)));
        assert(print_entries(a) + seq![','] + print_entries(b) =~= print_entry(a[0]) + seq![',']
            + (print_entries(a.skip(1)) + seq![','] + print_entries(b)));
    }
}

/// Appending one member to a printed list appends its text, with a comma
/// when the list was not empty.
proof fn lemma_print_entries_snoc(es: Seq<Entry>, i: int)
    requires
        0 <= i < es.len(),
    ensures
        i == 0 ==> print_entries(es.take(1)) == print_entry(es[0]),
        i > 0 ==> print_entries(es.take(i + 1)) == print_entries(es.take(i)) + seq![',']
            + print_entry(es[i]),
{
    if i == 0 {
        assert(es.take(1)[0] == es[0]);
        assert(es.take(1).len() == 1);
    } else {
        assert(es.take(i + 1) =~= es.take(i) + seq![es[i]]);
        lemma_print_entries_append(es.take(i), seq![es[i]]);
        assert(print_entries(seq![es[i]]) == print_entry(es[i]));
    }
}

/// Round trip of the file format: parsing a printed object yields exactly
/// the printed pairs, for every list of pairs.
pub proof fn lemma_print_parse_round_trip(es: Seq<Entry>)
    ensures
        parse_object(print_object(es)) == Some(es),
{
    let s = print_object(es);
    if es.len() == 0 {
        assert(print_entries(es) =~= Seq::<char>::empty());
        assert(s =~= seq!['{', '}']);
        assert(s[0] == '{' && s[1] == '}');
        assert(skip_ws(s, 0) == 0);
        assert(skip_ws(s, 1) == 1);
        assert(skip_ws(s, 2) == 2);
        assert(parse_object(s) == Some(es));
    } else {
        assert(s[0] == '{');
        assert(s[1] == '"') by {
            assert(print_entry(es[0])[0] == '"');
            assert(print_entries(es)[0] == '"');
            assert(s[1] == print_entries(es)[0]);
        }
        assert(skip_ws(s, 0) == 0);
        assert(skip_ws(s, 1) == 1);
        let pre = seq!['{'];
        assert(pre + print_entries(es) + seq!['}'] + Seq::<char>::empty() =~= s);
        lemma_parse_printed_members(pre, es, Seq::empty());
        assert(parse_members(s, 1) == Some((es, 1 + print_entries(es).len() as int + 1)));
        assert(1 + print_entries(es).len() as int + 1 == s.len());
        assert(skip_ws(s, s.len() as int) == s.len());
    }
}

/// Prints one string with its characters escaped.
fn escape_str(s: &str) -> (r: String)
    ensures
        r@ == esc(s@),
{
    let n = s.unicode_len();
    let mut out = String::new();
    let mut i: usize = 0;
    proof {
        assert(s@.take(0) =~= Seq::<char>::empty());
    }
    while i < n
        invariant
            i <= n,
            n == s@.len(),
            out@ == esc(s@.take(i as int)),
        decreases n - i,
    {
        let c = s.get_char(i);
        if c == '"' || c == '\\' {
            out.append("\\");
            proof {
                reveal_strlit("\\");
            }
        }
        out.append(s.substring_char(i, i + 1));
        proof {
            let ghost pref = s@.take(i as int);
            assert(s@.take(i + 1) =~= pref + seq![s@[i as int]]);
            lemma_esc_append(pref, seq![s@[i as int]]);
            let ghost one = seq![s@[i as int]];
            assert(one.len() == 1 && one[0] == s@[i as int]);
            assert(one.skip(1) =~= Seq::<char>::empty());
            assert(esc(one.skip(1)).len() == 0);
            assert(esc(one) == esc_char(one[0]) + esc(one.skip(1)));
            assert(esc(one) =~= esc_char(s@[i as int]));
            assert(s@.subrange(i as int, i + 1) =~= seq![s@[i as int]]);
            assert(out@ =~= esc(s@.take(i + 1)));
        }
        i = i + 1;
    }
    proof {
        assert(s@.take(n as int) =~= s@);
    }
    out
}

/// Prints a list of pairs as the cache file's one JSON object.
pub fn write_entries(entries: &Vec<(String, String)>) -> (r: String)
    ensures
        r@ == print_object(pairs_view(entries@)),
{
    let ghost es = pairs_view(entries@);
    let n = entries.len();
    let mut out = String::new();
    out.append("{");
    proof {
        reveal_strlit("{");
        assert(es.take(0) =~= Seq::<Entry>::empty());
        assert(out@ =~= seq!['{'] + print_entries(es.take(0)));
    }
    let mut i: usize = 0;
    while i < n
        invariant
            i <= n,
            n == entries@.len(),
            es == pairs_view(entries@),
            out@ == seq!['{'] + print_entries(es.take(i as int)),
        decreases n - i,
    {
        if i > 0 {
            out.append(",");
            proof {
                reveal_strlit(",");
            }
        }
        out.append("\"");
        let key_esc = escape_str(entries[i].0.as_str());
        out.append(key_esc.as_str());
        out.append("\":\"");
        let val_esc = escape_str(entries[i].1.as_str());
        out.append(val_esc.as_str());
        out.append("\"");
        proof {
            reveal_strlit("\"");
            reveal_strlit("\":\"");
            lemma_print_entries_snoc(es, i as int);
            assert(es[i as int] == (entries@[i as int].0@, entries@[i as int].1@));
            assert(out@ =~= seq!['{'] + print_entries(es.take(i + 1)));
        }
        i = i + 1;
    }
    out.append("}");
    proof {
        reveal_strlit("}");
        assert(es.take(n as int) =~= es);
        assert(out@ =~= print_object(es));
    }
    out
}

/// Parses one string literal's inside from `start`, mirroring
/// `parse_string_body`.
fn parse_string_at(s: &str, start: usize) -> (r: Option<(String, usize)>)
    ensures
        match r {
            Some(p) => parse_string_body(s@, start as int) == Some((p.0@, p.1 as int)) && start
                < p.1 <= s@.len(),
            None => parse_string_body(s@, start as int) is None,
        },
{
    let n = s.unicode_len();
    let mut acc = String::new();
    let mut i: usize = start;
    proof {
        if let Some(p) = parse_string_body(s@, start as int) {
            assert(Seq::<char>::empty() + p.0 =~= p.0);
        }
    }
    loop
        invariant
            start <= i,
            n == s@.len(),
            match parse_string_body(s@, i as int) {
                Some(p) => parse_string_body(s@, start as int) == Some((acc@ + p.0, p.1)),
                None => parse_string_body(s@, start as int) is None,
            },
        decreases s@.len() - i,
    {
        proof {
            lemma_parse_string_body_bounds(s@, start as int);
        }
        if i >= n {
            return None;
        }
        let c = s.get_char(i);
        if c == '"' {
            proof {
                assert(acc@ + Seq::<char>::empty() =~= acc@);
            }
            return Some((acc, i + 1));
        }
        if c == '\\' {
            if i + 1 >= n {
                return None;
            }
            let c2 = s.get_char(i + 1);
            if !(c2 == '"' || c2 == '\\') {
                return None;
            }
            let ghost acc0 = acc@;
            acc.append(s.substring_char(i + 1, i + 2));
            proof {
                assert(s@.subrange(i + 1, i + 2) =~= seq![s@[i + 1]]);
                assert(acc@ == acc0 + seq![s@[i + 1]]);
                if let Some((rest, j)) = parse_string_body(s@, i + 2) {
                    assert(parse_string_body(s@, i as int) == Some((seq![s@[i + 1]] + rest, j)));
                    assert(acc0 + (seq![s@[i + 1]] + rest) =~= acc@ + rest);
                }
            }
            i = i + 2;
        } else {
            let ghost acc0 = acc@;
            acc.append(s.substring_char(i, i + 1));
            proof {
                assert(s@.subrange(i as int, i + 1) =~= seq![s@[i as int]]);
                assert(acc@ == acc0 + seq![s@[i as int]]);
                if let Some((rest, j)) = parse_string_body(s@, i + 1) {
                    assert(parse_string_body(s@, i as int) == Some((seq![s@[i as int]] + rest, j)));
                    assert(acc0 + (seq![s@[i as int]] + rest) =~= acc@ + rest);
                }
            }
            i = i + 1;
        }
    }
}

/// The first non-whitespace position at or after `from`.
fn skip_ws_at(s: &str, from: usize) -> (r: usize)
    requires
        from <= s@.len(),
    ensures
        r == skip_ws(s@, from as int),
        from <= r <= s@.len(),
{
    let n = s.unicode_len();
    let mut j: usize = from;
    while j < n
        invariant
            from <= j <= n,
            n == s@.len(),
            skip_ws(s@, from as int) == skip_ws(s@, j as int),
        decreases n - j,
    {
        let c = s.get_char(j);
        if !(c == ' ' || c == '\t' || c == '\n' || c == '\r') {
            return j;
        }
        j = j + 1;
    }
    n
}

/// Parses the member list from `start`, mirroring `parse_members`.
fn parse_members_at(s: &str, start: usize) -> (r: Option<(Vec<(String, String)>, usize)>)
    requires
        start <= s@.len(),
    ensures
        match r {
            Some(p) => parse_members(s@, start as int) == Some((pairs_view(p.0@), p.1 as int))
                && p.1 <= s@.len(),
            None => parse_members(s@, start as int) is None,
        },
{
    let n = s.unicode_len();
    let mut acc: Vec<(String, String)> = Vec::new();
    let mut i: usize = start;
    proof {
        if let Some(p) = parse_members(s@, start as int) {
            assert(pairs_view(acc@) + p.0 =~= p.0);
        }
    }
    loop
        invariant
            start <= i <= n,
            n == s@.len(),
            match parse_members(s@, i as int) {
                Some(p) => parse_members(s@, start as int) == Some((pairs_view(acc@) + p.0, p.1)),
                None => parse_members(s@, start as int) is None,
            },
        decreases s@.len() - i,
    {
        let i2 = skip_ws_at(s, i);
        if i2 >= n {
            return None;
        }
        if s.get_char(i2) != '"' {
            return None;
        }
        let key;
        let j0;
        match parse_string_at(s, i2 + 1) {
            None => {
                return None;
            },
            Some(p) => {
                key = p.0;
                j0 = p.1;
            },
        }
        let j = skip_ws_at(s, j0);
        if j >= n || s.get_char(j) != ':' {
            return None;
        }
        let v = skip_ws_at(s, j + 1);
        if v >= n || s.get_char(v) != '"' {
            return None;
        }
        let val;
        let m0;
        match parse_string_at(s, v + 1) {
            None => {
                return None;
            },
            Some(p) => {
                val = p.0;
                m0 = p.1;
            },
        }
        let m = skip_ws_at(s, m0);
        if m >= n {
            return None;
        }
        let cm = s.get_char(m);
        if cm == '}' {
            let ghost kv = (key@, val@);
            let ghost acc0 = acc@;
            acc.push((key, val));
            proof {
                assert(parse_members(s@, i as int) == Some((seq![kv], m + 1)));
                assert(pairs_view(acc@) =~= pairs_view(acc0) + seq![kv]);
                if let Some(p) = parse_members(s@, start as int) {
                    assert(pairs_view(acc0) + seq![kv] =~= p.0);
                }
            }
            return Some((acc, m + 1));
        }
        if cm == ',' {
            let ghost kv = (key@, val@);
            let ghost acc0 = acc@;
            acc.push((key, val));
            proof {
                assert(pairs_view(acc@) =~= pairs_view(acc0) + seq![kv]);
                if let Some((more, e)) = parse_members(s@, m + 1) {
                    assert(parse_members(s@, i as int) == Some((seq![kv] + more, e)));
                    assert(pairs_view(acc0) + (seq![kv] + more) =~= pairs_view(acc@) + more);
                }
            }
            i = m + 1;
        } else {
            return None;
        }
    }
}

/// Parses the cache file's text: the pairs of the one JSON object it
/// holds, or nothing when the text is not such an object.
pub fn read_entries(s: &str) -> (r: Option<Vec<(String, String)>>)
    ensures
        match r {
            Some(v) => parse_object(s@) == Some(pairs_view(v@)),
            None => parse_object(s@) is None,
        },
{
    let n = s.unicode_len();
    let start = skip_ws_at(s, 0);
    if start >= n {
        return None;
    }
    if s.get_char(start) != '{' {
        return None;
    }
    let inner = skip_ws_at(s, start + 1);
    if inner < n && s.get_char(inner) == '}' {
        if skip_ws_at(s, inner + 1) == n {
            let empty: Vec<(String, String)> = Vec::new();
            proof {
                assert(pairs_view(empty@) =~= Seq::<Entry>::empty());
            }
            return Some(empty);
        }
        return None;
    }
    match parse_members_at(s, start + 1) {
        None => None,
        Some((v, e)) => {
            if skip_ws_at(s, e) == n {
                Some(v)
            } else {
                None
            }
        },
    }
}

} // verus!
