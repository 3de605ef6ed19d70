//! Case-insensitive filtering of records for the presentation layer: the
//! query matches a record when it occurs in the lowercased name or
//! description.

use vstd::prelude::*;

use crate::dataset::Crates;

verus! {

/// What lowercasing a string yields.  The mapping itself is the standard
/// library's business; contracts only carry it by name.
pub uninterp spec fn lower_of(s: Seq<char>) -> Seq<char>;

/// Relies on str::to_lowercase: the result depends on the characters
/// alone, and an empty string stays empty.
#[verifier::external_body]
fn lowercase(s: &str) -> (r: String)
    ensures
        r@ == lower_of(s@),
        s@.len() == 0 ==> r@.len() == 0,
{
    s.to_lowercase()
}

/// Whether `n` occurs in `h` as a contiguous run.
pub open spec fn spec_contains(h: Seq<char>, n: Seq<char>) -> bool {
    exists|i: int|
        0 <= i && i + n.len() <= h.len() && #[trigger] h.subrange(i, i + n.len()) == n
}

/// Whether the needle stands at position `i` of the haystack.
fn needle_at(h: &str, n: &str, i: usize) -> (r: bool)
    requires
        i + n@.len() <= h@.len(),
        h@.len() <= usize::MAX,
    ensures
        r == (h@.subrange(i as int, i as int + n@.len() as int) == n@),
{
    let nl = n.unicode_len();
    let mut j: usize = 0;
    while j < nl
        invariant
            j <= nl,
            i + nl <= h@.len(),
            h@.len() <= usize::MAX,
            nl == n@.len(),
            forall|jj: int| 0 <= jj < j ==> h@[i + jj] == n@[jj],
        decreases nl - j,
    {
        if h.get_char(i + j) != n.get_char(j) {
            proof {
                assert(h@.subrange(i as int, i as int + n@.len() as int)[j as int] == h@[i + j]);
            }
            return false;
        }
        j = j + 1;
    }
    proof {
        assert(h@.subrange(i as int, i as int + n@.len() as int) =~= n@);
    }
    true
}

/// Whether the needle occurs in the haystack.
pub fn contains_sub(h: &str, n: &str) -> (r: bool)
    ensures
        r == spec_contains(h@, n@),
{
    let hl = h.unicode_len();
    let nl = n.unicode_len();
    if nl > hl {
        return false;
    }
    if nl == 0 {
        proof {
            assert(h@.subrange(0, 0 + n@.len() as int) =~= n@);
        }
        return true;
    }
    let mut i: usize = 0;
    while i <= hl - nl
        invariant
            1 <= nl <= hl,
            hl == h@.len(),
            nl == n@.len(),
            i <= hl - nl + 1,
            forall|ii: int| 0 <= ii < i ==> #[trigger] h@.subrange(ii, ii + n@.len()) != n@,
        decreases hl - nl + 1 - i,
    {
        if needle_at(h, n, i) {
            return true;
        }
        i = i + 1;
    }
    false
}

/// Whether the record matches an already-lowercased query: the query
/// occurs in the lowercased name, or the record has a description and the
/// query occurs in its lowercased text.
pub open spec fn spec_matches(c: Crates, ql: Seq<char>) -> bool {
    ||| spec_contains(lower_of(c.name@), ql)
    ||| (c.description matches Some(d) && spec_contains(lower_of(d@), ql))
}

/// Whether the record matches an already-lowercased query.
pub fn matches_query(c: &Crates, query_lower: &str) -> (r: bool)
    ensures
        r == spec_matches(*c, query_lower@),
{
    let name_l = lowercase(c.name.as_str());
    if contains_sub(name_l.as_str(), query_lower) {
        return true;
    }
    match &c.description {
        Some(d) => {
            let d_l = lowercase(d.as_str());
            contains_sub(d_l.as_str(), query_lower)
        },
        None => false,
    }
}

/// The records that match the lowered query, in their original order; no
/// query keeps them all.
pub open spec fn spec_filter(s: Seq<Crates>, ql: Option<Seq<char>>) -> Seq<Crates>
    decreases s.len(),
{
    if s.len() == 0 {
        Seq::empty()
    } else {
        let kept = match ql {
            Some(q) => spec_matches(s[0], q),
            None => true,
        };
        (if kept {
            seq![s[0]]
        } else {
            Seq::empty()
        }) + spec_filter(s.skip(1), ql)
    }
}

proof fn lemma_spec_filter_snoc(s: Seq<Crates>, x: Crates, ql: Option<Seq<char>>)
    ensures
        spec_filter(s.push(x), ql) == spec_filter(s, ql) + (if (match ql {
            Some(q) => spec_matches(x, q),
            None => true,
        }) {
            seq![x]
        } else {
            Seq::<Crates>::empty()
        }),
    decreases s.len(),
{
    let sx = s.push(x);
    let tail = if (match ql {
        Some(q) => spec_matches(x, q),
        None => true,
    }) {
        seq![x]
    } else {
        Seq::<Crates>::empty()
    };
    if s.len() == 0 {
        assert(sx[0] == x);
        assert(sx.skip(1) =~= Seq::<Crates>::empty());
        assert(spec_filter(sx.skip(1), ql) =~= Seq::<Crates>::empty());
        assert(spec_filter(sx, ql) =~= spec_filter(s, ql) + tail);
    } else {
        assert(sx[0] == s[0]);
        assert(sx.skip(1) =~= s.skip(1).push(x));
        lemma_spec_filter_snoc(s.skip(1), x, ql);
        assert(spec_filter(sx.skip(1), ql) == spec_filter(s.skip(1), ql) + tail);
        assert(spec_filter(sx, ql) =~= spec_filter(s, ql) + tail);
    }
}

/// The lowered query of an optional raw query.
pub open spec fn spec_query_view(query: Option<&String>) -> Option<Seq<char>> {
    match query {
        Some(q) => Some(lower_of(q@)),
        None => None,
    }
}

/// Filters the records by the query, ignoring case, and keeps at most
/// `limit` of the matches: the kept prefix, and how many matched in all.
pub fn filter_crates(crates: &Vec<Crates>, query: Option<&String>, limit: usize) -> (r: (
    Vec<Crates>,
    usize,
))
    ensures
        ({
            let ff = spec_filter(crates@, spec_query_view(query));
            &&& r.1 == ff.len()
            &&& r.0@ == ff.take(if limit <= ff.len() {
                limit as int
            } else {
                ff.len() as int
            })
        }),
{
    let ghost qv = spec_query_view(query);
    let query_lower: Option<String> = match query {
        Some(q) => Some(lowercase(q.as_str())),
        None => None,
    };
    let n = crates.len();
    let mut out: Vec<Crates> = Vec::new();
    let mut i: usize = 0;
    proof {
        assert(crates@.take(0) =~= Seq::<Crates>::empty());
        assert(out@ =~= spec_filter(crates@.take(0), qv));
    }
    while i < n
        invariant
            i <= n,
            n == crates@.len(),
            qv == spec_query_view(query),
            match (query, &query_lower) {
                (Some(q), Some(l)) => l@ == lower_of(q@),
                (None, None) => true,
                _ => false,
            },
            out@ == spec_filter(crates@.take(i as int), qv),
        decreases n - i,
    {
        let keep = match &query_lower {
            Some(l) => matches_query(&crates[i], l.as_str()),
            None => true,
        };
        proof {
            assert(crates@.take(i + 1) =~= crates@.take(i as int).push(crates@[i as int]));
            lemma_spec_filter_snoc(crates@.take(i as int), crates@[i as int], qv);
        }
        if keep {
            out.push(crates[i].duplicate());
            proof {
                assert(out@ =~= spec_filter(crates@.take(i + 1), qv));
            }
        } else {
            proof {
                assert(out@ + Seq::<Crates>::empty() =~= out@);
                assert(out@ =~= spec_filter(crates@.take(i + 1), qv));
            }
        }
        i = i + 1;
    }
    proof {
        assert(crates@.take(n as int) =~= crates@);
    }
    let total = out.len();
    out.truncate(limit);
    proof {
        let ff = spec_filter(crates@, qv);
        if limit <= ff.len() {
            assert(out@ =~= ff.take(limit as int));
        } else {
            assert(out@ =~= ff.take(ff.len() as int));
        }
    }
    (out, total)
}

} // verus!
