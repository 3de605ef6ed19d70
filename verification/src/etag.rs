//! The persisted mapping from request URL to the server's last-seen ETag
//! fingerprint.
//!
//! The mapping is held as a list of pairs with pairwise distinct keys; the
//! value of a key is given by `spec_lookup`.  Reading and writing the
//! backing file is the caller's business: the cache converts itself to and
//! from the file's text (see `to_json` and `from_json`).

use vstd::prelude::*;

use crate::codec::{
    lemma_print_parse_round_trip, parse_object, print_object, read_entries, write_entries,
};
use crate::text::str_eq;

verus! {

/// One stored pair: a request URL and the fingerprint last seen for it.
pub type Entry = (Seq<char>, Seq<char>);

/// The fingerprint stored for `key` in `es`: the value of the first pair
/// whose key matches, if any.
pub open spec fn spec_lookup(es: Seq<Entry>, key: Seq<char>) -> Option<Seq<char>>
    decreases es.len(),
{
    if es.len() == 0 {
        None
    } else if es[0].0 == key {
        Some(es[0].1)
    } else {
        spec_lookup(es.skip(1), key)
    }
}

/// Pairwise distinct keys.
pub open spec fn unique_keys(es: Seq<Entry>) -> bool {
    forall|i: int, j: int| 0 <= i < j < es.len() ==> es[i].0 != es[j].0
}

/// The mathematical content of a list of string pairs.
pub open spec fn pairs_view(ps: Seq<(String, String)>) -> Seq<Entry> {
    Seq::new(ps.len(), |i: int| (ps[i].0@, ps[i].1@))
}

/// In-memory ETag cache: URL to fingerprint, distinct URLs.
pub struct ETagCache {
    pub entries: Vec<(String, String)>,
}

impl ETagCache {
    /// The mathematical content of the cache: its pairs, as char sequences,
    /// in storage order.
    pub open spec fn view_entries(&self) -> Seq<Entry> {
        pairs_view(self.entries@)
    }

    /// A well-formed cache holds each URL at most once.
    pub open spec fn wf(&self) -> bool {
        unique_keys(self.view_entries())
    }

    /// An empty cache.
    pub fn new() -> (c: ETagCache)
        ensures
            c.wf(),
            c.view_entries() == Seq::<Entry>::empty(),
    {
        let c = ETagCache { entries: Vec::new() };
        proof {
            assert(c.view_entries() =~= Seq::<Entry>::empty());
        }
        c
    }

    /// The fingerprint stored for `url`, if any.
    pub fn get(&self, url: &str) -> (r: Option<String>)
        ensures
            match r {
                Some(f) => spec_lookup(self.view_entries(), url@) == Some(f@),
                None => spec_lookup(self.view_entries(), url@) is None,
            },
    {
        let ghost es = self.view_entries();
        let n = self.entries.len();
        let mut i: usize = 0;
        proof {
            assert(es.skip(0) =~= es);
        }
        while i < n
            invariant
                i <= n,
                n == self.entries@.len(),
                es == self.view_entries(),
                spec_lookup(es.skip(i as int), url@) == spec_lookup(es, url@),
            decreases n - i,
        {
            proof {
                assert(es.skip(i as int)[0] == es[i as int]);
                assert(es.skip(i as int).skip(1) =~= es.skip(i + 1));
            }
            if str_eq(self.entries[i].0.as_str(), url) {
                return Some(self.entries[i].1.clone());
            }
            i = i + 1;
        }
        proof {
            assert(es.skip(n as int) =~= Seq::<Entry>::empty());
        }
        None
    }

    /// Upserts the fingerprint for `url`: afterwards `url` maps to `etag`
    /// and every other URL maps to what it mapped to before.
    pub fn set(&mut self, url: &str, etag: &str)
        requires
            old(self).wf(),
        ensures
            final(self).wf(),
            spec_lookup(final(self).view_entries(), url@) == Some(etag@),
            forall|k: Seq<char>|
                k != url@ ==> spec_lookup(final(self).view_entries(), k) == spec_lookup(
                    old(self).view_entries(),
                    k,
                ),
    {
        let ghost es0 = self.view_entries();
        let n = self.entries.len();
        let mut i: usize = 0;
        while i < n
            invariant
                i <= n,
                n == self.entries@.len(),
                es0 == self.view_entries(),
                es0 == old(self).view_entries(),
                unique_keys(es0),
                forall|j: int| 0 <= j < i ==> es0[j].0 != url@,
            decreases n - i,
        {
            if str_eq(self.entries[i].0.as_str(), url) {
                proof {
                    assert(es0[i as int].0 == url@);
                }
                let pair = (url.to_owned(), etag.to_owned());
                self.entries[i] = pair;
                proof {
                    let es1 = self.view_entries();
                    assert(es1 =~= es0.update(i as int, (url@, etag@)));
                    lemma_lookup_update(es0, i as int, url@, etag@);
                    assert forall|k: Seq<char>| k != url@ implies spec_lookup(es1, k)
                        == spec_lookup(es0, k) by {
                        lemma_lookup_update_other(es0, i as int, url@, etag@, k);
                    }
                    assert forall|a: int, b: int| 0 <= a < b < es1.len() implies es1[a].0
                        != es1[b].0 by {
                        assert(es1[a].0 == es0[a].0);
                        assert(es1[b].0 == es0[b].0);
                    }
                }
                return ;
            }
            i = i + 1;
        }
        let pair = (url.to_owned(), etag.to_owned());
        self.entries.push(pair);
        proof {
            let es1 = self.view_entries();
            assert(es1 =~= es0.push((url@, etag@)));
            lemma_lookup_push_fresh(es0, url@, etag@);
            assert forall|k: Seq<char>| k != url@ implies spec_lookup(es1, k) == spec_lookup(
                es0,
                k,
            ) by {
                lemma_lookup_push_other(es0, url@, etag@, k);
            }
            assert forall|a: int, b: int| 0 <= a < b < es1.len() implies es1[a].0 != es1[b].0 by {
                if b < es0.len() {
                    assert(es1[a].0 == es0[a].0);
                    assert(es1[b].0 == es0[b].0);
                } else {
                    assert(es1[a].0 == es0[a].0);
                    assert(es1[b].0 == url@);
                }
            }
        }
    }
}

impl ETagCache {
    /// Prints the whole mapping as the cache file's text.
    pub fn to_json(&self) -> (r: String)
        ensures
            r@ == print_object(self.view_entries()),
    {
        write_entries(&self.entries)
    }

    /// Rebuilds a cache from the file's text.  Text that is not one
    /// well-formed object with distinct URLs — a missing, truncated or
    /// otherwise corrupt file — yields the empty cache rather than an
    /// error: the cost is only that everything is fetched afresh.
    pub fn from_json(text: &str) -> (c: ETagCache)
        ensures
            c.wf(),
            match parse_object(text@) {
                Some(es) => c.view_entries() == if unique_keys(es) {
                    es
                } else {
                    Seq::<Entry>::empty()
                },
                None => c.view_entries() == Seq::<Entry>::empty(),
            },
    {
        match read_entries(text) {
            Some(v) => {
                if keys_unique(&v) {
                    ETagCache { entries: v }
                } else {
                    ETagCache::new()
                }
            },
            None => ETagCache::new(),
        }
    }
}

/// Whether the keys of the pairs are pairwise distinct.
fn keys_unique(v: &Vec<(String, String)>) -> (r: bool)
    ensures
        r == unique_keys(pairs_view(v@)),
{
    let ghost pv = pairs_view(v@);
    let n = v.len();
    let mut i: usize = 0;
    while i < n
        invariant
            i <= n,
            n == v@.len(),
            pv == pairs_view(v@),
            forall|a: int, b: int| 0 <= a < b < n && a < i ==> pv[a].0 != pv[b].0,
        decreases n - i,
    {
        let mut j: usize = i + 1;
        while j < n
            invariant
                i < j <= n,
                i < n,
                n == v@.len(),
                pv == pairs_view(v@),
                forall|b: int| i < b < j ==> pv[i as int].0 != pv[b].0,
            decreases n - j,
        {
            if str_eq(v[i].0.as_str(), v[j].0.as_str()) {
                proof {
                    assert(pv[i as int].0 == pv[j as int].0);
                }
                return false;
            }
            j = j + 1;
        }
        i = i + 1;
    }
    true
}

/// Round trip of the cache file: printing any well-formed cache and
/// parsing the text back yields exactly the same mapping, the empty one
/// included.  Together with the contracts of `to_json` and `from_json`
/// this says that saving and then loading restores the cache.
pub proof fn lemma_cache_round_trip(c: ETagCache)
    requires
        c.wf(),
    ensures
        parse_object(print_object(c.view_entries())) == Some(c.view_entries()),
{
    lemma_print_parse_round_trip(c.view_entries());
}

/// Updating the pair at a position whose key is the target, when no earlier
/// pair has that key, makes the lookup of the target find the new value.
proof fn lemma_lookup_update(es: Seq<Entry>, i: int, key: Seq<char>, val: Seq<char>)
    requires
        0 <= i < es.len(),
        forall|j: int| 0 <= j < i ==> es[j].0 != key,
    ensures
        spec_lookup(es.update(i, (key, val)), key) == Some(val),
    decreases i,
{
    let es1 = es.update(i, (key, val));
    if i == 0 {
        assert(es1[0] == (key, val));
    } else {
        assert(es1[0] == es[0]);
        assert(es1.skip(1) =~= es.skip(1).update(i - 1, (key, val)));
        lemma_lookup_update(es.skip(1), i - 1, key, val);
    }
}

/// Updating a pair changes no lookup of a different key when the pair's old
/// and new keys both differ from it.
proof fn lemma_lookup_update_other(es: Seq<Entry>, i: int, key: Seq<char>, val: Seq<char>, k: Seq<char>)
    requires
        0 <= i < es.len(),
        es[i].0 == key,
        k != key,
    ensures
        spec_lookup(es.update(i, (key, val)), k) == spec_lookup(es, k),
    decreases i,
{
    let es1 = es.update(i, (key, val));
    if i == 0 {
        assert(es1[0] == (key, val));
        assert(es1.skip(1) =~= es.skip(1));
    } else {
        assert(es1[0] == es[0]);
        if es[0].0 != k {
            assert(es1.skip(1) =~= es.skip(1).update(i - 1, (key, val)));
            assert(es.skip(1)[i - 1] == es[i]);
            lemma_lookup_update_other(es.skip(1), i - 1, key, val, k);
        }
    }
}

/// Appending a pair whose key is absent makes that key map to the new
/// value.
proof fn lemma_lookup_push_fresh(es: Seq<Entry>, key: Seq<char>, val: Seq<char>)
    requires
        forall|j: int| 0 <= j < es.len() ==> es[j].0 != key,
    ensures
        spec_lookup(es.push((key, val)), key) == Some(val),
    decreases es.len(),
{
    let es1 = es.push((key, val));
    if es.len() == 0 {
        assert(es1[0] == (key, val));
    } else {
        assert(es1[0] == es[0]);
        assert(es1.skip(1) =~= es.skip(1).push((key, val)));
        lemma_lookup_push_fresh(es.skip(1), key, val);
    }
}

/// Appending a pair leaves the lookup of every other key as it was.
proof fn lemma_lookup_push_other(es: Seq<Entry>, key: Seq<char>, val: Seq<char>, k: Seq<char>)
    requires
        k != key,
    ensures
        spec_lookup(es.push((key, val)), k) == spec_lookup(es, k),
    decreases es.len(),
{
    let es1 = es.push((key, val));
    if es.len() == 0 {
        assert(es1.len() == 1);
        assert(es1[0] == (key, val));
        assert(es1[0].0 == key);
        assert(es1.skip(1) =~= Seq::<Entry>::empty());
        assert(spec_lookup(es1.skip(1), k) is None);
        assert(spec_lookup(es1, k) is None);
        assert(spec_lookup(es, k) is None);
    } else {
        assert(es1[0] == es[0]);
        assert(es1.skip(1) =~= es.skip(1).push((key, val)));
        lemma_lookup_push_other(es.skip(1), key, val, k);
        if es[0].0 == k {
            assert(spec_lookup(es1, k) == Some(es1[0].1));
            assert(spec_lookup(es, k) == Some(es[0].1));
        } else {
            assert(spec_lookup(es1, k) == spec_lookup(es1.skip(1), k));
            assert(spec_lookup(es, k) == spec_lookup(es.skip(1), k));
        }
    }
}

} // verus!
