//! Extraction of `(owner, repo)` from a GitHub repository URL.
//!
//! Accepted are the common forms — `https://github.com/owner/repo`,
//! `https://www.github.com/owner/repo.git`, `git@github.com:owner/repo.git`
//! — by looking for the first place where `github.com` (any case) is
//! followed by `:` or `/`, an owner up to the next slash, and a repo name
//! cut at the first slash or dot.

use vstd::prelude::*;

verus! {

/// The ten characters of `github.com`, case-insensitively, at `i`.
pub open spec fn host_at(s: Seq<char>, i: int) -> bool {
    &&& 0 <= i
    &&& i + 10 <= s.len()
    &&& (s[i] == 'g' || s[i] == 'G')
    &&& (s[i + 1] == 'i' || s[i + 1] == 'I')
    &&& (s[i + 2] == 't' || s[i + 2] == 'T')
    &&& (s[i + 3] == 'h' || s[i + 3] == 'H')
    &&& (s[i + 4] == 'u' || s[i + 4] == 'U')
    &&& (s[i + 5] == 'b' || s[i + 5] == 'B')
    &&& s[i + 6] == '.'
    &&& (s[i + 7] == 'c' || s[i + 7] == 'C')
    &&& (s[i + 8] == 'o' || s[i + 8] == 'O')
    &&& (s[i + 9] == 'm' || s[i + 9] == 'M')
}

/// What may separate the host from the owner.
pub open spec fn sep_ok(c: char) -> bool {
    c == ':' || c == '/'
}

/// What ends a repo name.
pub open spec fn stop_char(c: char) -> bool {
    c == '/' || c == '.'
}

/// The least index at or after `j` holding a slash.
pub open spec fn first_slash_from(s: Seq<char>, j: int) -> Option<int>
    decreases s.len() - j,
{
    if j < 0 || j >= s.len() {
        None
    } else if s[j] == '/' {
        Some(j)
    } else {
        first_slash_from(s, j + 1)
    }
}

/// The least index at or after `j` holding a slash or a dot, or the text's
/// end.
pub open spec fn first_stop_from(s: Seq<char>, j: int) -> int
    decreases s.len() - j,
{
    if j >= s.len() {
        s.len() as int
    } else if stop_char(s[j]) {
        j
    } else {
        first_stop_from(s, j + 1)
    }
}

/// Whether a whole repository reference stands at `i`: the host, a
/// separator, a non-empty owner ending at a slash, and at least one repo
/// character that is neither slash nor dot.
pub open spec fn match_at(s: Seq<char>, i: int) -> bool {
    &&& host_at(s, i)
    &&& i + 10 < s.len()
    &&& sep_ok(s[i + 10])
    &&& match first_slash_from(s, i + 11) {
        Some(k) => k > i + 11 && k + 1 < s.len() && !stop_char(s[k + 1]),
        None => false,
    }
}

/// The owner the match at `i` captures.
pub open spec fn owner_of(s: Seq<char>, i: int) -> Seq<char> {
    match first_slash_from(s, i + 11) {
        Some(k) => s.subrange(i + 11, k),
        None => Seq::empty(),
    }
}

/// The repo name the match at `i` captures.
pub open spec fn repo_of(s: Seq<char>, i: int) -> Seq<char> {
    match first_slash_from(s, i + 11) {
        Some(k) => s.subrange(k + 1, first_stop_from(s, k + 1)),
        None => Seq::empty(),
    }
}

/// The least position at or after `i` where a reference matches.
pub open spec fn first_match_from(s: Seq<char>, i: int) -> Option<int>
    decreases s.len() - i,
{
    if i < 0 || i >= s.len() {
        None
    } else if match_at(s, i) {
        Some(i)
    } else {
        first_match_from(s, i + 1)
    }
}

/// What parsing a URL yields: the owner and repo of the first match, if
/// any position matches at all.
pub open spec fn spec_parse_github(s: Seq<char>) -> Option<(Seq<char>, Seq<char>)> {
    match first_match_from(s, 0) {
        Some(i) => Some((owner_of(s, i), repo_of(s, i))),
        None => None,
    }
}

/// The first slash at or after `from`.
fn find_slash(s: &str, from: usize) -> (r: Option<usize>)
    ensures
        match r {
            Some(k) => first_slash_from(s@, from as int) == Some(k as int) && from <= k
                < s@.len(),
            None => first_slash_from(s@, from as int) is None,
        },
{
    let n = s.unicode_len();
    let mut j: usize = from;
    while j < n
        invariant
            from <= j,
            n == s@.len(),
            first_slash_from(s@, from as int) == first_slash_from(s@, j as int),
        decreases n - j,
    {
        if s.get_char(j) == '/' {
            return Some(j);
        }
        j = j + 1;
    }
    None
}

/// The first slash or dot at or after `from`, or the text's end.
fn find_stop(s: &str, from: usize) -> (r: usize)
    requires
        from <= s@.len(),
    ensures
        r == first_stop_from(s@, from as int),
        from <= r <= s@.len(),
{
    let n = s.unicode_len();
    let mut j: usize = from;
    while j < n
        invariant
            from <= j,
            n == s@.len(),
            first_stop_from(s@, from as int) == first_stop_from(s@, j as int),
        decreases n - j,
    {
        let c = s.get_char(j);
        if c == '/' || c == '.' {
            return j;
        }
        j = j + 1;
    }
    n
}

/// Whether a reference matches at `i`; on a match, the owner's ending
/// slash and the repo's end.
fn try_match_at(s: &str, i: usize) -> (r: Option<(usize, usize)>)
    requires
        i < s@.len(),
    ensures
        match r {
            Some(p) => match_at(s@, i as int) && first_slash_from(s@, i as int + 11) == Some(
                p.0 as int,
            ) && p.1 == first_stop_from(s@, p.0 as int + 1) && i + 11 < p.0 && p.0 + 1 < s@.len()
                && p.0 + 1 <= p.1 <= s@.len(),
            None => !match_at(s@, i as int),
        },
{
    let n = s.unicode_len();
    if n < 12 || i >= n - 11 {
        proof {
            assert(first_slash_from(s@, i as int + 11) is None);
        }
        return None;
    }
    let h = (s.get_char(i) == 'g' || s.get_char(i) == 'G') && (s.get_char(i + 1) == 'i'
        || s.get_char(i + 1) == 'I') && (s.get_char(i + 2) == 't' || s.get_char(i + 2) == 'T') && (
    s.get_char(i + 3) == 'h' || s.get_char(i + 3) == 'H') && (s.get_char(i + 4) == 'u'
        || s.get_char(i + 4) == 'U') && (s.get_char(i + 5) == 'b' || s.get_char(i + 5) == 'B')
        && s.get_char(i + 6) == '.' && (s.get_char(i + 7) == 'c' || s.get_char(i + 7) == 'C') && (
    s.get_char(i + 8) == 'o' || s.get_char(i + 8) == 'O') && (s.get_char(i + 9) == 'm'
        || s.get_char(i + 9) == 'M');
    if !h {
        return None;
    }
    let sep = s.get_char(i + 10);
    if !(sep == ':' || sep == '/') {
        return None;
    }
    match find_slash(s, i + 11) {
        None => None,
        Some(k) => {
            if k == i + 11 {
                return None;
            }
            if k + 1 >= n {
                return None;
            }
            let c = s.get_char(k + 1);
            if c == '/' || c == '.' {
                return None;
            }
            let m = find_stop(s, k + 1);
            Some((k, m))
        },
    }
}

/// Extracts `(owner, repo)` from the first GitHub repository reference in
/// the URL, or nothing when no position of the text matches.
pub fn parse_github_repo(url: &str) -> (r: Option<(String, String)>)
    ensures
        match r {
            Some(p) => spec_parse_github(url@) == Some((p.0@, p.1@)),
            None => spec_parse_github(url@) is None,
        },
{
    let n = url.unicode_len();
    let mut i: usize = 0;
    while i < n
        invariant
            i <= n,
            n == url@.len(),
            first_match_from(url@, 0) == first_match_from(url@, i as int),
        decreases n - i,
    {
        match try_match_at(url, i) {
            Some((k, m)) => {
                proof {
                    assert(first_match_from(url@, i as int) == Some(i as int));
                }
                let owner = url.substring_char(i + 11, k).to_owned();
                let repo = url.substring_char(k + 1, m).to_owned();
                proof {
                    assert(owner@ == owner_of(url@, i as int));
                    assert(repo@ == repo_of(url@, i as int));
                }
                return Some((owner, repo));
            },
            None => {
                proof {
                    assert(first_match_from(url@, i as int) == first_match_from(
                        url@,
                        i as int + 1,
                    ));
                }
            },
        }
        i = i + 1;
    }
    None
}

} // verus!
