//! The merged registry dataset: record types, deterministic merging of
//! paginated listings, derived counts, and the decision when to stop
//! paging.
//!
//! The caller fetches each page; `LoaderState::process_page` folds it in
//! and answers with the next page to fetch or with the decision to stop.

use vstd::prelude::*;

use crate::text::{spec_starts_with, starts_with, str_eq};

verus! {

/// One registry record, reduced to the fields the tool reads.
#[derive(Debug)]
pub struct Crates {
    pub id: String,
    pub name: String,
    pub max_version: Option<String>,
    pub repository: Option<String>,
    pub description: Option<String>,
    pub downloads: u64,
    pub created_at: Option<String>,
    pub updated_at: Option<String>,
}

/// Pagination metadata of the registry's listing endpoint.
#[derive(Debug)]
pub struct Meta {
    pub total: u64,
    pub next_page: Option<u64>,
    pub previous_page: Option<u64>,
}

/// One page of the registry's listing response.
#[derive(Debug)]
pub struct CratesResponse {
    pub crates: Vec<Crates>,
    pub meta: Meta,
}

/// Derived counts persisted beside the records.
#[derive(Debug)]
pub struct Metadata {
    pub total_crates: u64,
    pub core_libraries: u64,
    pub community_packages: u64,
    pub generated_at: String,
}

/// The fully merged dataset of one load cycle, as written to disk and as
/// handed to the presentation layer.
pub struct DatasetSnapshot {
    pub metadata: Metadata,
    pub records: Vec<Crates>,
}

/// One record of the final per-crate output.
pub struct Ratcrate {
    pub crate_name: String,
    pub crate_id: String,
    pub max_version: Option<String>,
    pub description: Option<String>,
    pub repository: Option<String>,
    pub cargo_toml_url: String,
    pub uses_ratatui: bool,
}

impl Crates {
    /// An equal copy.
    pub fn duplicate(&self) -> (r: Crates)
        ensures
            r == *self,
    {
        Crates {
            id: self.id.clone(),
            name: self.name.clone(),
            max_version: clone_opt(&self.max_version),
            repository: clone_opt(&self.repository),
            description: clone_opt(&self.description),
            downloads: self.downloads,
            created_at: clone_opt(&self.created_at),
            updated_at: clone_opt(&self.updated_at),
        }
    }
}

/// An equal copy of an optional string.
fn clone_opt(o: &Option<String>) -> (r: Option<String>)
    ensures
        r == *o,
{
    match o {
        Some(s) => Some(s.clone()),
        None => None,
    }
}

/// Whether some record in `s` has this id.
pub open spec fn has_id(s: Seq<Crates>, id: Seq<char>) -> bool {
    exists|i: int| 0 <= i < s.len() && s[i].id@ == id
}

/// Folding one page into the accumulated records: pages arrive in listing
/// order and the first record seen for an id wins, so a record enters only
/// when its id is still absent.
pub open spec fn merge_spec(acc: Seq<Crates>, page: Seq<Crates>) -> Seq<Crates>
    decreases page.len(),
{
    if page.len() == 0 {
        acc
    } else {
        let acc2 = if has_id(acc, page[0].id@) {
            acc
        } else {
            acc.push(page[0])
        };
        merge_spec(acc2, page.skip(1))
    }
}

/// Merging distributes over splitting the page.
proof fn lemma_merge_append(acc: Seq<Crates>, p1: Seq<Crates>, p2: Seq<Crates>)
    ensures
        merge_spec(acc, p1 + p2) == merge_spec(merge_spec(acc, p1), p2),
    decreases p1.len(),
{
    if p1.len() == 0 {
        assert(p1 + p2 =~= p2);
    } else {
        assert((p1 + p2)[0] == p1[0]);
        assert((p1 + p2).skip(1) =~= p1.skip(1) + p2);
        let acc2 = if has_id(acc, p1[0].id@) {
            acc
        } else {
            acc.push(p1[0])
        };
        lemma_merge_append(acc2, p1.skip(1), p2);
    }
}

/// Merging never drops accumulated records.
proof fn lemma_merge_grows(acc: Seq<Crates>, page: Seq<Crates>)
    ensures
        merge_spec(acc, page).len() >= acc.len(),
        acc.len() <= merge_spec(acc, page).len() <= acc.len() + page.len(),
    decreases page.len(),
{
    if page.len() > 0 {
        let acc2 = if has_id(acc, page[0].id@) {
            acc
        } else {
            acc.push(page[0])
        };
        lemma_merge_grows(acc2, page.skip(1));
    }
}

/// Whether some record already carries this id.
fn contains_id(records: &Vec<Crates>, id: &str) -> (r: bool)
    ensures
        r == has_id(records@, id@),
{
    let n = records.len();
    let mut i: usize = 0;
    while i < n
        invariant
            i <= n,
            n == records@.len(),
            forall|j: int| 0 <= j < i ==> records@[j].id@ != id@,
        decreases n - i,
    {
        if str_eq(records[i].id.as_str(), id) {
            return true;
        }
        i = i + 1;
    }
    false
}

/// Folds one page into the records, first-seen id wins, and reports how
/// many records were new.
pub fn merge_page(records: &mut Vec<Crates>, page: &Vec<Crates>) -> (added: usize)
    ensures
        final(records)@ == merge_spec(old(records)@, page@),
        final(records)@.len() == old(records)@.len() + added,
{
    let ghost acc0 = records@;
    let before = records.len();
    let n = page.len();
    let mut i: usize = 0;
    proof {
        assert(page@.take(0) =~= Seq::<Crates>::empty());
    }
    while i < n
        invariant
            i <= n,
            n == page@.len(),
            records@ == merge_spec(acc0, page@.take(i as int)),
        decreases n - i,
    {
        let ghost cur = records@;
        let ghost x = page@[i as int];
        proof {
            assert(page@.take(i + 1) =~= page@.take(i as int) + seq![x]);
            lemma_merge_append(acc0, page@.take(i as int), seq![x]);
            assert(seq![x][0] == x);
            assert(seq![x].skip(1) =~= Seq::<Crates>::empty());
            let acc2 = if has_id(cur, x.id@) {
                cur
            } else {
                cur.push(x)
            };
            assert(merge_spec(acc2, seq![x].skip(1)) == acc2);
            assert(merge_spec(cur, seq![x]) == acc2);
        }
        if !contains_id(records, page[i].id.as_str()) {
            records.push(page[i].duplicate());
        }
        proof {
            assert(records@ == merge_spec(acc0, page@.take(i + 1)));
        }
        i = i + 1;
    }
    proof {
        assert(page@.take(n as int) =~= page@);
        lemma_merge_grows(acc0, page@);
    }
    records.len() - before
}

/// Whether a record belongs to the core libraries: its name is the
/// ecosystem's own crate or one of its namespaced companions.
pub open spec fn spec_is_core(c: Crates) -> bool {
    c.name@ == "ratatui"@ || spec_starts_with(c.name@, "ratatui-"@)
}

/// How many of the records are core libraries.
pub open spec fn count_core(s: Seq<Crates>) -> int
    decreases s.len(),
{
    if s.len() == 0 {
        0
    } else {
        count_core(s.skip(1)) + if spec_is_core(s[0]) {
            1int
        } else {
            0int
        }
    }
}

/// The core count grows by at most one per record.
proof fn lemma_count_core_snoc(s: Seq<Crates>, x: Crates)
    ensures
        count_core(s.push(x)) == count_core(s) + if spec_is_core(x) {
            1int
        } else {
            0int
        },
    decreases s.len(),
{
    let sx = s.push(x);
    if s.len() == 0 {
        assert(sx[0] == x);
        assert(sx.skip(1) =~= Seq::<Crates>::empty());
        assert(count_core(sx.skip(1)) == 0);
    } else {
        assert(sx[0] == s[0]);
        assert(sx.skip(1) =~= s.skip(1).push(x));
        lemma_count_core_snoc(s.skip(1), x);
        assert(count_core(sx.skip(1)) == count_core(s.skip(1)) + if spec_is_core(x) {
            1int
        } else {
            0int
        });
    }
}

/// The core count never exceeds the record count.
proof fn lemma_count_core_bounds(s: Seq<Crates>)
    ensures
        0 <= count_core(s) <= s.len(),
    decreases s.len(),
{
    if s.len() > 0 {
        lemma_count_core_bounds(s.skip(1));
    }
}

/// Classifies one record.
pub fn is_core(c: &Crates) -> (r: bool)
    ensures
        r == spec_is_core(*c),
{
    str_eq(c.name.as_str(), "ratatui") || starts_with(c.name.as_str(), "ratatui-")
}

/// Derives the persisted counts from the records: the total, how many are
/// core libraries, and how many are community packages.
pub fn build_metadata(records: &Vec<Crates>, generated_at: String) -> (m: Metadata)
    requires
        records@.len() <= u64::MAX,
    ensures
        m.total_crates == records@.len(),
        m.core_libraries == count_core(records@),
        m.community_packages == records@.len() - count_core(records@),
        m.generated_at == generated_at,
{
    let n = records.len();
    let mut core: u64 = 0;
    let mut i: usize = 0;
    proof {
        assert(records@.take(0) =~= Seq::<Crates>::empty());
    }
    while i < n
        invariant
            i <= n,
            n == records@.len(),
            n <= u64::MAX,
            core == count_core(records@.take(i as int)),
            core <= i,
        decreases n - i,
    {
        proof {
            assert(records@.take(i + 1) =~= records@.take(i as int).push(records@[i as int]));
            lemma_count_core_snoc(records@.take(i as int), records@[i as int]);
        }
        if is_core(&records[i]) {
            core = core + 1;
        }
        i = i + 1;
    }
    proof {
        assert(records@.take(n as int) =~= records@);
        lemma_count_core_bounds(records@);
    }
    Metadata {
        total_crates: n as u64,
        core_libraries: core,
        community_packages: n as u64 - core,
        generated_at,
    }
}

/// Whether the dataset must be rebuilt from the network: on demand, or
/// when no local snapshot exists to serve from.
pub fn should_refetch(force_refresh: bool, have_snapshot: bool) -> (r: bool)
    ensures
        r == (force_refresh || !have_snapshot),
{
    force_refresh || !have_snapshot
}

/// Running accumulation of one load cycle.
pub struct LoaderState {
    pub records: Vec<Crates>,
    pub pages_fetched: u64,
}

/// What the loader asks its caller to do next.
#[derive(Debug)]
pub enum LoaderAction {
    /// Fetch this page of the listing and hand it back.
    FetchPage { page: u64 },
    /// Every record is in: build the snapshot.
    Finish,
}

impl LoaderState {
    /// A fresh load: nothing fetched yet.
    pub fn new() -> (s: LoaderState)
        ensures
            s.records@ == Seq::<Crates>::empty(),
            s.pages_fetched == 0,
    {
        LoaderState { records: Vec::new(), pages_fetched: 0 }
    }

    /// Folds one fetched page in and decides how to go on: stop when the
    /// page brought nothing new (defence against malformed pagination
    /// metadata) or when the reported total is reached, else ask for the
    /// next page.
    pub fn process_page(&mut self, page: &Vec<Crates>, meta: &Meta) -> (a: LoaderAction)
        requires
            old(self).pages_fetched < u64::MAX - 1,
        ensures
            final(self).records@ == merge_spec(old(self).records@, page@),
            final(self).pages_fetched == old(self).pages_fetched + 1,
            a == ({
                let added = final(self).records@.len() - old(self).records@.len();
                if added == 0 || final(self).records@.len() >= meta.total {
                    LoaderAction::Finish
                } else {
                    LoaderAction::FetchPage { page: (old(self).pages_fetched + 2) as u64 }
                }
            }),
    {
        let added = merge_page(&mut self.records, page);
        self.pages_fetched = self.pages_fetched + 1;
        let have = self.records.len();
        if added == 0 || (have as u64) >= meta.total {
            LoaderAction::Finish
        } else {
            LoaderAction::FetchPage { page: self.pages_fetched + 1 }
        }
    }

    /// Closes the load: the snapshot holds exactly the accumulated
    /// records, with their derived counts.
    pub fn into_snapshot(self, generated_at: String) -> (s: DatasetSnapshot)
        requires
            self.records@.len() <= u64::MAX,
        ensures
            s.records@ == self.records@,
            s.metadata.total_crates == self.records@.len(),
            s.metadata.core_libraries == count_core(self.records@),
            s.metadata.community_packages == self.records@.len() - count_core(self.records@),
            s.metadata.generated_at == generated_at,
    {
        let metadata = build_metadata(&self.records, generated_at);
        DatasetSnapshot { metadata, records: self.records }
    }
}

} // verus!
