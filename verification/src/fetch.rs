//! Classification of one conditional HTTP fetch.
//!
//! The caller performs the request; this module decides what to send with
//! it (`build_request_plan`), what a response means (`interpret_response`),
//! and what to remember afterwards (`record_fingerprint`).  Keeping the
//! cache update outside `interpret_response` leaves that function pure.

use vstd::prelude::*;

use crate::etag::{spec_lookup, ETagCache};

verus! {

/// Result of one conditional fetch, as the initiating caller sees it.
#[derive(Debug)]
pub enum FetchResult {
    /// The server confirmed the prior fingerprint: the body is unchanged.
    NotModified,
    /// The server sent a fresh body (a change, or a first fetch).
    Modified(String),
}

/// A response that is neither a success nor "not modified", or no response
/// at all.
#[derive(Debug)]
pub enum FetchFailure {
    /// The transport failed: timeout, connection reset, and the like.
    Transport { detail: String },
    /// The server answered with a status outside the accepted ones.
    Status { code: u16 },
}

/// What one successful fetch yields: the outcome for the caller, plus the
/// fingerprint to remember, if the server sent one.
#[derive(Debug)]
pub struct FetchStep {
    pub outcome: FetchResult,
    pub fingerprint: Option<String>,
}

/// What to send for one conditional GET: the URL, and the fingerprint to
/// attach as the conditional precondition when one is known.
#[derive(Debug)]
pub struct RequestPlan {
    pub url: String,
    pub if_none_match: Option<String>,
}

/// Status of a response confirming that the body is unchanged.
pub const STATUS_NOT_MODIFIED: u16 = 304;

impl FetchResult {
    /// An equal copy.
    pub fn duplicate(&self) -> (r: FetchResult)
        ensures
            r == *self,
    {
        match self {
            FetchResult::NotModified => FetchResult::NotModified,
            FetchResult::Modified(body) => FetchResult::Modified(body.clone()),
        }
    }
}

impl FetchFailure {
    /// An equal copy.
    pub fn duplicate(&self) -> (r: FetchFailure)
        ensures
            r == *self,
    {
        match self {
            FetchFailure::Transport { detail } => FetchFailure::Transport {
                detail: detail.clone(),
            },
            FetchFailure::Status { code } => FetchFailure::Status { code: *code },
        }
    }
}

impl FetchStep {
    /// An equal copy.
    pub fn duplicate(&self) -> (r: FetchStep)
        ensures
            r == *self,
    {
        let fingerprint = match &self.fingerprint {
            Some(f) => Some(f.clone()),
            None => None,
        };
        FetchStep { outcome: self.outcome.duplicate(), fingerprint }
    }
}

/// Plans one conditional GET: the precondition sent is exactly the
/// fingerprint stored for the URL, and nothing when none is stored.
pub fn build_request_plan(cache: &ETagCache, url: &str) -> (plan: RequestPlan)
    ensures
        plan.url@ == url@,
        match plan.if_none_match {
            Some(f) => spec_lookup(cache.view_entries(), url@) == Some(f@),
            None => spec_lookup(cache.view_entries(), url@) is None,
        },
{
    RequestPlan { url: url.to_owned(), if_none_match: cache.get(url) }
}

/// Interprets the response of one conditional GET.
///
/// A 304 means the cached body is still valid; any success status carries a
/// fresh body and possibly a fresh fingerprint; every other status is a
/// failure for the retry layer to classify.
pub fn interpret_response(status: u16, etag: Option<String>, body: String) -> (r: Result<
    FetchStep,
    FetchFailure,
>)
    ensures
        status == STATUS_NOT_MODIFIED ==> (r matches Ok(s) && s.outcome is NotModified
            && s.fingerprint is None),
        200 <= status <= 299 ==> (r matches Ok(s) && s.outcome == FetchResult::Modified(body)
            && s.fingerprint == etag),
        !(status == STATUS_NOT_MODIFIED || 200 <= status <= 299) ==> r == Err::<
            FetchStep,
            FetchFailure,
        >(FetchFailure::Status { code: status }),
{
    if status == STATUS_NOT_MODIFIED {
        Ok(FetchStep { outcome: FetchResult::NotModified, fingerprint: None })
    } else if 200 <= status && status <= 299 {
        Ok(FetchStep { outcome: FetchResult::Modified(body), fingerprint: etag })
    } else {
        Err(FetchFailure::Status { code: status })
    }
}

/// Remembers what a successful fetch taught us: a fresh fingerprint is
/// stored for the URL, and a fetch without one changes nothing.  Either
/// way every other URL keeps its stored fingerprint.
pub fn record_fingerprint(cache: &mut ETagCache, url: &str, step: &FetchStep)
    requires
        old(cache).wf(),
    ensures
        final(cache).wf(),
        match step.fingerprint {
            Some(f) => spec_lookup(final(cache).view_entries(), url@) == Some(f@) && (forall|
                k: Seq<char>,
            |
                k != url@ ==> spec_lookup(final(cache).view_entries(), k) == spec_lookup(
                    old(cache).view_entries(),
                    k,
                )),
            None => final(cache).view_entries() == old(cache).view_entries(),
        },
{
    match &step.fingerprint {
        Some(f) => cache.set(url, f.as_str()),
        None => (),
    }
}

} // verus!
