//! Explicit configuration of the fetch layer: file locations, endpoint
//! bases, the request deadline, and the retry policy.  Carrying these in
//! one value instead of module-level constants keeps the layer free of
//! hidden global state, so tests can point a loader at temporary paths.

use vstd::prelude::*;

use crate::retry::RetryPolicy;

verus! {

/// Where the layer reads and writes, whom it talks to, and how it
/// retries.
pub struct Config {
    /// Directory holding the ETag cache file.
    pub cache_dir: String,
    /// Path of the URL-to-fingerprint cache file.
    pub etag_cache_file: String,
    /// Path of the merged snapshot the loader writes and serves from.
    pub snapshot_file: String,
    /// Path of the final per-crate output file.
    pub final_output: String,
    /// Base of the registry's listing endpoint.
    pub registry_base: String,
    /// Base of the code-hosting API used for per-crate lookups.
    pub github_api_base: String,
    /// Deadline of every single request, in seconds.
    pub request_timeout_secs: u64,
    /// How transient failures are retried.
    pub policy: RetryPolicy,
}

impl Config {
    /// The stock configuration: the tool's usual paths and endpoints, a
    /// 30-second request deadline, and five attempts with a 500 ms base
    /// delay doubling up to 30 s, jittered by 20 percent.
    pub fn standard() -> (c: Config)
        ensures
            c.cache_dir@ == ".ratatui_cache"@,
            c.etag_cache_file@ == ".ratatui_cache/etags.json"@,
            c.snapshot_file@ == "crates.json"@,
            c.final_output@ == "ratcrate.json"@,
            c.registry_base@ == "https://crates.io/api/v1/crates"@,
            c.github_api_base@ == "https://api.github.com"@,
            c.request_timeout_secs == 30,
            c.policy.max_attempts == 5,
            c.policy.base_delay_ms == 500,
            c.policy.multiplier == 2,
            c.policy.max_delay_ms == 30000,
            c.policy.jitter_percent == 20,
            c.policy.retry_rate_limited,
            c.policy.wf(),
    {
        Config {
            cache_dir: ".ratatui_cache".to_owned(),
            etag_cache_file: ".ratatui_cache/etags.json".to_owned(),
            snapshot_file: "crates.json".to_owned(),
            final_output: "ratcrate.json".to_owned(),
            registry_base: "https://crates.io/api/v1/crates".to_owned(),
            github_api_base: "https://api.github.com".to_owned(),
            request_timeout_secs: 30,
            policy: RetryPolicy {
                max_attempts: 5,
                base_delay_ms: 500,
                multiplier: 2,
                max_delay_ms: 30000,
                jitter_percent: 20,
                retry_rate_limited: true,
            },
        }
    }

    /// The directory the cache files live in.
    pub fn get_cache_dir(&self) -> (r: String)
        ensures
            r@ == self.cache_dir@,
    {
        self.cache_dir.clone()
    }

    /// The path of the merged snapshot file.
    pub fn get_cache_file(&self) -> (r: String)
        ensures
            r@ == self.snapshot_file@,
    {
        self.snapshot_file.clone()
    }
}

} // verus!
