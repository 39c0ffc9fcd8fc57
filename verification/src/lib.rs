//! Bulk-fetch orchestration for named beatmap collections: a bounded-concurrency
//! download scheduler, a per-mirror rate limiter, failure classification for a
//! fixed set of download mirrors, and an incrementally persisted collection
//! index with idempotent merges.

pub mod collection;
pub mod collector;
pub mod config;
pub mod mirrors;
pub mod orchestrator;
pub mod permits;
pub mod progress;
pub mod ratelimit;
pub mod snapshot;
pub mod text;

use vstd::prelude::*;

verus! {

/// Largest number of simultaneous downloads the mirrors' fair-use policies
/// tolerate; a configuration asking for more is rejected at startup.
pub const MAX_CONCURRENT_DOWNLOADS: usize = 6;

/// Says whether a configured concurrency bound is acceptable.
pub fn check_concurrency_bound(n: usize) -> (ok: bool)
    ensures
        ok == (n <= MAX_CONCURRENT_DOWNLOADS),
{
    n <= MAX_CONCURRENT_DOWNLOADS
}

} // verus!
