//! The running-timer state that shell prompts read from a small cache, so
//! that drawing a prompt neither asks 1Password for the key nor calls the
//! API every time. Changes made through this program drop the cache; the
//! time to live only delays changes made elsewhere.

use crate::models::{timestamp_in_range, utc_now};
use vstd::prelude::*;

verus! {

/// How long a cached answer is trusted, in seconds.
pub const TTL_SECS: u64 = 120;

/// The running timer as the cache keeps it.
#[derive(Debug, Clone, PartialEq, Eq)]
pub struct CachedEntry {
    pub description: String,
    /// When the timer started, in seconds since the Unix epoch.
    pub start: i64,
    pub project_name: Option<String>,
}

/// What the cache holds: the running timer of a workspace (or none), and
/// when it was fetched.
#[derive(Debug, Clone, PartialEq, Eq)]
pub struct CachedStatus {
    /// Seconds since the Unix epoch.
    pub fetched_at: u64,
    pub workspace_id: String,
    pub entry: Option<CachedEntry>,
}

/// Seconds since `fetched_at` at `now`; none when the stamp lies ahead of
/// the clock.
pub open spec fn age(fetched_at: u64, now: u64) -> int {
    if now >= fetched_at {
        now - fetched_at
    } else {
        0
    }
}

/// Whether `cached` may be shown in place of asking Clockify: it is the
/// answer for workspace `workspace_id`, fetched less than `TTL_SECS` ago.
pub fn is_fresh(cached: &CachedStatus, workspace_id: &str, now: u64) -> (r: bool)
    ensures
        r == (cached.workspace_id@ == workspace_id@ && age(cached.fetched_at, now) < TTL_SECS),
{
    let same = crate::text::str_is(cached.workspace_id.as_str(), workspace_id);
    same && now.saturating_sub(cached.fetched_at) < TTL_SECS
}

/// Seconds since the Unix epoch now; 0 where the clock reads earlier than
/// the epoch.
pub fn now_unix() -> (r: u64)
    ensures
        exists|t: int| timestamp_in_range(t) && r == (if t < 0 { 0 } else { t }),
{
    let t = utc_now();
    if t < 0 {
        0
    } else {
        t as u64
    }
}

} // verus!
