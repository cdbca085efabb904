//! Lookup of geolocation metadata for a single IP address, backed by a
//! time-bounded cache.
//!
//! The crate verifies the decision core of the lookup pipeline: textual
//! address parsing and classification against the reserved ranges, the
//! freshness rule of the cache, and the engine that decides between a cached
//! record, a remote fetch, and a rejection.

use vstd::prelude::*;
use vstd::string::StrSliceExecFns;

pub mod cache;
pub mod engine;
pub mod ip;
pub mod record;

verus! {

/// Number of seconds a cached record stays fresh.
pub const TTL_SECONDS: i64 = 86400;

/// A record fetched at `fetched_at` is fresh at `now` when its age is at
/// most the TTL. Staleness is judged only at read time.
pub open spec fn spec_is_fresh(fetched_at: i64, now: i64) -> bool {
    now - fetched_at <= TTL_SECONDS
}

/// Freshness test over plain timestamps, exact against `spec_is_fresh`.
pub fn is_fresh(fetched_at: i64, now: i64) -> (r: bool)
    ensures
        r == spec_is_fresh(fetched_at, now),
{
    (now as i128) - (fetched_at as i128) <= TTL_SECONDS as i128
}

/// Character-for-character equality of two string slices.
pub fn str_eq(a: &str, b: &str) -> (r: bool)
    ensures
        r == (a@ == b@),
{
    let n = a.unicode_len();
    let m = b.unicode_len();
    if n != m {
        return false;
    }
    let mut i: usize = 0;
    while i < n
        invariant
            n == a@.len(),
            n == b@.len(),
            i <= n,
            forall|k: int| 0 <= k < i ==> a@[k] == b@[k],
        decreases n - i,
    {
        if a.get_char(i) != b.get_char(i) {
            return false;
        }
        i = i + 1;
    }
    proof {
        assert(a@ =~= b@);
    }
    true
}

} // verus!
