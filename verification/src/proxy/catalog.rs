//! The model catalog: answered from cache, so that polls cost no rate
//! budget, and refreshed when it is stale.
use crate::proxy::retry::{backoff_for, backoff_of, is_retryable, retryable};
use crate::text::opt_str;
use vstd::prelude::*;

verus! {

/// Whether a cached catalog of the given age may be served.
pub fn catalog_fresh(age_ms: Option<u64>, ttl_ms: u64) -> (r: bool)
    ensures
        r == (age_ms is Some && age_ms->0 < ttl_ms),
{
    match age_ms {
        Some(age) => age < ttl_ms,
        None => false,
    }
}

/// What becomes of a catalog that was fetched.
#[derive(Clone, Copy, Debug, PartialEq, Eq, Structural)]
pub enum CatalogAnswer {
    /// Keep the body and answer 200 with it.
    Store,
    /// Pass the upstream's status and body on, without keeping them.
    PassOn,
    /// Pass them on, and let the lane cool down for so many seconds.
    CoolDown { secs: u64 },
}

/// Whether `answer` is what becomes of a catalog answered with a status.
pub open spec fn catalog_verdict(status: u16, retry_after: Option<Seq<char>>) -> CatalogAnswer {
    if 200 <= status < 300 {
        CatalogAnswer::Store
    } else if is_retryable(status) {
        CatalogAnswer::CoolDown { secs: backoff_of(retry_after) as u64 }
    } else {
        CatalogAnswer::PassOn
    }
}

/// What becomes of a catalog that was fetched.
pub fn catalog_answer(status: u16, retry_after: Option<&str>) -> (r: CatalogAnswer)
    ensures
        r == catalog_verdict(status, opt_str(retry_after)),
{
    if 200 <= status && status < 300 {
        CatalogAnswer::Store
    } else if retryable(status) {
        CatalogAnswer::CoolDown { secs: backoff_for(retry_after) }
    } else {
        CatalogAnswer::PassOn
    }
}

}
