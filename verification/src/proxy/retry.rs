//! Which upstream answers are worth waiting out, and for how long.
use crate::numbers::{parse_u64, u64_in};
use crate::text::{decimal, decimal_text, opt_str};
use vstd::prelude::*;

verus! {

/// Rate limit and transient server-side trouble.
pub open spec fn is_retryable(status: u16) -> bool {
    status == 429 || status == 500 || status == 502 || status == 503 || status == 504
}

/// The cooldown in seconds when the upstream names none.
pub const DEFAULT_BACKOFF_SECS: u64 = 10;

/// The cooldown in seconds after a failed connection.
pub const CONNECT_BACKOFF_SECS: u64 = 5;

/// The cooldown a `Retry-After` value asks for.
pub open spec fn backoff_of(retry_after: Option<Seq<char>>) -> nat {
    match retry_after {
        Some(s) => match u64_in(s) {
            Some(n) => n,
            None => DEFAULT_BACKOFF_SECS as nat,
        },
        None => DEFAULT_BACKOFF_SECS as nat,
    }
}

/// Statuses worth waiting out: rate limit and transient server-side trouble.
pub fn retryable(status: u16) -> (r: bool)
    ensures
        r == is_retryable(status),
{
    status == 429 || status == 500 || status == 502 || status == 503 || status == 504
}

/// Backoff in seconds for a lane in cooldown: honor Retry-After when present.
pub fn backoff_for(retry_after: Option<&str>) -> (r: u64)
    ensures
        r == backoff_of(opt_str(retry_after)),
{
    match retry_after {
        Some(s) => match parse_u64(s) {
            Some(n) => n,
            None => DEFAULT_BACKOFF_SECS,
        },
        None => DEFAULT_BACKOFF_SECS,
    }
}

/// Whether a status is a success.
pub fn is_success(status: u16) -> (r: bool)
    ensures
        r == (200 <= status < 300),
{
    200 <= status && status < 300
}

/// The text of a status with its canonical reason.
pub uninterp spec fn status_text(status: u16) -> Seq<char>;

/// `reqwest::StatusCode::from_u16`, shown: a status of three digits prints
/// as its number and reason, made of the status alone; no other number is a
/// status.
#[verifier::external_body]
fn text_of_status(status: u16) -> (r: Option<String>)
    ensures
        r is Some <==> 100 <= status < 1000,
        r is Some ==> r->0@ == status_text(status),
{
    reqwest::StatusCode::from_u16(status).ok().map(|s| s.to_string())
}

/// A status as it is shown in a message: with its reason, or the bare
/// number where it is no status.
pub open spec fn shown_status(status: u16) -> Seq<char> {
    if 100 <= status < 1000 {
        status_text(status)
    } else {
        decimal(status as nat)
    }
}

/// A status as it is shown in a message.
pub fn show_status(status: u16) -> (r: String)
    ensures
        r@ == shown_status(status),
{
    match text_of_status(status) {
        Some(text) => text,
        None => decimal_text(status as u128),
    }
}

}
