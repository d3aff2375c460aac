//! Probing a NIM key against an upstream.
use crate::api::{refusal, refuse, Refused};
use crate::codec::{examine_bytes, json_complaint, json_of_bytes};
use crate::config::StoredConfig;
use crate::proxy::retry::{is_success, show_status, shown_status};
use crate::settings::requests::ValidateKeyReq;
use crate::settings::sections::{tidy, tidy_url};
use crate::text::{concat, concat3, trim, trimmed};
use vstd::prelude::*;

verus! {

/// The upstream that the probe before setup asks: the one the request names,
/// or the stored one.
pub fn setup_target(store: &StoredConfig, req: &ValidateKeyReq) -> (r: String)
    ensures
        r@ == match req.base_url {
            Some(b) => tidy_url(b@),
            None => tidy_url(store@.base_url),
        },
{
    match &req.base_url {
        Some(b) => tidy(b),
        None => tidy(&store.upstream.base_url),
    }
}

/// The upstream that an operator's probe asks: always the configured one. A
/// target out of the request would turn the proxy into a probe of hosts only
/// it can reach.
pub fn configured_target(store: &StoredConfig) -> (r: String)
    ensures
        r@ == tidy_url(store@.base_url),
{
    tidy(&store.upstream.base_url)
}

/// The key that is probed.
pub fn probed_key(req: &ValidateKeyReq) -> (r: &str)
    ensures
        r@ == trimmed(req.key@),
{
    trim(&req.key)
}

/// Answer a probe of an upstream that is not allowed.
pub fn refuse_base_url(why: &str) -> (r: Refused)
    ensures
        r@ == refusal(400, "invalid_base_url"@, why@),
{
    refuse(400, "invalid_base_url", why)
}

/// What asking for the model catalog came to.
#[derive(Debug)]
pub enum CatalogReply {
    /// The upstream could not be reached.
    Unreachable(String),
    /// It answered with this status; the body, or why it could not be read.
    Answered(u16, Result<Vec<u8>, String>),
}

/// What a probe says of a key: the size of the catalog it could read, or why
/// it could read none.
pub open spec fn probe_verdict(reply: CatalogReply) -> Result<nat, Seq<char>> {
    match reply {
        CatalogReply::Unreachable(e) => Err("cannot reach upstream: "@ + e@),
        CatalogReply::Answered(status, body) => if 200 <= status < 300 {
            match body {
                Err(e) => Err("upstream sent an unreadable model list: "@ + e@),
                Ok(bytes) => match json_of_bytes(bytes@) {
                    None => Err(
                        "upstream sent an unreadable model list: "@ + json_complaint(bytes@),
                    ),
                    Some(v) => Ok(v.list("data"@).len()),
                },
            }
        } else {
            Err("upstream rejected the key ("@ + shown_status(status) + ")"@)
        },
    }
}

/// Does the model catalog answer for a key?
pub fn probe_key(reply: &CatalogReply) -> (r: Result<usize, String>)
    ensures
        match r {
            Ok(n) => probe_verdict(*reply) == Ok::<nat, Seq<char>>(n as nat),
            Err(e) => probe_verdict(*reply) == Err::<nat, Seq<char>>(e@),
        },
{
    match reply {
        CatalogReply::Unreachable(e) => Err(concat("cannot reach upstream: ", e)),
        CatalogReply::Answered(status, body) => {
            if !is_success(*status) {
                return Err(concat3("upstream rejected the key (", &show_status(*status), ")"));
            }
            match body {
                Err(e) => Err(concat("upstream sent an unreadable model list: ", e)),
                Ok(bytes) => match examine_bytes(bytes.as_slice()) {
                    Err(e) => Err(concat("upstream sent an unreadable model list: ", &e)),
                    Ok(v) => Ok(v.list("data").len()),
                },
            }
        },
    }
}

}
