//! The sections of the store that only administrators write.
use crate::api::{Refused, RefusedV};
use crate::config::{DashboardCfg, DashboardV, GovernorV, HistoryCfg, Limits, StoreV, StoredConfig, WebSearchCfg, WebSearchCfgV};
use crate::settings::refusals::{admin_bar, outcome, require_admin};
use crate::settings::requests::{
    GovernorReq, HistoryReq, LimitsReq, ServerReq, UpstreamReq, WebSearchReq,
};
use crate::text::{same, trim, trim_end_char, trimmed, without_trailing};
use vstd::prelude::*;

verus! {

/// What a caller without the authority is told.
pub const SERVER_SETTINGS: &'static str = "server settings require an admin";

/// An upstream URL as it is stored: without white space around it and
/// without slashes behind it.
pub open spec fn tidy_url(s: Seq<char>) -> Seq<char> {
    without_trailing(trimmed(s), '/')
}

pub fn tidy(s: &str) -> (r: String)
    ensures
        r@ == tidy_url(s@),
{
    trim_end_char(trim(s), '/')
}

/// The limits a request sets.
pub open spec fn limits_of(req: LimitsReq) -> Limits {
    Limits {
        heartbeat_secs: req.heartbeat_secs,
        max_inflight: req.max_inflight,
        max_wait_secs: req.max_wait_secs,
        models_ttl_secs: req.models_ttl_secs,
        request_timeout_secs: req.request_timeout_secs,
        stream_idle_secs: req.stream_idle_secs,
        strict_passthrough: req.strict_passthrough,
    }
}

/// Write a section, if the caller is an administrator.
pub open spec fn as_admin(store: StoreV, username: Seq<char>, change: StoreV) -> Result<
    StoreV,
    RefusedV,
> {
    match admin_bar(store, username, SERVER_SETTINGS@) {
        Some(e) => Err(e),
        None => Ok(change),
    }
}

/// What an upstream request makes of the store.
pub open spec fn upstream_change(store: StoreV, username: Seq<char>, req: UpstreamReq) -> Result<
    StoreV,
    RefusedV,
> {
    as_admin(store, username, StoreV { base_url: tidy_url(req.base_url@), ..store })
}

/// The store with the given upstream. The model-catalog cache and the
/// per-model no-inject memory belong to the upstream: the caller flushes them
/// once the store is committed.
pub fn upstream(store: &StoredConfig, username: &str, req: &UpstreamReq) -> (r: Result<
    StoredConfig,
    Refused,
>)
    ensures
        outcome(r) == upstream_change(store@, username@, *req),
{
    match require_admin(store, username, SERVER_SETTINGS) {
        Ok(_) => {},
        Err(e) => return Err(e),
    }
    let mut cand = store.clone();
    cand.upstream.base_url = tidy(&req.base_url);
    assert(cand@ =~= (StoreV { base_url: tidy_url(req.base_url@), ..store@ }));
    Ok(cand)
}

fn replace_limits(cand: &mut StoredConfig, req: &LimitsReq)
    ensures
        final(cand)@ == (StoreV { limits: limits_of(*req), ..old(cand)@ }),
{
    cand.limits = Limits {
        heartbeat_secs: req.heartbeat_secs,
        max_inflight: req.max_inflight,
        max_wait_secs: req.max_wait_secs,
        models_ttl_secs: req.models_ttl_secs,
        request_timeout_secs: req.request_timeout_secs,
        stream_idle_secs: req.stream_idle_secs,
        strict_passthrough: req.strict_passthrough,
    };
    assert(cand@ =~= (StoreV { limits: limits_of(*req), ..old(cand)@ }));
}

/// What a request of the Server form makes of the store.
pub open spec fn server_change(store: StoreV, username: Seq<char>, req: ServerReq) -> Result<
    StoreV,
    RefusedV,
> {
    as_admin(
        store,
        username,
        StoreV { base_url: tidy_url(req.base_url@), limits: limits_of(req.limits), ..store },
    )
}

/// The store with the Server form's upstream and limits, as one change, and
/// whether the upstream is another one: only then are its caches flushed,
/// once the store is committed.
pub fn server(store: &StoredConfig, username: &str, req: &ServerReq) -> (r: Result<
    (StoredConfig, bool),
    Refused,
>)
    ensures
        match r {
            Ok((cand, changed)) => {
                &&& server_change(store@, username@, *req) == Ok::<StoreV, RefusedV>(cand@)
                &&& changed == (store@.base_url != tidy_url(req.base_url@))
            },
            Err(e) => admin_bar(store@, username@, SERVER_SETTINGS@) == Some(e@),
        },
{
    match require_admin(store, username, SERVER_SETTINGS) {
        Ok(_) => {},
        Err(e) => return Err(e),
    }
    let mut cand = store.clone();
    let url = tidy(&req.base_url);
    let changed = !same(&cand.upstream.base_url, &url);
    cand.upstream.base_url = url;
    replace_limits(&mut cand, &req.limits);
    assert(cand@ =~= (StoreV {
        base_url: tidy_url(req.base_url@),
        limits: limits_of(req.limits),
        ..store@
    }));
    Ok((cand, changed))
}

/// What a limits request makes of the store.
pub open spec fn limits_change(store: StoreV, username: Seq<char>, req: LimitsReq) -> Result<
    StoreV,
    RefusedV,
> {
    as_admin(store, username, StoreV { limits: limits_of(req), ..store })
}

/// The store with the given limits.
pub fn limits(store: &StoredConfig, username: &str, req: &LimitsReq) -> (r: Result<
    StoredConfig,
    Refused,
>)
    ensures
        outcome(r) == limits_change(store@, username@, *req),
{
    match require_admin(store, username, SERVER_SETTINGS) {
        Ok(_) => {},
        Err(e) => return Err(e),
    }
    let mut cand = store.clone();
    replace_limits(&mut cand, req);
    Ok(cand)
}

/// What a history request makes of the store.
pub open spec fn history_change(store: StoreV, username: Seq<char>, req: HistoryReq) -> Result<
    StoreV,
    RefusedV,
> {
    as_admin(
        store,
        username,
        StoreV {
            history_days: req.days,
            dashboard: DashboardV {
                default_window_days: req.default_window_days,
                slo_target_percent: req.slo_target_percent.pattern(),
            },
            ..store
        },
    )
}

/// The store with the given retention, default window and objective.
pub fn history(store: &StoredConfig, username: &str, req: &HistoryReq) -> (r: Result<
    StoredConfig,
    Refused,
>)
    ensures
        outcome(r) == history_change(store@, username@, *req),
{
    match require_admin(store, username, SERVER_SETTINGS) {
        Ok(_) => {},
        Err(e) => return Err(e),
    }
    let mut cand = store.clone();
    cand.history = HistoryCfg { days: req.days };
    cand.dashboard = DashboardCfg {
        default_window_days: req.default_window_days,
        slo_target_percent: req.slo_target_percent,
    };
    assert(cand@ =~= (StoreV {
        history_days: req.days,
        dashboard: DashboardV {
            default_window_days: req.default_window_days,
            slo_target_percent: req.slo_target_percent.pattern(),
        },
        ..store@
    }));
    Ok(cand)
}

/// The governor section after a request: what is omitted is left alone, and
/// a pin is set before one is dropped.
pub open spec fn governor_after(g: GovernorV, req: GovernorReq) -> GovernorV {
    let pinned = match req.set_override {
        Some(o) => g.overrides.insert(o.model@, o.cap),
        None => g.overrides,
    };
    GovernorV {
        enabled: match req.enabled {
            Some(e) => e,
            None => g.enabled,
        },
        overrides: match req.remove_override {
            Some(m) => pinned.remove(m@),
            None => pinned,
        },
    }
}

/// What a governor request makes of the store.
pub open spec fn governor_change(store: StoreV, username: Seq<char>, req: GovernorReq) -> Result<
    StoreV,
    RefusedV,
> {
    as_admin(
        store,
        username,
        StoreV { governor: governor_after(store.governor, req), ..store },
    )
}

/// The store with the governor section changed.
pub fn governor_cfg(store: &StoredConfig, username: &str, req: &GovernorReq) -> (r: Result<
    StoredConfig,
    Refused,
>)
    ensures
        outcome(r) == governor_change(store@, username@, *req),
{
    match require_admin(store, username, SERVER_SETTINGS) {
        Ok(_) => {},
        Err(e) => return Err(e),
    }
    let mut cand = store.clone();
    if let Some(e) = req.enabled {
        cand.governor.enabled = e;
    }
    if let Some(o) = &req.set_override {
        cand.governor.overrides.insert(o.model.clone(), o.cap);
    }
    if let Some(m) = &req.remove_override {
        cand.governor.overrides.remove(m);
    }
    assert(cand@ =~= (StoreV { governor: governor_after(store@.governor, *req), ..store@ }));
    Ok(cand)
}

/// What a search-provider request makes of the store.
pub open spec fn web_search_change(
    store: StoreV,
    username: Seq<char>,
    req: WebSearchReq,
) -> Result<StoreV, RefusedV> {
    as_admin(
        store,
        username,
        StoreV {
            web_search: WebSearchCfgV {
                base_url: req.base_url@,
                format: req.format,
                max_results: req.max_results,
                timeout_secs: req.timeout_secs,
            },
            ..store
        },
    )
}

/// The store with the given search provider.
pub fn web_search_cfg(store: &StoredConfig, username: &str, req: &WebSearchReq) -> (r: Result<
    StoredConfig,
    Refused,
>)
    ensures
        outcome(r) == web_search_change(store@, username@, *req),
{
    match require_admin(store, username, SERVER_SETTINGS) {
        Ok(_) => {},
        Err(e) => return Err(e),
    }
    let mut cand = store.clone();
    cand.web_search = WebSearchCfg {
        base_url: req.base_url.clone(),
        format: req.format,
        max_results: req.max_results,
        timeout_secs: req.timeout_secs,
    };
    assert(cand@.web_search == (WebSearchCfgV {
        base_url: req.base_url@,
        format: req.format,
        max_results: req.max_results,
        timeout_secs: req.timeout_secs,
    }));
    Ok(cand)
}

}
