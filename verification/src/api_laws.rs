//! What the settings and dashboard interfaces put on the wire: every member
//! under its own name, and no other.
use crate::api::{
    dashboard_wire, error_wire, governor_wire, json_refusal, limits_wire, web_search_wire,
    ClientKeyRowV, ClientsResponse, ConfigV, DashboardNowResponse, DashboardResponse,
    DashboardWindow, HistorySettingsV, JsonFault, MintedClientKey, NimKeyRowV, PoolSummary,
    ServerSettingsV, SetupResponse, UserRowV, ValidateKeyResponse,
};
use crate::config::{
    DashboardV, GovernorV, Limits, Mode, Role, SearchFormat, WebSearchCfgV,
};
use crate::json::{items_view, JsonV};
use vstd::prelude::*;

verus! {

/// The members, told apart.
proof fn lemma_client_key_rows_keys()
    ensures
        "last4"@ != "name"@,
        "last4"@ != "owner"@,
        "name"@ != "owner"@,
{
    reveal_strlit("last4");
    reveal_strlit("name");
    reveal_strlit("owner");
    assert("last4"@.len() == 5);
    assert("name"@.len() == 4);
    assert("owner"@.len() == 5);
    assert("last4"@[0] == 'l');
    assert("owner"@[0] == 'o');
}

/// A client key is shown by its name, its owner and its last four characters,
/// and nothing else of it is.
pub proof fn law_client_key_rows(row: ClientKeyRowV, key: Seq<char>)
    ensures
        ({
            let j = row.wire();
            &&& j.get("last4"@) == Some(JsonV::Str(row.last4))
            &&& j.get("name"@) == Some(JsonV::Str(row.name))
            &&& j.get("owner"@) == Some(JsonV::Str(row.owner))
            &&& key != "last4"@ && key != "name"@ && key != "owner"@ ==> j.get(key) is None
        }),
{
    lemma_client_key_rows_keys();
}

/// The members, told apart.
proof fn lemma_nim_key_rows_keys()
    ensures
        "cooldown_ms"@ != "enabled"@,
        "cooldown_ms"@ != "fingerprint"@,
        "cooldown_ms"@ != "guarded"@,
        "cooldown_ms"@ != "in_window"@,
        "cooldown_ms"@ != "lane"@,
        "cooldown_ms"@ != "last4"@,
        "cooldown_ms"@ != "owner"@,
        "cooldown_ms"@ != "rpm"@,
        "enabled"@ != "fingerprint"@,
        "enabled"@ != "guarded"@,
        "enabled"@ != "in_window"@,
        "enabled"@ != "lane"@,
        "enabled"@ != "last4"@,
        "enabled"@ != "owner"@,
        "enabled"@ != "rpm"@,
        "fingerprint"@ != "guarded"@,
        "fingerprint"@ != "in_window"@,
        "fingerprint"@ != "lane"@,
        "fingerprint"@ != "last4"@,
        "fingerprint"@ != "owner"@,
        "fingerprint"@ != "rpm"@,
        "guarded"@ != "in_window"@,
        "guarded"@ != "lane"@,
        "guarded"@ != "last4"@,
        "guarded"@ != "owner"@,
        "guarded"@ != "rpm"@,
        "in_window"@ != "lane"@,
        "in_window"@ != "last4"@,
        "in_window"@ != "owner"@,
        "in_window"@ != "rpm"@,
        "lane"@ != "last4"@,
        "lane"@ != "owner"@,
        "lane"@ != "rpm"@,
        "last4"@ != "owner"@,
        "last4"@ != "rpm"@,
        "owner"@ != "rpm"@,
{
    reveal_strlit("cooldown_ms");
    reveal_strlit("enabled");
    reveal_strlit("fingerprint");
    reveal_strlit("guarded");
    reveal_strlit("in_window");
    reveal_strlit("lane");
    reveal_strlit("last4");
    reveal_strlit("owner");
    reveal_strlit("rpm");
    assert("cooldown_ms"@.len() == 11);
    assert("enabled"@.len() == 7);
    assert("fingerprint"@.len() == 11);
    assert("guarded"@.len() == 7);
    assert("in_window"@.len() == 9);
    assert("lane"@.len() == 4);
    assert("last4"@.len() == 5);
    assert("owner"@.len() == 5);
    assert("rpm"@.len() == 3);
    assert("cooldown_ms"@[0] == 'c');
    assert("enabled"@[0] == 'e');
    assert("fingerprint"@[0] == 'f');
    assert("guarded"@[0] == 'g');
    assert("last4"@[0] == 'l');
    assert("owner"@[0] == 'o');
}

/// A NIM key is shown by its fingerprint and its last four characters, with
/// what is set of it and how its lane stands; its text is not.
pub proof fn law_nim_key_rows(row: NimKeyRowV, key: Seq<char>)
    ensures
        ({
            let j = row.wire();
            &&& j.get("cooldown_ms"@) == Some(match row.cooldown_ms {
                Some(n) => JsonV::Int(n as int),
                None => JsonV::Null,
            })
            &&& j.get("enabled"@) == Some(JsonV::Bool(row.enabled))
            &&& j.get("fingerprint"@) == Some(JsonV::Str(row.fingerprint))
            &&& j.get("guarded"@) == Some(JsonV::Bool(row.guarded))
            &&& j.get("in_window"@) == Some(match row.in_window {
                Some(n) => JsonV::Int(n as int),
                None => JsonV::Null,
            })
            &&& j.get("lane"@) == Some(match row.lane {
                Some(n) => JsonV::Int(n as int),
                None => JsonV::Null,
            })
            &&& j.get("last4"@) == Some(JsonV::Str(row.last4))
            &&& j.get("owner"@) == Some(JsonV::Str(row.owner))
            &&& j.get("rpm"@) == Some(JsonV::Int(row.rpm as int))
            &&& key != "cooldown_ms"@ && key != "enabled"@ && key != "fingerprint"@ && key != "guarded"@ && key != "in_window"@ && key != "lane"@ && key != "last4"@ && key != "owner"@ && key != "rpm"@ ==> j.get(key) is None
        }),
{
    lemma_nim_key_rows_keys();
}

/// The members, told apart.
proof fn lemma_pool_summaries_keys()
    ensures
        "capacity_rpm"@ != "enabled"@,
{
    reveal_strlit("capacity_rpm");
    reveal_strlit("enabled");
    assert("capacity_rpm"@.len() == 12);
    assert("enabled"@.len() == 7);
}

/// A pool is told by its capacity and its enabled keys.
pub proof fn law_pool_summaries(pool: PoolSummary, key: Seq<char>)
    ensures
        ({
            let j = pool.wire();
            &&& j.get("capacity_rpm"@) == Some(JsonV::Int(pool.capacity_rpm as int))
            &&& j.get("enabled"@) == Some(JsonV::Int(pool.enabled as int))
            &&& key != "capacity_rpm"@ && key != "enabled"@ ==> j.get(key) is None
        }),
{
    lemma_pool_summaries_keys();
}

/// The members, told apart.
proof fn lemma_history_sections_keys()
    ensures
        "available_from"@ != "compaction_pending"@,
        "available_from"@ != "days"@,
        "available_from"@ != "file_bytes"@,
        "available_from"@ != "persistence"@,
        "compaction_pending"@ != "days"@,
        "compaction_pending"@ != "file_bytes"@,
        "compaction_pending"@ != "persistence"@,
        "days"@ != "file_bytes"@,
        "days"@ != "persistence"@,
        "file_bytes"@ != "persistence"@,
{
    reveal_strlit("available_from");
    reveal_strlit("compaction_pending");
    reveal_strlit("days");
    reveal_strlit("file_bytes");
    reveal_strlit("persistence");
    assert("available_from"@.len() == 14);
    assert("compaction_pending"@.len() == 18);
    assert("days"@.len() == 4);
    assert("file_bytes"@.len() == 10);
    assert("persistence"@.len() == 11);
}

/// The history is told by its retention, its extent and its file.
pub proof fn law_history_sections(h: HistorySettingsV, key: Seq<char>)
    ensures
        ({
            let j = h.wire();
            &&& j.get("available_from"@) == Some(match h.available_from {
                Some(n) => JsonV::Int(n as int),
                None => JsonV::Null,
            })
            &&& j.get("compaction_pending"@) == Some(JsonV::Bool(h.compaction_pending))
            &&& j.get("days"@) == Some(JsonV::Int(h.days as int))
            &&& j.get("file_bytes"@) == Some(JsonV::Int(h.file_bytes as int))
            &&& j.get("persistence"@) == Some(JsonV::Str(h.persistence))
            &&& key != "available_from"@ && key != "compaction_pending"@ && key != "days"@ && key != "file_bytes"@ && key != "persistence"@ ==> j.get(key) is None
        }),
{
    lemma_history_sections_keys();
}

/// The members, told apart.
proof fn lemma_limits_sections_keys()
    ensures
        "heartbeat_secs"@ != "max_inflight"@,
        "heartbeat_secs"@ != "max_wait_secs"@,
        "heartbeat_secs"@ != "models_ttl_secs"@,
        "heartbeat_secs"@ != "request_timeout_secs"@,
        "heartbeat_secs"@ != "stream_idle_secs"@,
        "heartbeat_secs"@ != "strict_passthrough"@,
        "max_inflight"@ != "max_wait_secs"@,
        "max_inflight"@ != "models_ttl_secs"@,
        "max_inflight"@ != "request_timeout_secs"@,
        "max_inflight"@ != "stream_idle_secs"@,
        "max_inflight"@ != "strict_passthrough"@,
        "max_wait_secs"@ != "models_ttl_secs"@,
        "max_wait_secs"@ != "request_timeout_secs"@,
        "max_wait_secs"@ != "stream_idle_secs"@,
        "max_wait_secs"@ != "strict_passthrough"@,
        "models_ttl_secs"@ != "request_timeout_secs"@,
        "models_ttl_secs"@ != "stream_idle_secs"@,
        "models_ttl_secs"@ != "strict_passthrough"@,
        "request_timeout_secs"@ != "stream_idle_secs"@,
        "request_timeout_secs"@ != "strict_passthrough"@,
        "stream_idle_secs"@ != "strict_passthrough"@,
{
    reveal_strlit("heartbeat_secs");
    reveal_strlit("max_inflight");
    reveal_strlit("max_wait_secs");
    reveal_strlit("models_ttl_secs");
    reveal_strlit("request_timeout_secs");
    reveal_strlit("stream_idle_secs");
    reveal_strlit("strict_passthrough");
    assert("heartbeat_secs"@.len() == 14);
    assert("max_inflight"@.len() == 12);
    assert("max_wait_secs"@.len() == 13);
    assert("models_ttl_secs"@.len() == 15);
    assert("request_timeout_secs"@.len() == 20);
    assert("stream_idle_secs"@.len() == 16);
    assert("strict_passthrough"@.len() == 18);
}

/// Limits are told under their own names.
pub proof fn law_limits_sections(l: Limits, key: Seq<char>)
    ensures
        ({
            let j = limits_wire(l);
            &&& j.get("heartbeat_secs"@) == Some(JsonV::Int(l.heartbeat_secs as int))
            &&& j.get("max_inflight"@) == Some(JsonV::Int(l.max_inflight as int))
            &&& j.get("max_wait_secs"@) == Some(JsonV::Int(l.max_wait_secs as int))
            &&& j.get("models_ttl_secs"@) == Some(JsonV::Int(l.models_ttl_secs as int))
            &&& j.get("request_timeout_secs"@) == Some(JsonV::Int(l.request_timeout_secs as int))
            &&& j.get("stream_idle_secs"@) == Some(JsonV::Int(l.stream_idle_secs as int))
            &&& j.get("strict_passthrough"@) == Some(JsonV::Bool(l.strict_passthrough))
            &&& key != "heartbeat_secs"@ && key != "max_inflight"@ && key != "max_wait_secs"@ && key != "models_ttl_secs"@ && key != "request_timeout_secs"@ && key != "stream_idle_secs"@ && key != "strict_passthrough"@ ==> j.get(key) is None
        }),
{
    lemma_limits_sections_keys();
}

/// The members, told apart.
proof fn lemma_dashboard_sections_keys()
    ensures
        "default_window_days"@ != "slo_target_percent"@,
{
    reveal_strlit("default_window_days");
    reveal_strlit("slo_target_percent");
    assert("default_window_days"@.len() == 19);
    assert("slo_target_percent"@.len() == 18);
}

/// The dashboard is told by its window and its objective.
pub proof fn law_dashboard_sections(d: DashboardV, key: Seq<char>)
    ensures
        ({
            let j = dashboard_wire(d);
            &&& j.get("default_window_days"@) == Some(JsonV::Int(d.default_window_days as int))
            &&& j.get("slo_target_percent"@) == Some(JsonV::Float(d.slo_target_percent))
            &&& key != "default_window_days"@ && key != "slo_target_percent"@ ==> j.get(key) is None
        }),
{
    lemma_dashboard_sections_keys();
}

/// The members, told apart.
proof fn lemma_web_search_sections_keys()
    ensures
        "base_url"@ != "format"@,
        "base_url"@ != "max_results"@,
        "base_url"@ != "timeout_secs"@,
        "format"@ != "max_results"@,
        "format"@ != "timeout_secs"@,
        "max_results"@ != "timeout_secs"@,
{
    reveal_strlit("base_url");
    reveal_strlit("format");
    reveal_strlit("max_results");
    reveal_strlit("timeout_secs");
    assert("base_url"@.len() == 8);
    assert("format"@.len() == 6);
    assert("max_results"@.len() == 11);
    assert("timeout_secs"@.len() == 12);
}

/// The search provider is told by its address, its format and its bounds.
pub proof fn law_web_search_sections(w: WebSearchCfgV, key: Seq<char>)
    ensures
        ({
            let j = web_search_wire(w);
            &&& j.get("base_url"@) == Some(JsonV::Str(w.base_url))
            &&& j.get("format"@) == Some(JsonV::Str(
                match w.format {
                    SearchFormat::Rss => "rss"@,
                    SearchFormat::Json => "json"@,
                },
            ))
            &&& j.get("max_results"@) == Some(JsonV::Int(w.max_results as int))
            &&& j.get("timeout_secs"@) == Some(JsonV::Int(w.timeout_secs as int))
            &&& key != "base_url"@ && key != "format"@ && key != "max_results"@ && key != "timeout_secs"@ ==> j.get(key) is None
        }),
{
    lemma_web_search_sections_keys();
}

/// The members, told apart.
proof fn lemma_server_sections_keys()
    ensures
        "base_url"@ != "dashboard"@,
        "base_url"@ != "default_locale"@,
        "base_url"@ != "governor"@,
        "base_url"@ != "history"@,
        "base_url"@ != "limits"@,
        "base_url"@ != "web_search"@,
        "dashboard"@ != "default_locale"@,
        "dashboard"@ != "governor"@,
        "dashboard"@ != "history"@,
        "dashboard"@ != "limits"@,
        "dashboard"@ != "web_search"@,
        "default_locale"@ != "governor"@,
        "default_locale"@ != "history"@,
        "default_locale"@ != "limits"@,
        "default_locale"@ != "web_search"@,
        "governor"@ != "history"@,
        "governor"@ != "limits"@,
        "governor"@ != "web_search"@,
        "history"@ != "limits"@,
        "history"@ != "web_search"@,
        "limits"@ != "web_search"@,
{
    reveal_strlit("base_url");
    reveal_strlit("dashboard");
    reveal_strlit("default_locale");
    reveal_strlit("governor");
    reveal_strlit("history");
    reveal_strlit("limits");
    reveal_strlit("web_search");
    assert("base_url"@.len() == 8);
    assert("dashboard"@.len() == 9);
    assert("default_locale"@.len() == 14);
    assert("governor"@.len() == 8);
    assert("history"@.len() == 7);
    assert("limits"@.len() == 6);
    assert("web_search"@.len() == 10);
    assert("base_url"@[0] == 'b');
    assert("governor"@[0] == 'g');
}

/// The server section holds every part of it under its own name.
pub proof fn law_server_sections(s: ServerSettingsV, key: Seq<char>)
    ensures
        ({
            let j = s.wire();
            &&& j.get("base_url"@) == Some(JsonV::Str(s.base_url))
            &&& j.get("dashboard"@) == Some(dashboard_wire(s.dashboard))
            &&& j.get("default_locale"@) == Some(JsonV::Str(s.default_locale))
            &&& j.get("governor"@) == Some(governor_wire(s.governor))
            &&& j.get("history"@) == Some(s.history.wire())
            &&& j.get("limits"@) == Some(limits_wire(s.limits))
            &&& j.get("web_search"@) == Some(web_search_wire(s.web_search))
            &&& key != "base_url"@ && key != "dashboard"@ && key != "default_locale"@ && key != "governor"@ && key != "history"@ && key != "limits"@ && key != "web_search"@ ==> j.get(key) is None
        }),
{
    lemma_server_sections_keys();
}

/// The members, told apart.
proof fn lemma_user_rows_keys()
    ensures
        "client_keys"@ != "nim_keys"@,
        "client_keys"@ != "role"@,
        "client_keys"@ != "username"@,
        "nim_keys"@ != "role"@,
        "nim_keys"@ != "username"@,
        "role"@ != "username"@,
{
    reveal_strlit("client_keys");
    reveal_strlit("nim_keys");
    reveal_strlit("role");
    reveal_strlit("username");
    assert("client_keys"@.len() == 11);
    assert("nim_keys"@.len() == 8);
    assert("role"@.len() == 4);
    assert("username"@.len() == 8);
    assert("nim_keys"@[0] == 'n');
    assert("username"@[0] == 'u');
}

/// A user is shown with the number of their keys; their password is not.
pub proof fn law_user_rows(row: UserRowV, key: Seq<char>)
    ensures
        ({
            let j = row.wire();
            &&& j.get("client_keys"@) == Some(JsonV::Int(row.client_keys as int))
            &&& j.get("nim_keys"@) == Some(JsonV::Int(row.nim_keys as int))
            &&& j.get("role"@) == Some(JsonV::Str(
                match row.role {
                    Role::Superuser => "superuser"@,
                    Role::Admin => "admin"@,
                    Role::User => "user"@,
                },
            ))
            &&& j.get("username"@) == Some(JsonV::Str(row.username))
            &&& key != "client_keys"@ && key != "nim_keys"@ && key != "role"@ && key != "username"@ ==> j.get(key) is None
        }),
{
    lemma_user_rows_keys();
}

/// The members, told apart.
proof fn lemma_settings_pages_keys()
    ensures
        "client_keys"@ != "locale"@,
        "client_keys"@ != "mode"@,
        "client_keys"@ != "nim_keys"@,
        "client_keys"@ != "pool"@,
        "client_keys"@ != "role"@,
        "client_keys"@ != "server"@,
        "client_keys"@ != "username"@,
        "client_keys"@ != "users"@,
        "locale"@ != "mode"@,
        "locale"@ != "nim_keys"@,
        "locale"@ != "pool"@,
        "locale"@ != "role"@,
        "locale"@ != "server"@,
        "locale"@ != "username"@,
        "locale"@ != "users"@,
        "mode"@ != "nim_keys"@,
        "mode"@ != "pool"@,
        "mode"@ != "role"@,
        "mode"@ != "server"@,
        "mode"@ != "username"@,
        "mode"@ != "users"@,
        "nim_keys"@ != "pool"@,
        "nim_keys"@ != "role"@,
        "nim_keys"@ != "server"@,
        "nim_keys"@ != "username"@,
        "nim_keys"@ != "users"@,
        "pool"@ != "role"@,
        "pool"@ != "server"@,
        "pool"@ != "username"@,
        "pool"@ != "users"@,
        "role"@ != "server"@,
        "role"@ != "username"@,
        "role"@ != "users"@,
        "server"@ != "username"@,
        "server"@ != "users"@,
        "username"@ != "users"@,
{
    reveal_strlit("client_keys");
    reveal_strlit("locale");
    reveal_strlit("mode");
    reveal_strlit("nim_keys");
    reveal_strlit("pool");
    reveal_strlit("role");
    reveal_strlit("server");
    reveal_strlit("username");
    reveal_strlit("users");
    assert("client_keys"@.len() == 11);
    assert("locale"@.len() == 6);
    assert("mode"@.len() == 4);
    assert("nim_keys"@.len() == 8);
    assert("pool"@.len() == 4);
    assert("role"@.len() == 4);
    assert("server"@.len() == 6);
    assert("username"@.len() == 8);
    assert("users"@.len() == 5);
    assert("locale"@[0] == 'l');
    assert("mode"@[0] == 'm');
    assert("nim_keys"@[0] == 'n');
    assert("pool"@[0] == 'p');
    assert("role"@[0] == 'r');
    assert("server"@[0] == 's');
    assert("username"@[0] == 'u');
}

/// The settings page holds its rows in order, and the server section and the
/// users only where they are shown.
pub proof fn law_settings_pages(c: ConfigV, key: Seq<char>)
    ensures
        ({
            let j = c.wire();
            &&& j.get("client_keys"@) == Some(JsonV::Array(Seq::new(c.client_keys.len(), |i: int| c.client_keys[i].wire())))
            &&& j.get("locale"@) == Some(match c.locale {
                Some(l) => JsonV::Str(l),
                None => JsonV::Null,
            })
            &&& j.get("mode"@) == Some(JsonV::Str(
                match c.mode {
                    Mode::Open => "open"@,
                    Mode::Keyed => "keyed"@,
                },
            ))
            &&& j.get("nim_keys"@) == Some(JsonV::Array(Seq::new(c.nim_keys.len(), |i: int| c.nim_keys[i].wire())))
            &&& j.get("pool"@) == Some(c.pool.wire())
            &&& j.get("role"@) == Some(JsonV::Str(
                match c.role {
                    Role::Superuser => "superuser"@,
                    Role::Admin => "admin"@,
                    Role::User => "user"@,
                },
            ))
            &&& j.get("username"@) == Some(JsonV::Str(c.username))
            &&& j.get("server"@) == match c.server {
                Some(s) => Some(s.wire()),
                None => None,
            }
            &&& j.get("users"@) == match c.users {
                Some(rows) => Some(JsonV::Array(Seq::new(rows.len(), |i: int| rows[i].wire()))),
                None => None,
            }
            &&& key != "client_keys"@ && key != "locale"@ && key != "mode"@ && key != "nim_keys"@ && key != "pool"@ && key != "role"@ && key != "username"@ && key != "server"@ && key != "users"@ ==> j.get(key) is None
        }),
{
    lemma_settings_pages_keys();
}

/// The members, told apart.
proof fn lemma_clients_answers_keys()
    ensures
        "ok"@ != "secret"@,
{
    reveal_strlit("ok");
    reveal_strlit("secret");
    assert("ok"@.len() == 2);
    assert("secret"@.len() == 6);
}

/// The answer to a client-key request holds the secret where one was minted.
pub proof fn law_clients_answers(r: ClientsResponse, key: Seq<char>)
    ensures
        ({
            let j = r.wire();
            &&& j.get("ok"@) == Some(JsonV::Bool(r.ok))
            &&& j.get("secret"@) == match r.secret {
                Some(s) => Some(JsonV::Str(s@)),
                None => None,
            }
            &&& key != "ok"@ && key != "secret"@ ==> j.get(key) is None
        }),
{
    lemma_clients_answers_keys();
}

/// The members, told apart.
proof fn lemma_probe_answers_keys()
    ensures
        "error"@ != "models"@,
        "error"@ != "ok"@,
        "models"@ != "ok"@,
{
    reveal_strlit("error");
    reveal_strlit("models");
    reveal_strlit("ok");
    assert("error"@.len() == 5);
    assert("models"@.len() == 6);
    assert("ok"@.len() == 2);
}

/// The answer to a probe holds the number of models, or the complaint.
pub proof fn law_probe_answers(r: ValidateKeyResponse, key: Seq<char>)
    ensures
        ({
            let j = r.wire();
            &&& j.get("ok"@) == Some(JsonV::Bool(r.ok))
            &&& j.get("error"@) == match r.error {
                Some(e) => Some(JsonV::Str(e@)),
                None => None,
            }
            &&& j.get("models"@) == match r.models {
                Some(n) => Some(JsonV::Int(n as int)),
                None => None,
            }
            &&& key != "ok"@ && key != "error"@ && key != "models"@ ==> j.get(key) is None
        }),
{
    lemma_probe_answers_keys();
}

/// The members, told apart.
proof fn lemma_minted_keys_keys()
    ensures
        "name"@ != "secret"@,
{
    reveal_strlit("name");
    reveal_strlit("secret");
    assert("name"@.len() == 4);
    assert("secret"@.len() == 6);
}

/// A minted key is shown with its name and its secret.
pub proof fn law_minted_keys(k: MintedClientKey, key: Seq<char>)
    ensures
        ({
            let j = k.wire();
            &&& j.get("name"@) == Some(JsonV::Str(k.name@))
            &&& j.get("secret"@) == Some(JsonV::Str(k.secret@))
            &&& key != "name"@ && key != "secret"@ ==> j.get(key) is None
        }),
{
    lemma_minted_keys_keys();
}

/// The members, told apart.
proof fn lemma_setup_answers_keys()
    ensures
        "client_key"@ != "ok"@,
{
    reveal_strlit("client_key");
    reveal_strlit("ok");
    assert("client_key"@.len() == 10);
    assert("ok"@.len() == 2);
}

/// The answer to the claim holds the minted key where there is one.
pub proof fn law_setup_answers(r: SetupResponse, key: Seq<char>)
    ensures
        ({
            let j = r.wire();
            &&& j.get("ok"@) == Some(JsonV::Bool(r.ok))
            &&& j.get("client_key"@) == match r.client_key {
                Some(k) => Some(k.wire()),
                None => None,
            }
            &&& key != "ok"@ && key != "client_key"@ ==> j.get(key) is None
        }),
{
    lemma_setup_answers_keys();
}

/// The members, told apart.
proof fn lemma_dashboard_windows_keys()
    ensures
        "available_from"@ != "available_to"@,
        "available_from"@ != "complete"@,
        "available_from"@ != "default_window_days"@,
        "available_from"@ != "effective_from"@,
        "available_from"@ != "effective_to"@,
        "available_from"@ != "following_now"@,
        "available_from"@ != "requested_from"@,
        "available_from"@ != "requested_to"@,
        "available_from"@ != "retention_days"@,
        "available_to"@ != "complete"@,
        "available_to"@ != "default_window_days"@,
        "available_to"@ != "effective_from"@,
        "available_to"@ != "effective_to"@,
        "available_to"@ != "following_now"@,
        "available_to"@ != "requested_from"@,
        "available_to"@ != "requested_to"@,
        "available_to"@ != "retention_days"@,
        "complete"@ != "default_window_days"@,
        "complete"@ != "effective_from"@,
        "complete"@ != "effective_to"@,
        "complete"@ != "following_now"@,
        "complete"@ != "requested_from"@,
        "complete"@ != "requested_to"@,
        "complete"@ != "retention_days"@,
        "default_window_days"@ != "effective_from"@,
        "default_window_days"@ != "effective_to"@,
        "default_window_days"@ != "following_now"@,
        "default_window_days"@ != "requested_from"@,
        "default_window_days"@ != "requested_to"@,
        "default_window_days"@ != "retention_days"@,
        "effective_from"@ != "effective_to"@,
        "effective_from"@ != "following_now"@,
        "effective_from"@ != "requested_from"@,
        "effective_from"@ != "requested_to"@,
        "effective_from"@ != "retention_days"@,
        "effective_to"@ != "following_now"@,
        "effective_to"@ != "requested_from"@,
        "effective_to"@ != "requested_to"@,
        "effective_to"@ != "retention_days"@,
        "following_now"@ != "requested_from"@,
        "following_now"@ != "requested_to"@,
        "following_now"@ != "retention_days"@,
        "requested_from"@ != "requested_to"@,
        "requested_from"@ != "retention_days"@,
        "requested_to"@ != "retention_days"@,
{
    reveal_strlit("available_from");
    reveal_strlit("available_to");
    reveal_strlit("complete");
    reveal_strlit("default_window_days");
    reveal_strlit("effective_from");
    reveal_strlit("effective_to");
    reveal_strlit("following_now");
    reveal_strlit("requested_from");
    reveal_strlit("requested_to");
    reveal_strlit("retention_days");
    assert("available_from"@.len() == 14);
    assert("available_to"@.len() == 12);
    assert("complete"@.len() == 8);
    assert("default_window_days"@.len() == 19);
    assert("effective_from"@.len() == 14);
    assert("effective_to"@.len() == 12);
    assert("following_now"@.len() == 13);
    assert("requested_from"@.len() == 14);
    assert("requested_to"@.len() == 12);
    assert("retention_days"@.len() == 14);
    assert("available_from"@[0] == 'a');
    assert("available_to"@[0] == 'a');
    assert("effective_from"@[0] == 'e');
    assert("effective_to"@[0] == 'e');
    assert("requested_from"@[0] == 'r');
    assert("requested_from"@[2] == 'q');
    assert("requested_to"@[0] == 'r');
    assert("retention_days"@[0] == 'r');
    assert("retention_days"@[2] == 't');
}

/// A window is told by what was asked for, what there is and what is shown.
pub proof fn law_dashboard_windows(w: DashboardWindow, key: Seq<char>)
    ensures
        ({
            let j = w.wire();
            &&& j.get("available_from"@) == Some(match w.available_from {
                Some(n) => JsonV::Int(n as int),
                None => JsonV::Null,
            })
            &&& j.get("available_to"@) == Some(match w.available_to {
                Some(n) => JsonV::Int(n as int),
                None => JsonV::Null,
            })
            &&& j.get("effective_from"@) == Some(match w.effective_from {
                Some(n) => JsonV::Int(n as int),
                None => JsonV::Null,
            })
            &&& j.get("effective_to"@) == Some(match w.effective_to {
                Some(n) => JsonV::Int(n as int),
                None => JsonV::Null,
            })
            &&& j.get("complete"@) == Some(JsonV::Bool(w.complete))
            &&& j.get("following_now"@) == Some(JsonV::Bool(w.following_now))
            &&& j.get("default_window_days"@) == Some(JsonV::Int(w.default_window_days as int))
            &&& j.get("requested_from"@) == Some(JsonV::Int(w.requested_from as int))
            &&& j.get("requested_to"@) == Some(JsonV::Int(w.requested_to as int))
            &&& j.get("retention_days"@) == Some(JsonV::Int(w.retention_days as int))
            &&& key != "available_from"@ && key != "available_to"@ && key != "effective_from"@ && key != "effective_to"@ && key != "complete"@ && key != "following_now"@ && key != "default_window_days"@ && key != "requested_from"@ && key != "requested_to"@ && key != "retention_days"@ ==> j.get(key) is None
        }),
{
    lemma_dashboard_windows_keys();
}

/// The members, told apart.
proof fn lemma_dashboards_keys()
    ensures
        "config_revision"@ != "diagnostics"@,
        "config_revision"@ != "history_revision"@,
        "config_revision"@ != "latest"@,
        "config_revision"@ != "points"@,
        "config_revision"@ != "totals"@,
        "config_revision"@ != "window"@,
        "diagnostics"@ != "history_revision"@,
        "diagnostics"@ != "latest"@,
        "diagnostics"@ != "points"@,
        "diagnostics"@ != "totals"@,
        "diagnostics"@ != "window"@,
        "history_revision"@ != "latest"@,
        "history_revision"@ != "points"@,
        "history_revision"@ != "totals"@,
        "history_revision"@ != "window"@,
        "latest"@ != "points"@,
        "latest"@ != "totals"@,
        "latest"@ != "window"@,
        "points"@ != "totals"@,
        "points"@ != "window"@,
        "totals"@ != "window"@,
{
    reveal_strlit("config_revision");
    reveal_strlit("diagnostics");
    reveal_strlit("history_revision");
    reveal_strlit("latest");
    reveal_strlit("points");
    reveal_strlit("totals");
    reveal_strlit("window");
    assert("config_revision"@.len() == 15);
    assert("diagnostics"@.len() == 11);
    assert("history_revision"@.len() == 16);
    assert("latest"@.len() == 6);
    assert("points"@.len() == 6);
    assert("totals"@.len() == 6);
    assert("window"@.len() == 6);
    assert("latest"@[0] == 'l');
    assert("points"@[0] == 'p');
    assert("totals"@[0] == 't');
    assert("window"@[0] == 'w');
}

/// A dashboard holds its series under their own names, in order.
pub proof fn law_dashboards(d: DashboardResponse, key: Seq<char>)
    ensures
        ({
            let j = d.wire();
            &&& j.get("config_revision"@) == Some(JsonV::Int(d.config_revision as int))
            &&& j.get("diagnostics"@) == Some(d.diagnostics@)
            &&& j.get("history_revision"@) == Some(JsonV::Int(d.history_revision as int))
            &&& j.get("latest"@) == Some(JsonV::Array(items_view(d.latest@)))
            &&& j.get("points"@) == Some(JsonV::Array(items_view(d.points@)))
            &&& j.get("totals"@) == Some(JsonV::Array(items_view(d.totals@)))
            &&& j.get("window"@) == Some(d.window.wire())
            &&& key != "config_revision"@ && key != "diagnostics"@ && key != "history_revision"@ && key != "latest"@ && key != "points"@ && key != "totals"@ && key != "window"@ ==> j.get(key) is None
        }),
{
    lemma_dashboards_keys();
}

/// The members, told apart.
proof fn lemma_dashboards_now_keys()
    ensures
        "auth"@ != "available_from"@,
        "auth"@ != "available_to"@,
        "auth"@ != "capacity_rpm"@,
        "auth"@ != "config_revision"@,
        "auth"@ != "default_window_days"@,
        "auth"@ != "history_revision"@,
        "auth"@ != "lanes"@,
        "auth"@ != "metrics"@,
        "auth"@ != "retention_days"@,
        "auth"@ != "rpms"@,
        "auth"@ != "sampled_at"@,
        "auth"@ != "slo_target_percent"@,
        "auth"@ != "started"@,
        "auth"@ != "tail"@,
        "auth"@ != "version"@,
        "available_from"@ != "available_to"@,
        "available_from"@ != "capacity_rpm"@,
        "available_from"@ != "config_revision"@,
        "available_from"@ != "default_window_days"@,
        "available_from"@ != "history_revision"@,
        "available_from"@ != "lanes"@,
        "available_from"@ != "metrics"@,
        "available_from"@ != "retention_days"@,
        "available_from"@ != "rpms"@,
        "available_from"@ != "sampled_at"@,
        "available_from"@ != "slo_target_percent"@,
        "available_from"@ != "started"@,
        "available_from"@ != "tail"@,
        "available_from"@ != "version"@,
        "available_to"@ != "capacity_rpm"@,
        "available_to"@ != "config_revision"@,
        "available_to"@ != "default_window_days"@,
        "available_to"@ != "history_revision"@,
        "available_to"@ != "lanes"@,
        "available_to"@ != "metrics"@,
        "available_to"@ != "retention_days"@,
        "available_to"@ != "rpms"@,
        "available_to"@ != "sampled_at"@,
        "available_to"@ != "slo_target_percent"@,
        "available_to"@ != "started"@,
        "available_to"@ != "tail"@,
        "available_to"@ != "version"@,
        "capacity_rpm"@ != "config_revision"@,
        "capacity_rpm"@ != "default_window_days"@,
        "capacity_rpm"@ != "history_revision"@,
        "capacity_rpm"@ != "lanes"@,
        "capacity_rpm"@ != "metrics"@,
        "capacity_rpm"@ != "retention_days"@,
        "capacity_rpm"@ != "rpms"@,
        "capacity_rpm"@ != "sampled_at"@,
        "capacity_rpm"@ != "slo_target_percent"@,
        "capacity_rpm"@ != "started"@,
        "capacity_rpm"@ != "tail"@,
        "capacity_rpm"@ != "version"@,
        "config_revision"@ != "default_window_days"@,
        "config_revision"@ != "history_revision"@,
        "config_revision"@ != "lanes"@,
        "config_revision"@ != "metrics"@,
        "config_revision"@ != "retention_days"@,
        "config_revision"@ != "rpms"@,
        "config_revision"@ != "sampled_at"@,
        "config_revision"@ != "slo_target_percent"@,
        "config_revision"@ != "started"@,
        "config_revision"@ != "tail"@,
        "config_revision"@ != "version"@,
        "default_window_days"@ != "history_revision"@,
        "default_window_days"@ != "lanes"@,
        "default_window_days"@ != "metrics"@,
        "default_window_days"@ != "retention_days"@,
        "default_window_days"@ != "rpms"@,
        "default_window_days"@ != "sampled_at"@,
        "default_window_days"@ != "slo_target_percent"@,
        "default_window_days"@ != "started"@,
        "default_window_days"@ != "tail"@,
        "default_window_days"@ != "version"@,
        "history_revision"@ != "lanes"@,
        "history_revision"@ != "metrics"@,
        "history_revision"@ != "retention_days"@,
        "history_revision"@ != "rpms"@,
        "history_revision"@ != "sampled_at"@,
        "history_revision"@ != "slo_target_percent"@,
        "history_revision"@ != "started"@,
        "history_revision"@ != "tail"@,
        "history_revision"@ != "version"@,
        "lanes"@ != "metrics"@,
        "lanes"@ != "retention_days"@,
        "lanes"@ != "rpms"@,
        "lanes"@ != "sampled_at"@,
        "lanes"@ != "slo_target_percent"@,
        "lanes"@ != "started"@,
        "lanes"@ != "tail"@,
        "lanes"@ != "version"@,
        "metrics"@ != "retention_days"@,
        "metrics"@ != "rpms"@,
        "metrics"@ != "sampled_at"@,
        "metrics"@ != "slo_target_percent"@,
        "metrics"@ != "started"@,
        "metrics"@ != "tail"@,
        "metrics"@ != "version"@,
        "retention_days"@ != "rpms"@,
        "retention_days"@ != "sampled_at"@,
        "retention_days"@ != "slo_target_percent"@,
        "retention_days"@ != "started"@,
        "retention_days"@ != "tail"@,
        "retention_days"@ != "version"@,
        "rpms"@ != "sampled_at"@,
        "rpms"@ != "slo_target_percent"@,
        "rpms"@ != "started"@,
        "rpms"@ != "tail"@,
        "rpms"@ != "version"@,
        "sampled_at"@ != "slo_target_percent"@,
        "sampled_at"@ != "started"@,
        "sampled_at"@ != "tail"@,
        "sampled_at"@ != "version"@,
        "slo_target_percent"@ != "started"@,
        "slo_target_percent"@ != "tail"@,
        "slo_target_percent"@ != "version"@,
        "started"@ != "tail"@,
        "started"@ != "version"@,
        "tail"@ != "version"@,
{
    reveal_strlit("auth");
    reveal_strlit("available_from");
    reveal_strlit("available_to");
    reveal_strlit("capacity_rpm");
    reveal_strlit("config_revision");
    reveal_strlit("default_window_days");
    reveal_strlit("history_revision");
    reveal_strlit("lanes");
    reveal_strlit("metrics");
    reveal_strlit("retention_days");
    reveal_strlit("rpms");
    reveal_strlit("sampled_at");
    reveal_strlit("slo_target_percent");
    reveal_strlit("started");
    reveal_strlit("tail");
    reveal_strlit("version");
    assert("auth"@.len() == 4);
    assert("available_from"@.len() == 14);
    assert("available_to"@.len() == 12);
    assert("capacity_rpm"@.len() == 12);
    assert("config_revision"@.len() == 15);
    assert("default_window_days"@.len() == 19);
    assert("history_revision"@.len() == 16);
    assert("lanes"@.len() == 5);
    assert("metrics"@.len() == 7);
    assert("retention_days"@.len() == 14);
    assert("rpms"@.len() == 4);
    assert("sampled_at"@.len() == 10);
    assert("slo_target_percent"@.len() == 18);
    assert("started"@.len() == 7);
    assert("tail"@.len() == 4);
    assert("version"@.len() == 7);
    assert("auth"@[0] == 'a');
    assert("available_from"@[0] == 'a');
    assert("available_to"@[0] == 'a');
    assert("capacity_rpm"@[0] == 'c');
    assert("metrics"@[0] == 'm');
    assert("retention_days"@[0] == 'r');
    assert("rpms"@[0] == 'r');
    assert("started"@[0] == 's');
    assert("tail"@[0] == 't');
    assert("version"@[0] == 'v');
}

/// The dashboard of the moment holds its figures under their own names.
pub proof fn law_dashboards_now(d: DashboardNowResponse, key: Seq<char>)
    ensures
        ({
            let j = d.wire();
            &&& j.get("auth"@) == Some(JsonV::Bool(d.auth))
            &&& j.get("available_from"@) == Some(match d.available_from {
                Some(n) => JsonV::Int(n as int),
                None => JsonV::Null,
            })
            &&& j.get("available_to"@) == Some(match d.available_to {
                Some(n) => JsonV::Int(n as int),
                None => JsonV::Null,
            })
            &&& j.get("capacity_rpm"@) == Some(JsonV::Int(d.capacity_rpm as int))
            &&& j.get("config_revision"@) == Some(JsonV::Int(d.config_revision as int))
            &&& j.get("default_window_days"@) == Some(JsonV::Int(d.default_window_days as int))
            &&& j.get("history_revision"@) == Some(JsonV::Int(d.history_revision as int))
            &&& j.get("lanes"@) == Some(JsonV::Int(d.lanes as int))
            &&& j.get("retention_days"@) == Some(JsonV::Int(d.retention_days as int))
            &&& j.get("sampled_at"@) == Some(JsonV::Int(d.sampled_at as int))
            &&& j.get("started"@) == Some(JsonV::Int(d.started as int))
            &&& j.get("metrics"@) == Some(JsonV::Array(items_view(d.metrics@)))
            &&& j.get("rpms"@) == Some(JsonV::Array(Seq::new(d.rpms@.len(), |i: int| JsonV::Int(d.rpms@[i] as int))))
            &&& j.get("slo_target_percent"@) == Some(JsonV::Float(d.slo_target_percent.pattern()))
            &&& j.get("tail"@) == Some(d.tail@)
            &&& j.get("version"@) == Some(JsonV::Str(d.version@))
            &&& key != "auth"@ && key != "available_from"@ && key != "available_to"@ && key != "capacity_rpm"@ && key != "config_revision"@ && key != "default_window_days"@ && key != "history_revision"@ && key != "lanes"@ && key != "retention_days"@ && key != "sampled_at"@ && key != "started"@ && key != "metrics"@ && key != "rpms"@ && key != "slo_target_percent"@ && key != "tail"@ && key != "version"@ ==> j.get(key) is None
        }),
{
    lemma_dashboards_now_keys();
}

/// The governor is told by its switch and by its pins, a number for each
/// pinned model and for no other.
pub proof fn law_governor_sections(g: GovernorV, model: Seq<char>)
    ensures
        governor_wire(g).get("enabled"@) == Some(JsonV::Bool(g.enabled)),
        governor_wire(g).get("overrides"@) is Some,
        governor_wire(g).get("overrides"@)->0.get(model) == if g.overrides.contains_key(model) {
            Some(JsonV::Int(g.overrides[model] as int))
        } else {
            None
        },
{
    reveal_strlit("enabled");
    reveal_strlit("overrides");
    assert("enabled"@.len() == 7 && "overrides"@.len() == 9);
}

/// An error on the wire holds its code and its message.
pub proof fn law_errors_on_the_wire(code: Seq<char>, message: Seq<char>)
    ensures
        error_wire(code, message).get("error"@) is Some,
        error_wire(code, message).get("error"@)->0.get_str("code"@) == Some(code),
        error_wire(code, message).get("error"@)->0.get_str("message"@) == Some(message),
        error_wire(code, message).get("error"@)->0.get_str("type"@) == Some("proxy_error"@),
{
    reveal_strlit("code");
    reveal_strlit("message");
    reveal_strlit("type");
    assert("code"@.len() == 4 && "message"@.len() == 7 && "type"@.len() == 4);
    assert("code"@[0] == 'c' && "type"@[0] == 't');
}

/// A body that cannot be taken is refused by what is wrong with it.
pub proof fn law_bad_bodies_are_told_apart()
    ensures
        json_refusal(JsonFault::ContentType).status == 415,
        json_refusal(JsonFault::TooLarge).status == 413,
        json_refusal(JsonFault::Shape).status == 422,
        json_refusal(JsonFault::Unreadable).status == 400,
        json_refusal(JsonFault::Syntax).status == 400,
        json_refusal(JsonFault::ContentType).code == "unsupported_media_type"@,
        json_refusal(JsonFault::TooLarge).code == "body_too_large"@,
        json_refusal(JsonFault::Shape).code == "invalid_json"@,
        json_refusal(JsonFault::Unreadable).code == "invalid_json"@,
        json_refusal(JsonFault::Syntax).code == "invalid_json"@,
{
}

}
