//! The JSON wire format of the dashboard API, as types. Every body is an
//! object; its members come in the order of their names, which is the order
//! the JSON printer gives them.
use crate::config::{
    pins_json, DashboardCfg, DashboardV, GovernorCfg, GovernorV, Limits, Mode, Role, StoredConfig,
    WebSearchCfg, WebSearchCfgV,
};
use crate::json::{
    empty_object, items_view, lemma_items_push, FiniteFloat, Json, JsonV, Num,
};
use crate::text::{opt_text, texts};
use vstd::prelude::*;

verus! {

/// A number, or null.
pub open spec fn number_or_null(n: Option<u64>) -> JsonV {
    match n {
        Some(n) => JsonV::Int(n as int),
        None => JsonV::Null,
    }
}

/// A string, or null.
pub open spec fn text_or_null(s: Option<Seq<char>>) -> JsonV {
    match s {
        Some(s) => JsonV::Str(s),
        None => JsonV::Null,
    }
}

/// An optional size as an optional number.
pub open spec fn widened(n: Option<usize>) -> Option<u64> {
    match n {
        Some(n) => Some(n as u64),
        None => None,
    }
}

/// An array of strings.
pub open spec fn text_list(items: Seq<Seq<char>>) -> JsonV {
    JsonV::Array(Seq::new(items.len(), |i: int| JsonV::Str(items[i])))
}

/// An array of sizes.
pub open spec fn size_list(items: Seq<usize>) -> JsonV {
    JsonV::Array(Seq::new(items.len(), |i: int| JsonV::Int(items[i] as int)))
}

fn number_json(n: Option<u64>) -> (r: Json)
    ensures
        r@ == number_or_null(n),
{
    match n {
        Some(n) => Json::uint(n),
        None => Json::Null,
    }
}

fn size_json(n: Option<usize>) -> (r: Json)
    ensures
        r@ == number_or_null(widened(n)),
{
    match n {
        Some(n) => Json::uint(n as u64),
        None => Json::Null,
    }
}

fn text_json(s: &Option<String>) -> (r: Json)
    ensures
        r@ == text_or_null(opt_text(*s)),
{
    match s {
        Some(s) => Json::text(s),
        None => Json::Null,
    }
}

fn float_json(f: FiniteFloat) -> (r: Json)
    ensures
        r@ == JsonV::Float(f.pattern()),
{
    Json::Number(Num::Float(f))
}

fn texts_json(items: &Vec<String>) -> (r: Json)
    ensures
        r@ == text_list(texts(items@)),
{
    let mut out: Vec<Json> = Vec::new();
    let mut i: usize = 0;
    while i < items.len()
        invariant
            i <= items@.len(),
            items_view(out@) =~= Seq::new(i as nat, |j: int| JsonV::Str(texts(items@)[j])),
        decreases items@.len() - i,
    {
        let item = Json::text(&items[i]);
        proof {
            lemma_items_push(out@, item);
        }
        out.push(item);
        i = i + 1;
    }
    Json::Array(out)
}

fn sizes_json(items: &Vec<usize>) -> (r: Json)
    ensures
        r@ == size_list(items@),
{
    let mut out: Vec<Json> = Vec::new();
    let mut i: usize = 0;
    while i < items.len()
        invariant
            i <= items@.len(),
            items_view(out@) =~= Seq::new(i as nat, |j: int| JsonV::Int(items@[j] as int)),
        decreases items@.len() - i,
    {
        let item = Json::uint(items[i] as u64);
        proof {
            lemma_items_push(out@, item);
        }
        out.push(item);
        i = i + 1;
    }
    Json::Array(out)
}

fn values_json(items: &Vec<Json>) -> (r: Json)
    ensures
        r@ == JsonV::Array(items_view(items@)),
{
    let mut out: Vec<Json> = Vec::new();
    let mut i: usize = 0;
    while i < items.len()
        invariant
            i <= items@.len(),
            items_view(out@) =~= items_view(items@).take(i as int),
        decreases items@.len() - i,
    {
        let item = items[i].clone();
        proof {
            lemma_items_push(out@, item);
        }
        out.push(item);
        i = i + 1;
    }
    assert(items_view(out@) =~= items_view(items@));
    Json::Array(out)
}

/// The single error envelope every JSON endpoint answers failures with: the
/// same shape `/v1` uses.
#[derive(Debug)]
pub struct ApiError {
    pub error: ApiErrorBody,
}

/// What went wrong.
#[derive(Debug)]
pub struct ApiErrorBody {
    /// Machine-readable reason, e.g. `invalid_config`, `forbidden`.
    pub code: String,
    /// Operator-facing explanation; safe to show in the UI.
    pub message: String,
    /// Always `proxy_error`: the error came from the proxy, not upstream.
    pub kind: &'static str,
}

/// The envelope of an error.
pub open spec fn error_wire(code: Seq<char>, message: Seq<char>) -> JsonV {
    empty_object().with(
        "error"@,
        empty_object().with("code"@, JsonV::Str(code)).with("message"@, JsonV::Str(message)).with(
            "type"@,
            JsonV::Str("proxy_error"@),
        ),
    )
}

impl ApiError {
    /// The value this envelope prints as.
    pub open spec fn wire(self) -> JsonV {
        empty_object().with(
            "error"@,
            empty_object().with("code"@, JsonV::Str(self.error.code@)).with(
                "message"@,
                JsonV::Str(self.error.message@),
            ).with("type"@, JsonV::Str(self.error.kind@)),
        )
    }

    pub fn new(code: &str, message: &str) -> (r: ApiError)
        ensures
            r.error.code@ == code@,
            r.error.message@ == message@,
            r.error.kind@ == "proxy_error"@,
            r.wire() == error_wire(code@, message@),
    {
        ApiError {
            error: ApiErrorBody {
                code: code.to_owned(),
                message: message.to_owned(),
                kind: "proxy_error",
            },
        }
    }

    pub fn to_json(&self) -> (r: Json)
        ensures
            r@ == self.wire(),
    {
        Json::object().with(
            "error",
            Json::object().with("code", Json::text(&self.error.code)).with(
                "message",
                Json::text(&self.error.message),
            ).with("type", Json::text(self.error.kind)),
        )
    }
}

/// A refusal: a status and the envelope that comes with it.
#[derive(Debug)]
pub struct Refused {
    pub status: u16,
    pub error: ApiError,
}

/// The view of a [`Refused`].
#[verifier::ext_equal]
pub struct RefusedV {
    pub status: u16,
    pub code: Seq<char>,
    pub message: Seq<char>,
    /// The type on the envelope.
    pub kind: Seq<char>,
}

impl View for Refused {
    type V = RefusedV;

    open spec fn view(&self) -> RefusedV {
        RefusedV {
            status: self.status,
            code: self.error.error.code@,
            message: self.error.error.message@,
            kind: self.error.error.kind@,
        }
    }
}

/// The proxy's own refusal with the given reason.
pub open spec fn refusal(status: u16, code: Seq<char>, message: Seq<char>) -> RefusedV {
    RefusedV { status, code, message, kind: "proxy_error"@ }
}

/// A refusal with the given reason is sent in the one error envelope, and its
/// type names the proxy.
pub proof fn law_refusals_name_the_proxy(
    r: Refused,
    status: u16,
    code: Seq<char>,
    message: Seq<char>,
)
    requires
        r@ == refusal(status, code, message),
    ensures
        r.status == status,
        r.error.wire() == error_wire(code, message),
{
}

/// A refusal with the given reason.
pub fn refuse(status: u16, code: &str, message: &str) -> (r: Refused)
    ensures
        r@ == refusal(status, code@, message@),
        r.error.wire() == error_wire(code@, message@),
{
    Refused { status, error: ApiError::new(code, message) }
}

/// Why a JSON body was not taken.
#[derive(Clone, Copy, Debug, PartialEq, Eq, Structural)]
pub enum JsonFault {
    /// The content type is not JSON.
    ContentType,
    /// The body is longer than the server reads.
    TooLarge,
    /// The body could not be read.
    Unreadable,
    /// JSON, but not of the shape asked for.
    Shape,
    /// Not JSON, or any other fault.
    Syntax,
}

/// The refusal each fault is answered with.
pub open spec fn json_refusal(fault: JsonFault) -> RefusedV {
    match fault {
        JsonFault::ContentType => refusal(
            415,
            "unsupported_media_type"@,
            "Content-Type must be application/json"@,
        ),
        JsonFault::TooLarge => refusal(413, "body_too_large"@, "request body is too large"@),
        JsonFault::Shape => refusal(422, "invalid_json"@, "invalid JSON"@),
        JsonFault::Unreadable | JsonFault::Syntax => refusal(400, "invalid_json"@, "invalid JSON"@),
    }
}

/// Answer a JSON body that was not taken.
pub fn refuse_json(fault: JsonFault) -> (r: Refused)
    ensures
        r@ == json_refusal(fault),
{
    match fault {
        JsonFault::ContentType => refuse(
            415,
            "unsupported_media_type",
            "Content-Type must be application/json",
        ),
        JsonFault::TooLarge => refuse(413, "body_too_large", "request body is too large"),
        JsonFault::Shape => refuse(422, "invalid_json", "invalid JSON"),
        JsonFault::Unreadable | JsonFault::Syntax => refuse(400, "invalid_json", "invalid JSON"),
    }
}

/// Answer a query string that was not taken.
pub fn refuse_query() -> (r: Refused)
    ensures
        r@ == refusal(400, "invalid_query"@, "invalid query"@),
{
    refuse(400, "invalid_query", "invalid query")
}

/// The protected `/api/*` fallback.
pub fn api_not_found() -> (r: Refused)
    ensures
        r@ == refusal(404, "not_found"@, "not found"@),
{
    refuse(404, "not_found", "not found")
}

/// The protected `/api/*` method fallback.
pub fn api_method_not_allowed() -> (r: Refused)
    ensures
        r@ == refusal(405, "method_not_allowed"@, "method not allowed"@),
{
    refuse(405, "method_not_allowed", "method not allowed")
}

/// A settings write that applied. Success carries no data.
#[derive(Debug)]
pub struct OkResponse {
    /// Always `true`; failures are an [`ApiError`] with a 4xx status.
    pub ok: bool,
}

impl OkResponse {
    pub open spec fn wire(self) -> JsonV {
        empty_object().with("ok"@, JsonV::Bool(self.ok))
    }

    pub fn new() -> (r: OkResponse)
        ensures
            r.ok,
    {
        OkResponse { ok: true }
    }

    pub fn to_json(&self) -> (r: Json)
        ensures
            r@ == self.wire(),
    {
        Json::object().with("ok", Json::Bool(self.ok))
    }
}

/// Public startup data: the installed presentation locales and the persisted
/// server default.
#[derive(Debug)]
pub struct LocaleBootstrap {
    installed_locales: Vec<String>,
    server_default: String,
}

impl LocaleBootstrap {
    /// The locales a browser may ask for.
    pub closed spec fn installed(self) -> Seq<Seq<char>> {
        texts(self.installed_locales@)
    }

    /// The locale a browser falls back to.
    pub closed spec fn fallback(self) -> Seq<char> {
        self.server_default@
    }

    pub open spec fn wire(self) -> JsonV {
        empty_object().with("installed_locales"@, text_list(self.installed())).with(
            "server_default"@,
            JsonV::Str(self.fallback()),
        )
    }

    pub fn from_config(stored: &StoredConfig, installed: Vec<String>) -> (r: LocaleBootstrap)
        ensures
            r.installed() == texts(installed@),
            r.fallback() == stored@.default_locale,
    {
        LocaleBootstrap {
            installed_locales: installed,
            server_default: stored.default_locale.clone(),
        }
    }

    pub fn to_json(&self) -> (r: Json)
        ensures
            r@ == self.wire(),
    {
        Json::object().with("installed_locales", texts_json(&self.installed_locales)).with(
            "server_default",
            Json::text(&self.server_default),
        )
    }
}

/// A stored client key. The secret itself is never served back.
#[derive(Debug)]
pub struct ClientKeyRow {
    pub last4: String,
    pub name: String,
    pub owner: String,
}

#[verifier::ext_equal]
pub struct ClientKeyRowV {
    pub last4: Seq<char>,
    pub name: Seq<char>,
    pub owner: Seq<char>,
}

impl ClientKeyRowV {
    pub open spec fn wire(self) -> JsonV {
        empty_object().with("last4"@, JsonV::Str(self.last4)).with(
            "name"@,
            JsonV::Str(self.name),
        ).with("owner"@, JsonV::Str(self.owner))
    }
}

impl View for ClientKeyRow {
    type V = ClientKeyRowV;

    open spec fn view(&self) -> ClientKeyRowV {
        ClientKeyRowV { last4: self.last4@, name: self.name@, owner: self.owner@ }
    }
}

impl ClientKeyRow {
    pub fn to_json(&self) -> (r: Json)
        ensures
            r@ == self@.wire(),
    {
        Json::object().with("last4", Json::text(&self.last4)).with(
            "name",
            Json::text(&self.name),
        ).with("owner", Json::text(&self.owner))
    }
}

/// A stored NIM key plus its live lane state. `lane`, `in_window` and
/// `cooldown_ms` are null for a key that holds no lane.
#[derive(Debug)]
pub struct NimKeyRow {
    pub cooldown_ms: Option<u64>,
    pub enabled: bool,
    /// First 8 hex characters of SHA-256(key): the key's public identifier.
    pub fingerprint: String,
    /// True for the superuser's only enabled key: the pool floor.
    pub guarded: bool,
    pub in_window: Option<usize>,
    pub lane: Option<usize>,
    pub last4: String,
    pub owner: String,
    pub rpm: usize,
}

#[verifier::ext_equal]
pub struct NimKeyRowV {
    pub cooldown_ms: Option<u64>,
    pub enabled: bool,
    pub fingerprint: Seq<char>,
    pub guarded: bool,
    pub in_window: Option<usize>,
    pub lane: Option<usize>,
    pub last4: Seq<char>,
    pub owner: Seq<char>,
    pub rpm: usize,
}

impl NimKeyRowV {
    pub open spec fn wire(self) -> JsonV {
        empty_object().with("cooldown_ms"@, number_or_null(self.cooldown_ms)).with(
            "enabled"@,
            JsonV::Bool(self.enabled),
        ).with("fingerprint"@, JsonV::Str(self.fingerprint)).with(
            "guarded"@,
            JsonV::Bool(self.guarded),
        ).with("in_window"@, number_or_null(widened(self.in_window))).with(
            "lane"@,
            number_or_null(widened(self.lane)),
        ).with("last4"@, JsonV::Str(self.last4)).with("owner"@, JsonV::Str(self.owner)).with(
            "rpm"@,
            JsonV::Int(self.rpm as int),
        )
    }
}

impl View for NimKeyRow {
    type V = NimKeyRowV;

    open spec fn view(&self) -> NimKeyRowV {
        NimKeyRowV {
            cooldown_ms: self.cooldown_ms,
            enabled: self.enabled,
            fingerprint: self.fingerprint@,
            guarded: self.guarded,
            in_window: self.in_window,
            lane: self.lane,
            last4: self.last4@,
            owner: self.owner@,
            rpm: self.rpm,
        }
    }
}

impl NimKeyRow {
    pub fn to_json(&self) -> (r: Json)
        ensures
            r@ == self@.wire(),
    {
        Json::object().with("cooldown_ms", number_json(self.cooldown_ms)).with(
            "enabled",
            Json::Bool(self.enabled),
        ).with("fingerprint", Json::text(&self.fingerprint)).with(
            "guarded",
            Json::Bool(self.guarded),
        ).with("in_window", size_json(self.in_window)).with("lane", size_json(self.lane)).with(
            "last4",
            Json::text(&self.last4),
        ).with("owner", Json::text(&self.owner)).with("rpm", Json::uint(self.rpm as u64))
    }
}

/// Pool aggregate, visible to every role.
#[derive(Clone, Copy, Debug)]
pub struct PoolSummary {
    pub capacity_rpm: usize,
    pub enabled: usize,
}

impl PoolSummary {
    pub open spec fn wire(self) -> JsonV {
        empty_object().with("capacity_rpm"@, JsonV::Int(self.capacity_rpm as int)).with(
            "enabled"@,
            JsonV::Int(self.enabled as int),
        )
    }

    pub fn to_json(&self) -> (r: Json)
        ensures
            r@ == self.wire(),
    {
        Json::object().with("capacity_rpm", Json::uint(self.capacity_rpm as u64)).with(
            "enabled",
            Json::uint(self.enabled as u64),
        )
    }
}

/// Retention setting plus the live state of the history file.
#[derive(Debug)]
pub struct HistorySettings {
    pub available_from: Option<u64>,
    pub compaction_pending: bool,
    /// Retention in days; 0 keeps it forever.
    pub days: u64,
    pub file_bytes: u64,
    pub persistence: String,
}

#[verifier::ext_equal]
pub struct HistorySettingsV {
    pub available_from: Option<u64>,
    pub compaction_pending: bool,
    pub days: u64,
    pub file_bytes: u64,
    pub persistence: Seq<char>,
}

impl HistorySettingsV {
    pub open spec fn wire(self) -> JsonV {
        empty_object().with("available_from"@, number_or_null(self.available_from)).with(
            "compaction_pending"@,
            JsonV::Bool(self.compaction_pending),
        ).with("days"@, JsonV::Int(self.days as int)).with(
            "file_bytes"@,
            JsonV::Int(self.file_bytes as int),
        ).with("persistence"@, JsonV::Str(self.persistence))
    }
}

impl View for HistorySettings {
    type V = HistorySettingsV;

    open spec fn view(&self) -> HistorySettingsV {
        HistorySettingsV {
            available_from: self.available_from,
            compaction_pending: self.compaction_pending,
            days: self.days,
            file_bytes: self.file_bytes,
            persistence: self.persistence@,
        }
    }
}

impl HistorySettings {
    pub fn to_json(&self) -> (r: Json)
        ensures
            r@ == self@.wire(),
    {
        Json::object().with("available_from", number_json(self.available_from)).with(
            "compaction_pending",
            Json::Bool(self.compaction_pending),
        ).with("days", Json::uint(self.days)).with("file_bytes", Json::uint(self.file_bytes)).with(
            "persistence",
            Json::text(&self.persistence),
        )
    }
}

/// The limits on the wire.
pub open spec fn limits_wire(l: Limits) -> JsonV {
    empty_object().with("heartbeat_secs"@, JsonV::Int(l.heartbeat_secs as int)).with(
        "max_inflight"@,
        JsonV::Int(l.max_inflight as int),
    ).with("max_wait_secs"@, JsonV::Int(l.max_wait_secs as int)).with(
        "models_ttl_secs"@,
        JsonV::Int(l.models_ttl_secs as int),
    ).with("request_timeout_secs"@, JsonV::Int(l.request_timeout_secs as int)).with(
        "stream_idle_secs"@,
        JsonV::Int(l.stream_idle_secs as int),
    ).with("strict_passthrough"@, JsonV::Bool(l.strict_passthrough))
}

/// The dashboard section on the wire.
pub open spec fn dashboard_wire(d: DashboardV) -> JsonV {
    empty_object().with("default_window_days"@, JsonV::Int(d.default_window_days as int)).with(
        "slo_target_percent"@,
        JsonV::Float(d.slo_target_percent),
    )
}

/// The governor section on the wire.
pub open spec fn governor_wire(g: GovernorV) -> JsonV {
    empty_object().with("enabled"@, JsonV::Bool(g.enabled)).with(
        "overrides"@,
        pins_json(g.overrides),
    )
}

/// The search section on the wire.
pub open spec fn web_search_wire(w: WebSearchCfgV) -> JsonV {
    empty_object().with("base_url"@, JsonV::Str(w.base_url)).with(
        "format"@,
        JsonV::Str(w.format.wire()),
    ).with("max_results"@, JsonV::Int(w.max_results as int)).with(
        "timeout_secs"@,
        JsonV::Int(w.timeout_secs as int),
    )
}

pub fn limits_json(l: &Limits) -> (r: Json)
    ensures
        r@ == limits_wire(*l),
{
    Json::object().with("heartbeat_secs", Json::uint(l.heartbeat_secs)).with(
        "max_inflight",
        Json::uint(l.max_inflight as u64),
    ).with("max_wait_secs", Json::uint(l.max_wait_secs)).with(
        "models_ttl_secs",
        Json::uint(l.models_ttl_secs),
    ).with("request_timeout_secs", Json::uint(l.request_timeout_secs)).with(
        "stream_idle_secs",
        Json::uint(l.stream_idle_secs),
    ).with("strict_passthrough", Json::Bool(l.strict_passthrough))
}

pub fn dashboard_json(d: &DashboardCfg) -> (r: Json)
    ensures
        r@ == dashboard_wire(d@),
{
    Json::object().with("default_window_days", Json::uint(d.default_window_days)).with(
        "slo_target_percent",
        float_json(d.slo_target_percent),
    )
}

pub fn governor_json(g: &GovernorCfg) -> (r: Json)
    ensures
        r@ == governor_wire(g@),
{
    Json::object().with("enabled", Json::Bool(g.enabled)).with("overrides", g.overrides.to_json())
}

pub fn web_search_json(w: &WebSearchCfg) -> (r: Json)
    ensures
        r@ == web_search_wire(w@),
{
    Json::object().with("base_url", Json::text(&w.base_url)).with(
        "format",
        Json::text(w.format.name()),
    ).with("max_results", Json::uint(w.max_results as u64)).with(
        "timeout_secs",
        Json::uint(w.timeout_secs),
    )
}

/// Admin-only server settings, mirroring the stored sections.
#[derive(Debug)]
pub struct ServerSettings {
    pub base_url: String,
    pub dashboard: DashboardCfg,
    pub default_locale: String,
    pub governor: GovernorCfg,
    pub history: HistorySettings,
    pub limits: Limits,
    pub web_search: WebSearchCfg,
}

#[verifier::ext_equal]
pub struct ServerSettingsV {
    pub base_url: Seq<char>,
    pub dashboard: DashboardV,
    pub default_locale: Seq<char>,
    pub governor: GovernorV,
    pub history: HistorySettingsV,
    pub limits: Limits,
    pub web_search: WebSearchCfgV,
}

impl ServerSettingsV {
    pub open spec fn wire(self) -> JsonV {
        empty_object().with("base_url"@, JsonV::Str(self.base_url)).with(
            "dashboard"@,
            dashboard_wire(self.dashboard),
        ).with("default_locale"@, JsonV::Str(self.default_locale)).with(
            "governor"@,
            governor_wire(self.governor),
        ).with("history"@, self.history.wire()).with("limits"@, limits_wire(self.limits)).with(
            "web_search"@,
            web_search_wire(self.web_search),
        )
    }
}

impl View for ServerSettings {
    type V = ServerSettingsV;

    open spec fn view(&self) -> ServerSettingsV {
        ServerSettingsV {
            base_url: self.base_url@,
            dashboard: self.dashboard@,
            default_locale: self.default_locale@,
            governor: self.governor@,
            history: self.history@,
            limits: self.limits,
            web_search: self.web_search@,
        }
    }
}

impl ServerSettings {
    pub fn to_json(&self) -> (r: Json)
        ensures
            r@ == self@.wire(),
    {
        Json::object().with("base_url", Json::text(&self.base_url)).with(
            "dashboard",
            dashboard_json(&self.dashboard),
        ).with("default_locale", Json::text(&self.default_locale)).with(
            "governor",
            governor_json(&self.governor),
        ).with("history", self.history.to_json()).with("limits", limits_json(&self.limits)).with(
            "web_search",
            web_search_json(&self.web_search),
        )
    }
}

/// A user row with how much of the pool they own.
#[derive(Debug)]
pub struct UserRow {
    pub client_keys: usize,
    pub nim_keys: usize,
    pub role: Role,
    pub username: String,
}

#[verifier::ext_equal]
pub struct UserRowV {
    pub client_keys: nat,
    pub nim_keys: nat,
    pub role: Role,
    pub username: Seq<char>,
}

impl UserRowV {
    pub open spec fn wire(self) -> JsonV {
        empty_object().with("client_keys"@, JsonV::Int(self.client_keys as int)).with(
            "nim_keys"@,
            JsonV::Int(self.nim_keys as int),
        ).with("role"@, JsonV::Str(self.role.wire())).with("username"@, JsonV::Str(self.username))
    }
}

impl View for UserRow {
    type V = UserRowV;

    open spec fn view(&self) -> UserRowV {
        UserRowV {
            client_keys: self.client_keys as nat,
            nim_keys: self.nim_keys as nat,
            role: self.role,
            username: self.username@,
        }
    }
}

impl UserRow {
    pub fn to_json(&self) -> (r: Json)
        ensures
            r@ == self@.wire(),
    {
        Json::object().with("client_keys", Json::uint(self.client_keys as u64)).with(
            "nim_keys",
            Json::uint(self.nim_keys as u64),
        ).with("role", Json::text(self.role.name())).with("username", Json::text(&self.username))
    }
}

/// The Settings page's data source. `server` and `users` are absent, not
/// null, for callers without the administrator's authority.
#[derive(Debug)]
pub struct ConfigResponse {
    pub client_keys: Vec<ClientKeyRow>,
    pub locale: Option<String>,
    pub mode: Mode,
    pub nim_keys: Vec<NimKeyRow>,
    pub pool: PoolSummary,
    pub role: Role,
    pub server: Option<ServerSettings>,
    pub username: String,
    pub users: Option<Vec<UserRow>>,
}

/// The view of a [`ConfigResponse`].
#[verifier::ext_equal]
pub struct ConfigV {
    pub client_keys: Seq<ClientKeyRowV>,
    pub locale: Option<Seq<char>>,
    pub mode: Mode,
    pub nim_keys: Seq<NimKeyRowV>,
    pub pool: PoolSummary,
    pub role: Role,
    pub server: Option<ServerSettingsV>,
    pub username: Seq<char>,
    pub users: Option<Seq<UserRowV>>,
}

/// The views of client-key rows.
pub open spec fn client_rows_view(rows: Seq<ClientKeyRow>) -> Seq<ClientKeyRowV> {
    Seq::new(rows.len(), |i: int| rows[i]@)
}

/// The views of NIM-key rows.
pub open spec fn nim_rows_view(rows: Seq<NimKeyRow>) -> Seq<NimKeyRowV> {
    Seq::new(rows.len(), |i: int| rows[i]@)
}

/// The views of user rows.
pub open spec fn user_rows_view(rows: Seq<UserRow>) -> Seq<UserRowV> {
    Seq::new(rows.len(), |i: int| rows[i]@)
}

impl View for ConfigResponse {
    type V = ConfigV;

    open spec fn view(&self) -> ConfigV {
        ConfigV {
            client_keys: client_rows_view(self.client_keys@),
            locale: opt_text(self.locale),
            mode: self.mode,
            nim_keys: nim_rows_view(self.nim_keys@),
            pool: self.pool,
            role: self.role,
            server: match self.server {
                Some(s) => Some(s@),
                None => None,
            },
            username: self.username@,
            users: match self.users {
                Some(rows) => Some(user_rows_view(rows@)),
                None => None,
            },
        }
    }
}

impl ConfigV {
    pub open spec fn wire(self) -> JsonV {
        empty_object().with(
            "client_keys"@,
            JsonV::Array(
                Seq::new(self.client_keys.len(), |i: int| self.client_keys[i].wire()),
            ),
        ).with("locale"@, text_or_null(self.locale)).with(
            "mode"@,
            JsonV::Str(self.mode.wire()),
        ).with(
            "nim_keys"@,
            JsonV::Array(Seq::new(self.nim_keys.len(), |i: int| self.nim_keys[i].wire())),
        ).with("pool"@, self.pool.wire()).with("role"@, JsonV::Str(self.role.wire())).with_some(
            "server"@,
            match self.server {
                Some(s) => Some(s.wire()),
                None => None,
            },
        ).with("username"@, JsonV::Str(self.username)).with_some(
            "users"@,
            match self.users {
                Some(rows) => Some(
                    JsonV::Array(Seq::new(rows.len(), |i: int| rows[i].wire())),
                ),
                None => None,
            },
        )
    }
}

fn client_rows_json(rows: &Vec<ClientKeyRow>) -> (r: Json)
    ensures
        r@ == JsonV::Array(
            Seq::new(
                client_rows_view(rows@).len(),
                |i: int| client_rows_view(rows@)[i].wire(),
            ),
        ),
{
    let mut out: Vec<Json> = Vec::new();
    let mut i: usize = 0;
    while i < rows.len()
        invariant
            i <= rows@.len(),
            items_view(out@) =~= Seq::new(
                i as nat,
                |j: int| client_rows_view(rows@)[j].wire(),
            ),
        decreases rows@.len() - i,
    {
        let item = rows[i].to_json();
        proof {
            lemma_items_push(out@, item);
        }
        out.push(item);
        i = i + 1;
    }
    Json::Array(out)
}

fn nim_rows_json(rows: &Vec<NimKeyRow>) -> (r: Json)
    ensures
        r@ == JsonV::Array(
            Seq::new(nim_rows_view(rows@).len(), |i: int| nim_rows_view(rows@)[i].wire()),
        ),
{
    let mut out: Vec<Json> = Vec::new();
    let mut i: usize = 0;
    while i < rows.len()
        invariant
            i <= rows@.len(),
            items_view(out@) =~= Seq::new(i as nat, |j: int| nim_rows_view(rows@)[j].wire()),
        decreases rows@.len() - i,
    {
        let item = rows[i].to_json();
        proof {
            lemma_items_push(out@, item);
        }
        out.push(item);
        i = i + 1;
    }
    Json::Array(out)
}

fn user_rows_json(rows: &Vec<UserRow>) -> (r: Json)
    ensures
        r@ == JsonV::Array(
            Seq::new(user_rows_view(rows@).len(), |i: int| user_rows_view(rows@)[i].wire()),
        ),
{
    let mut out: Vec<Json> = Vec::new();
    let mut i: usize = 0;
    while i < rows.len()
        invariant
            i <= rows@.len(),
            items_view(out@) =~= Seq::new(i as nat, |j: int| user_rows_view(rows@)[j].wire()),
        decreases rows@.len() - i,
    {
        let item = rows[i].to_json();
        proof {
            lemma_items_push(out@, item);
        }
        out.push(item);
        i = i + 1;
    }
    Json::Array(out)
}

impl ConfigResponse {
    pub fn to_json(&self) -> (r: Json)
        ensures
            r@ == self@.wire(),
    {
        let server = match &self.server {
            Some(s) => Some(s.to_json()),
            None => None,
        };
        let users = match &self.users {
            Some(rows) => Some(user_rows_json(rows)),
            None => None,
        };
        Json::object().with("client_keys", client_rows_json(&self.client_keys)).with(
            "locale",
            text_json(&self.locale),
        ).with("mode", Json::text(self.mode.name())).with(
            "nim_keys",
            nim_rows_json(&self.nim_keys),
        ).with("pool", self.pool.to_json()).with("role", Json::text(self.role.name())).with_some(
            "server",
            server,
        ).with("username", Json::text(&self.username)).with_some("users", users)
    }
}

/// The answer to a client-key write. `secret` appears only on `add`, and only
/// this once.
#[derive(Debug)]
pub struct ClientsResponse {
    pub ok: bool,
    pub secret: Option<String>,
}

impl ClientsResponse {
    pub open spec fn wire(self) -> JsonV {
        empty_object().with("ok"@, JsonV::Bool(self.ok)).with_some(
            "secret"@,
            match self.secret {
                Some(s) => Some(JsonV::Str(s@)),
                None => None,
            },
        )
    }

    pub fn to_json(&self) -> (r: Json)
        ensures
            r@ == self.wire(),
    {
        let secret = match &self.secret {
            Some(s) => Some(Json::text(s)),
            None => None,
        };
        Json::object().with("ok", Json::Bool(self.ok)).with_some("secret", secret)
    }
}

/// The outcome of a key probe. `models` is the size of the upstream catalog
/// the key could read; `error` explains a refusal. Exactly one of the two is
/// present.
#[derive(Debug)]
pub struct ValidateKeyResponse {
    pub error: Option<String>,
    pub models: Option<usize>,
    pub ok: bool,
}

impl ValidateKeyResponse {
    pub open spec fn wire(self) -> JsonV {
        empty_object().with_some(
            "error"@,
            match self.error {
                Some(e) => Some(JsonV::Str(e@)),
                None => None,
            },
        ).with_some(
            "models"@,
            match self.models {
                Some(n) => Some(JsonV::Int(n as int)),
                None => None,
            },
        ).with("ok"@, JsonV::Bool(self.ok))
    }

    pub fn probed(result: Result<usize, String>) -> (r: ValidateKeyResponse)
        ensures
            r.ok <==> result is Ok,
            (r.error is Some) != (r.models is Some),
            match result {
                Ok(models) => r.models == Some(models),
                Err(error) => opt_text(r.error) == Some(error@),
            },
    {
        match result {
            Ok(models) => ValidateKeyResponse { error: None, models: Some(models), ok: true },
            Err(error) => ValidateKeyResponse { error: Some(error), models: None, ok: false },
        }
    }

    pub fn to_json(&self) -> (r: Json)
        ensures
            r@ == self.wire(),
    {
        let error = match &self.error {
            Some(e) => Some(Json::text(e)),
            None => None,
        };
        let models = match self.models {
            Some(n) => Some(Json::uint(n as u64)),
            None => None,
        };
        Json::object().with_some("error", error).with_some("models", models).with(
            "ok",
            Json::Bool(self.ok),
        )
    }
}

/// A fresh client key: the one and only time its secret leaves the server.
#[derive(Debug)]
pub struct MintedClientKey {
    pub name: String,
    pub secret: String,
}

impl MintedClientKey {
    pub open spec fn wire(self) -> JsonV {
        empty_object().with("name"@, JsonV::Str(self.name@)).with(
            "secret"@,
            JsonV::Str(self.secret@),
        )
    }

    pub fn to_json(&self) -> (r: Json)
        ensures
            r@ == self.wire(),
    {
        Json::object().with("name", Json::text(&self.name)).with(
            "secret",
            Json::text(&self.secret),
        )
    }
}

/// The first-run claim. `client_key` is present when the claim asked for a
/// first client key.
#[derive(Debug)]
pub struct SetupResponse {
    pub client_key: Option<MintedClientKey>,
    pub ok: bool,
}

impl SetupResponse {
    pub open spec fn wire(self) -> JsonV {
        empty_object().with_some(
            "client_key"@,
            match self.client_key {
                Some(k) => Some(k.wire()),
                None => None,
            },
        ).with("ok"@, JsonV::Bool(self.ok))
    }

    pub fn to_json(&self) -> (r: Json)
        ensures
            r@ == self.wire(),
    {
        let client_key = match &self.client_key {
            Some(k) => Some(k.to_json()),
            None => None,
        };
        Json::object().with_some("client_key", client_key).with("ok", Json::Bool(self.ok))
    }
}

/// What was asked for, what could be served, and what exists on disk.
#[derive(Clone, Copy, Debug)]
pub struct DashboardWindow {
    pub available_from: Option<u64>,
    pub available_to: Option<u64>,
    pub complete: bool,
    pub default_window_days: u64,
    pub effective_from: Option<u64>,
    pub effective_to: Option<u64>,
    /// True when the caller sent no `to`, i.e. the window tracks now.
    pub following_now: bool,
    pub requested_from: u64,
    pub requested_to: u64,
    pub retention_days: u64,
}

impl DashboardWindow {
    pub open spec fn wire(self) -> JsonV {
        empty_object().with("available_from"@, number_or_null(self.available_from)).with(
            "available_to"@,
            number_or_null(self.available_to),
        ).with("complete"@, JsonV::Bool(self.complete)).with(
            "default_window_days"@,
            JsonV::Int(self.default_window_days as int),
        ).with("effective_from"@, number_or_null(self.effective_from)).with(
            "effective_to"@,
            number_or_null(self.effective_to),
        ).with("following_now"@, JsonV::Bool(self.following_now)).with(
            "requested_from"@,
            JsonV::Int(self.requested_from as int),
        ).with("requested_to"@, JsonV::Int(self.requested_to as int)).with(
            "retention_days"@,
            JsonV::Int(self.retention_days as int),
        )
    }

    pub fn to_json(&self) -> (r: Json)
        ensures
            r@ == self.wire(),
    {
        Json::object().with("available_from", number_json(self.available_from)).with(
            "available_to",
            number_json(self.available_to),
        ).with("complete", Json::Bool(self.complete)).with(
            "default_window_days",
            Json::uint(self.default_window_days),
        ).with("effective_from", number_json(self.effective_from)).with(
            "effective_to",
            number_json(self.effective_to),
        ).with("following_now", Json::Bool(self.following_now)).with(
            "requested_from",
            Json::uint(self.requested_from),
        ).with("requested_to", Json::uint(self.requested_to)).with(
            "retention_days",
            Json::uint(self.retention_days),
        )
    }
}

/// Rolled-up history for one analytical window. The history's own records
/// are carried as the values they print as.
#[derive(Debug)]
pub struct DashboardResponse {
    pub config_revision: u64,
    pub diagnostics: Json,
    pub history_revision: u64,
    /// Latest value of each gauge in the window.
    pub latest: Vec<Json>,
    pub points: Vec<Json>,
    /// Counter deltas summed across the window.
    pub totals: Vec<Json>,
    pub window: DashboardWindow,
}

impl DashboardResponse {
    pub open spec fn wire(self) -> JsonV {
        empty_object().with("config_revision"@, JsonV::Int(self.config_revision as int)).with(
            "diagnostics"@,
            self.diagnostics@,
        ).with("history_revision"@, JsonV::Int(self.history_revision as int)).with(
            "latest"@,
            JsonV::Array(items_view(self.latest@)),
        ).with("points"@, JsonV::Array(items_view(self.points@))).with(
            "totals"@,
            JsonV::Array(items_view(self.totals@)),
        ).with("window"@, self.window.wire())
    }

    pub fn to_json(&self) -> (r: Json)
        ensures
            r@ == self.wire(),
    {
        Json::object().with("config_revision", Json::uint(self.config_revision)).with(
            "diagnostics",
            self.diagnostics.clone(),
        ).with("history_revision", Json::uint(self.history_revision)).with(
            "latest",
            values_json(&self.latest),
        ).with("points", values_json(&self.points)).with(
            "totals",
            values_json(&self.totals),
        ).with("window", self.window.to_json())
    }
}

/// The "Now" strip: live registry values plus the configuration they were
/// sampled under.
#[derive(Debug)]
pub struct DashboardNowResponse {
    /// True when `/v1` requires a client key.
    pub auth: bool,
    pub available_from: Option<u64>,
    pub available_to: Option<u64>,
    pub capacity_rpm: usize,
    pub config_revision: u64,
    pub default_window_days: u64,
    pub history_revision: u64,
    pub lanes: usize,
    pub metrics: Vec<Json>,
    pub retention_days: u64,
    pub rpms: Vec<usize>,
    pub sampled_at: u64,
    pub slo_target_percent: FiniteFloat,
    /// Unix time this process started.
    pub started: u64,
    /// Counters accumulated since the last persisted sample.
    pub tail: Json,
    pub version: String,
}

impl DashboardNowResponse {
    pub open spec fn wire(self) -> JsonV {
        empty_object().with("auth"@, JsonV::Bool(self.auth)).with(
            "available_from"@,
            number_or_null(self.available_from),
        ).with("available_to"@, number_or_null(self.available_to)).with(
            "capacity_rpm"@,
            JsonV::Int(self.capacity_rpm as int),
        ).with("config_revision"@, JsonV::Int(self.config_revision as int)).with(
            "default_window_days"@,
            JsonV::Int(self.default_window_days as int),
        ).with("history_revision"@, JsonV::Int(self.history_revision as int)).with(
            "lanes"@,
            JsonV::Int(self.lanes as int),
        ).with("metrics"@, JsonV::Array(items_view(self.metrics@))).with(
            "retention_days"@,
            JsonV::Int(self.retention_days as int),
        ).with("rpms"@, size_list(self.rpms@)).with(
            "sampled_at"@,
            JsonV::Int(self.sampled_at as int),
        ).with("slo_target_percent"@, JsonV::Float(self.slo_target_percent.pattern())).with(
            "started"@,
            JsonV::Int(self.started as int),
        ).with("tail"@, self.tail@).with("version"@, JsonV::Str(self.version@))
    }

    pub fn to_json(&self) -> (r: Json)
        ensures
            r@ == self.wire(),
    {
        Json::object().with("auth", Json::Bool(self.auth)).with(
            "available_from",
            number_json(self.available_from),
        ).with("available_to", number_json(self.available_to)).with(
            "capacity_rpm",
            Json::uint(self.capacity_rpm as u64),
        ).with("config_revision", Json::uint(self.config_revision)).with(
            "default_window_days",
            Json::uint(self.default_window_days),
        ).with("history_revision", Json::uint(self.history_revision)).with(
            "lanes",
            Json::uint(self.lanes as u64),
        ).with("metrics", values_json(&self.metrics)).with(
            "retention_days",
            Json::uint(self.retention_days),
        ).with("rpms", sizes_json(&self.rpms)).with("sampled_at", Json::uint(self.sampled_at)).with(
            "slo_target_percent",
            float_json(self.slo_target_percent),
        ).with("started", Json::uint(self.started)).with("tail", self.tail.clone()).with(
            "version",
            Json::text(&self.version),
        )
    }
}

}
