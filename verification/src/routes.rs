//! The fixed route paths, and who may reach each route and when.
use vstd::prelude::*;

verus! {

pub const ROOT: &'static str = "/";

pub const DASH: &'static str = "/dash";

pub const METRICS: &'static str = "/metrics";

pub const ASSET_PUBLIC_CSS: &'static str = "/assets/public/public.css";

pub const ASSET_PUBLIC_NOSCRIPT_CSS: &'static str = "/assets/public/noscript.css";

pub const ASSET_PUBLIC_SETUP_JS: &'static str = "/assets/public/setup.js";

pub const ASSET_PUBLIC_LOGIN_JS: &'static str = "/assets/public/login.js";

/// The handler takes only `{locale}.json`, so callers see
/// `/assets/public/locales/{locale}.json`.
pub const ASSET_PUBLIC_LOCALE: &'static str = "/assets/public/locales/{locale_file}";

pub const ASSET_OPERATOR_CSS: &'static str = "/assets/operator/operator.css";

pub const ASSET_OPERATOR_SHARED_JS: &'static str = "/assets/operator/shared.js";

pub const ASSET_OPERATOR_DASHBOARD_JS: &'static str = "/assets/operator/dashboard.js";

pub const ASSET_OPERATOR_SETTINGS_JS: &'static str = "/assets/operator/settings.js";

pub const ASSET_OPERATOR_LOCALE: &'static str = "/assets/operator/locales/{locale_file}";

/// What the `API_*` paths below are nested under.
pub const API_PREFIX: &'static str = "/api";

pub const API_LOCALE_BOOTSTRAP: &'static str = "/locale-bootstrap";

pub const API_DASHBOARD: &'static str = "/dashboard";

pub const API_DASHBOARD_NOW: &'static str = "/dashboard/now";

pub const API_CONFIG: &'static str = "/config";

pub const API_SETTINGS_NIM_KEYS: &'static str = "/settings/nim-keys";

pub const API_SETTINGS_CLIENTS: &'static str = "/settings/clients";

pub const API_SETTINGS_UPSTREAM: &'static str = "/settings/upstream";

pub const API_SETTINGS_LIMITS: &'static str = "/settings/limits";

pub const API_SETTINGS_SERVER: &'static str = "/settings/server";

pub const API_SETTINGS_HISTORY: &'static str = "/settings/history";

pub const API_SETTINGS_GOVERNOR: &'static str = "/settings/governor";

pub const API_SETTINGS_USERS: &'static str = "/settings/users";

pub const API_SETTINGS_ACCOUNT: &'static str = "/settings/account";

pub const API_SETTINGS_LOCALE: &'static str = "/settings/locale";

pub const API_SETTINGS_VALIDATE_KEY: &'static str = "/settings/validate-key";

pub const HEALTH: &'static str = "/health";

pub const LOGIN: &'static str = "/login";

pub const LOGOUT: &'static str = "/logout";

pub const SETUP: &'static str = "/setup";

pub const SETUP_VALIDATE_KEY: &'static str = "/setup/validate-key";

pub const V1_WILDCARD: &'static str = "/v1/{*path}";

/// The Anthropic Messages bridge, registered ahead of the `/v1` wildcard.
pub const MESSAGES: &'static str = "/v1/messages";

/// Who a route answers.
#[derive(Clone, Copy, Debug, PartialEq, Eq, Structural)]
pub enum Access {
    Client,
    Public,
    OperatorAny,
    OperatorAdmin,
    OperatorSuperuser,
}

/// When a route answers.
#[derive(Clone, Copy, Debug, PartialEq, Eq, Structural)]
pub enum Phase {
    Always,
    PreSetup,
    PostSetup,
}

/// A route's trust boundary.
#[derive(Clone, Copy, Debug)]
pub struct RouteContract {
    pub access: Access,
    pub method: &'static str,
    /// Whether the published API description lists the route.
    pub openapi: bool,
    pub path: &'static str,
    pub phase: Phase,
    /// A concrete path that reaches the route.
    pub probe_path: &'static str,
}

/// The view of a [`RouteContract`].
#[verifier::ext_equal]
pub struct RouteV {
    pub access: Access,
    pub method: Seq<char>,
    pub openapi: bool,
    pub path: Seq<char>,
    pub phase: Phase,
    pub probe_path: Seq<char>,
}

impl View for RouteContract {
    type V = RouteV;

    open spec fn view(&self) -> RouteV {
        RouteV {
            access: self.access,
            method: self.method@,
            openapi: self.openapi,
            path: self.path@,
            phase: self.phase,
            probe_path: self.probe_path@,
        }
    }
}

/// The views of a list of routes.
pub open spec fn routes_view(routes: Seq<RouteContract>) -> Seq<RouteV> {
    Seq::new(routes.len(), |i: int| routes[i]@)
}

/// A route that is probed by its own path.
pub open spec fn fixed(
    access: Access,
    method: Seq<char>,
    openapi: bool,
    path: Seq<char>,
    phase: Phase,
) -> RouteV {
    RouteV { access, method, openapi, path, phase, probe_path: path }
}

/// Every route there is.
pub open spec fn inventory() -> Seq<RouteV> {
    seq![
        fixed(Access::Public, "GET"@, false, ASSET_PUBLIC_CSS@, Phase::Always),
        fixed(Access::Public, "GET"@, false, ASSET_PUBLIC_NOSCRIPT_CSS@, Phase::Always),
        fixed(Access::Public, "GET"@, false, ASSET_PUBLIC_SETUP_JS@, Phase::Always),
        fixed(Access::Public, "GET"@, false, ASSET_PUBLIC_LOGIN_JS@, Phase::Always),
        RouteV {
            access: Access::Public,
            method: "GET"@,
            openapi: false,
            path: "/assets/public/locales/{locale}.json"@,
            phase: Phase::Always,
            probe_path: "/assets/public/locales/en-US.json"@,
        },
        fixed(Access::OperatorAny, "GET"@, false, ASSET_OPERATOR_CSS@, Phase::PostSetup),
        fixed(Access::OperatorAny, "GET"@, false, ASSET_OPERATOR_SHARED_JS@, Phase::PostSetup),
        fixed(Access::OperatorAny, "GET"@, false, ASSET_OPERATOR_DASHBOARD_JS@, Phase::PostSetup),
        fixed(Access::OperatorAny, "GET"@, false, ASSET_OPERATOR_SETTINGS_JS@, Phase::PostSetup),
        RouteV {
            access: Access::OperatorAny,
            method: "GET"@,
            openapi: false,
            path: "/assets/operator/locales/{locale}.json"@,
            phase: Phase::PostSetup,
            probe_path: "/assets/operator/locales/en-US.json"@,
        },
        fixed(Access::OperatorAny, "GET"@, false, ROOT@, Phase::PostSetup),
        fixed(Access::OperatorAny, "GET"@, false, DASH@, Phase::PostSetup),
        fixed(Access::OperatorAny, "GET"@, false, METRICS@, Phase::PostSetup),
        fixed(Access::OperatorAny, "GET"@, true, "/api/dashboard"@, Phase::PostSetup),
        fixed(Access::OperatorAny, "GET"@, true, "/api/dashboard/now"@, Phase::PostSetup),
        fixed(Access::OperatorAny, "GET"@, true, "/api/config"@, Phase::PostSetup),
        fixed(Access::Public, "GET"@, true, "/api/locale-bootstrap"@, Phase::Always),
        fixed(Access::OperatorAny, "POST"@, true, "/api/settings/nim-keys"@, Phase::PostSetup),
        fixed(Access::OperatorAny, "POST"@, true, "/api/settings/clients"@, Phase::PostSetup),
        fixed(Access::OperatorAdmin, "POST"@, true, "/api/settings/limits"@, Phase::PostSetup),
        fixed(Access::OperatorAdmin, "POST"@, true, "/api/settings/server"@, Phase::PostSetup),
        fixed(Access::OperatorAdmin, "POST"@, true, "/api/settings/history"@, Phase::PostSetup),
        fixed(Access::OperatorAdmin, "POST"@, true, "/api/settings/governor"@, Phase::PostSetup),
        fixed(Access::OperatorAdmin, "POST"@, true, "/api/settings/users"@, Phase::PostSetup),
        fixed(Access::OperatorAny, "POST"@, true, "/api/settings/validate-key"@, Phase::PostSetup),
        fixed(Access::OperatorAdmin, "POST"@, true, "/api/settings/upstream"@, Phase::PostSetup),
        fixed(Access::OperatorAny, "POST"@, true, "/api/settings/account"@, Phase::PostSetup),
        fixed(Access::OperatorAdmin, "POST"@, true, "/api/settings/locale"@, Phase::PostSetup),
        fixed(Access::Public, "GET"@, false, HEALTH@, Phase::Always),
        fixed(Access::Public, "GET"@, false, LOGIN@, Phase::Always),
        fixed(Access::Public, "POST"@, false, LOGIN@, Phase::Always),
        fixed(Access::Public, "POST"@, false, LOGOUT@, Phase::Always),
        fixed(Access::Public, "GET"@, false, SETUP@, Phase::PreSetup),
        fixed(Access::Public, "POST"@, true, SETUP@, Phase::PreSetup),
        fixed(Access::Public, "POST"@, true, SETUP_VALIDATE_KEY@, Phase::PreSetup),
        fixed(Access::Client, "POST"@, true, MESSAGES@, Phase::PostSetup),
        RouteV {
            access: Access::Client,
            method: "ANY"@,
            openapi: false,
            path: V1_WILDCARD@,
            phase: Phase::PostSetup,
            probe_path: "/v1/chat/completions"@,
        },
    ]
}

fn fixed_route(
    access: Access,
    method: &'static str,
    openapi: bool,
    path: &'static str,
    phase: Phase,
) -> (r: RouteContract)
    ensures
        r@ == fixed(access, method@, openapi, path@, phase),
{
    RouteContract { access, method, openapi, path, phase, probe_path: path }
}

/// Every route there is.
pub fn routes() -> (r: Vec<RouteContract>)
    ensures
        routes_view(r@) == inventory(),
{
    let mut out: Vec<RouteContract> = Vec::new();
    out.push(fixed_route(Access::Public, "GET", false, ASSET_PUBLIC_CSS, Phase::Always));
    out.push(fixed_route(Access::Public, "GET", false, ASSET_PUBLIC_NOSCRIPT_CSS, Phase::Always));
    out.push(fixed_route(Access::Public, "GET", false, ASSET_PUBLIC_SETUP_JS, Phase::Always));
    out.push(fixed_route(Access::Public, "GET", false, ASSET_PUBLIC_LOGIN_JS, Phase::Always));
    out.push(
        RouteContract {
            access: Access::Public,
            method: "GET",
            openapi: false,
            path: "/assets/public/locales/{locale}.json",
            phase: Phase::Always,
            probe_path: "/assets/public/locales/en-US.json",
        },
    );
    out.push(fixed_route(Access::OperatorAny, "GET", false, ASSET_OPERATOR_CSS, Phase::PostSetup));
    out.push(fixed_route(Access::OperatorAny, "GET", false, ASSET_OPERATOR_SHARED_JS, Phase::PostSetup));
    out.push(fixed_route(Access::OperatorAny, "GET", false, ASSET_OPERATOR_DASHBOARD_JS, Phase::PostSetup));
    out.push(fixed_route(Access::OperatorAny, "GET", false, ASSET_OPERATOR_SETTINGS_JS, Phase::PostSetup));
    out.push(
        RouteContract {
            access: Access::OperatorAny,
            method: "GET",
            openapi: false,
            path: "/assets/operator/locales/{locale}.json",
            phase: Phase::PostSetup,
            probe_path: "/assets/operator/locales/en-US.json",
        },
    );
    out.push(fixed_route(Access::OperatorAny, "GET", false, ROOT, Phase::PostSetup));
    out.push(fixed_route(Access::OperatorAny, "GET", false, DASH, Phase::PostSetup));
    out.push(fixed_route(Access::OperatorAny, "GET", false, METRICS, Phase::PostSetup));
    out.push(fixed_route(Access::OperatorAny, "GET", true, "/api/dashboard", Phase::PostSetup));
    out.push(fixed_route(Access::OperatorAny, "GET", true, "/api/dashboard/now", Phase::PostSetup));
    out.push(fixed_route(Access::OperatorAny, "GET", true, "/api/config", Phase::PostSetup));
    out.push(fixed_route(Access::Public, "GET", true, "/api/locale-bootstrap", Phase::Always));
    out.push(fixed_route(Access::OperatorAny, "POST", true, "/api/settings/nim-keys", Phase::PostSetup));
    out.push(fixed_route(Access::OperatorAny, "POST", true, "/api/settings/clients", Phase::PostSetup));
    out.push(fixed_route(Access::OperatorAdmin, "POST", true, "/api/settings/limits", Phase::PostSetup));
    out.push(fixed_route(Access::OperatorAdmin, "POST", true, "/api/settings/server", Phase::PostSetup));
    out.push(fixed_route(Access::OperatorAdmin, "POST", true, "/api/settings/history", Phase::PostSetup));
    out.push(fixed_route(Access::OperatorAdmin, "POST", true, "/api/settings/governor", Phase::PostSetup));
    out.push(fixed_route(Access::OperatorAdmin, "POST", true, "/api/settings/users", Phase::PostSetup));
    out.push(fixed_route(Access::OperatorAny, "POST", true, "/api/settings/validate-key", Phase::PostSetup));
    out.push(fixed_route(Access::OperatorAdmin, "POST", true, "/api/settings/upstream", Phase::PostSetup));
    out.push(fixed_route(Access::OperatorAny, "POST", true, "/api/settings/account", Phase::PostSetup));
    out.push(fixed_route(Access::OperatorAdmin, "POST", true, "/api/settings/locale", Phase::PostSetup));
    out.push(fixed_route(Access::Public, "GET", false, HEALTH, Phase::Always));
    out.push(fixed_route(Access::Public, "GET", false, LOGIN, Phase::Always));
    out.push(fixed_route(Access::Public, "POST", false, LOGIN, Phase::Always));
    out.push(fixed_route(Access::Public, "POST", false, LOGOUT, Phase::Always));
    out.push(fixed_route(Access::Public, "GET", false, SETUP, Phase::PreSetup));
    out.push(fixed_route(Access::Public, "POST", true, SETUP, Phase::PreSetup));
    out.push(fixed_route(Access::Public, "POST", true, SETUP_VALIDATE_KEY, Phase::PreSetup));
    out.push(fixed_route(Access::Client, "POST", true, MESSAGES, Phase::PostSetup));
    out.push(
        RouteContract {
            access: Access::Client,
            method: "ANY",
            openapi: false,
            path: V1_WILDCARD,
            phase: Phase::PostSetup,
            probe_path: "/v1/chat/completions",
        },
    );
    assert(routes_view(out@) =~= inventory());
    out
}

/// The superuser is an invariant of the store, not extra endpoint power: no
/// route asks for more than an administrator.
pub proof fn law_no_route_asks_for_the_superuser(i: int)
    requires
        0 <= i < inventory().len(),
    ensures
        inventory()[i].access != Access::OperatorSuperuser,
{
}

/// What is open before setup is open to everyone, and what an operator or a
/// client reaches is there only after setup.
pub proof fn law_phases_match_access(i: int)
    requires
        0 <= i < inventory().len(),
    ensures
        inventory()[i].phase == Phase::PreSetup ==> inventory()[i].access == Access::Public,
        inventory()[i].access != Access::Public <==> inventory()[i].phase == Phase::PostSetup,
{
}

}
