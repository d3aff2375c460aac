//! The route inventory.
use nim_proxy::routes::{
    routes, Access, Phase, API_CONFIG, API_DASHBOARD, API_DASHBOARD_NOW, API_LOCALE_BOOTSTRAP,
    API_PREFIX, API_SETTINGS_ACCOUNT, API_SETTINGS_CLIENTS, API_SETTINGS_GOVERNOR,
    API_SETTINGS_HISTORY, API_SETTINGS_LIMITS, API_SETTINGS_LOCALE, API_SETTINGS_NIM_KEYS,
    API_SETTINGS_SERVER, API_SETTINGS_UPSTREAM, API_SETTINGS_USERS, API_SETTINGS_VALIDATE_KEY,
    MESSAGES,
};
use std::collections::HashSet;

const REGISTERED_API_PATHS: [&str; 15] = [
    API_LOCALE_BOOTSTRAP,
    API_DASHBOARD,
    API_DASHBOARD_NOW,
    API_CONFIG,
    API_SETTINGS_NIM_KEYS,
    API_SETTINGS_CLIENTS,
    API_SETTINGS_UPSTREAM,
    API_SETTINGS_LIMITS,
    API_SETTINGS_SERVER,
    API_SETTINGS_HISTORY,
    API_SETTINGS_GOVERNOR,
    API_SETTINGS_USERS,
    API_SETTINGS_ACCOUNT,
    API_SETTINGS_LOCALE,
    API_SETTINGS_VALIDATE_KEY,
];

fn assert_registered_api_paths(registered_api_paths: &[&str]) {
    assert_eq!(
        registered_api_paths.len(),
        15,
        "route-contract:registration: every nested /api registration must be reconciled"
    );
    for registered_path in registered_api_paths {
        let full_path = format!("{API_PREFIX}{registered_path}");
        assert!(
            routes()
                .iter()
                .any(|route| route.path == full_path && route.openapi),
            "route-contract:registration: {API_PREFIX} + {registered_path} is absent from the inventory"
        );
    }
}

#[test]
#[should_panic(expected = "route-contract:registration")]
fn registration_self_test_names_relative_path_drift() {
    let mut drifted = REGISTERED_API_PATHS;
    drifted[0] = "/drifted-dashboard";
    assert_registered_api_paths(&drifted);
}

#[test]
fn locale_preference_routes_have_the_locked_boundaries() {
    let all = routes();
    let server_default = all
        .iter()
        .find(|route| route.method == "POST" && route.path == "/api/settings/locale");
    let server_default =
        server_default.expect("route-contract:locale: missing POST /api/settings/locale");
    assert_eq!(
        server_default.access,
        Access::OperatorAdmin,
        "route-contract:locale: server default must be admin-only"
    );
    assert_eq!(server_default.phase, Phase::PostSetup);
    assert!(server_default.openapi);

    let own_preference = all
        .iter()
        .find(|route| route.method == "POST" && route.path == "/api/settings/account");
    let own_preference =
        own_preference.expect("route-contract:locale: missing account preference route");
    assert_eq!(own_preference.access, Access::OperatorAny);
    assert_eq!(own_preference.phase, Phase::PostSetup);
    assert!(own_preference.openapi);
}

#[test]
fn inventory_is_complete_and_unambiguous() {
    let all = routes();
    assert_eq!(all.len(), 37);
    assert_eq!(
        all.iter().filter(|r| r.path.starts_with("/assets/")).count(),
        10
    );
    assert_registered_api_paths(&REGISTERED_API_PATHS);
    let mut method_paths = HashSet::new();
    let mut probes = HashSet::new();
    for route in &all {
        assert!(method_paths.insert((route.method, route.path)));
        assert!(probes.insert((route.method, route.probe_path)));
        assert!(!route.path.contains('{') || !route.probe_path.contains('{'));
    }
    let in_phase = |phase: Phase| all.iter().filter(|r| r.phase == phase).count();
    assert_eq!(in_phase(Phase::Always), 10);
    assert_eq!(in_phase(Phase::PreSetup), 3);
    assert_eq!(in_phase(Phase::PostSetup), 24);
}

#[test]
fn no_route_asks_for_the_superuser() {
    assert!(!routes()
        .iter()
        .any(|route| route.access == Access::OperatorSuperuser));
}

#[test]
fn the_one_published_client_route_is_the_bridge() {
    let published: Vec<&str> = routes()
        .iter()
        .filter(|r| r.access == Access::Client && r.openapi)
        .map(|r| r.path)
        .collect();
    assert_eq!(published, [MESSAGES]);
}

#[test]
fn phases_match_access() {
    for r in routes() {
        assert_eq!(r.access != Access::Public, r.phase == Phase::PostSetup);
    }
}
