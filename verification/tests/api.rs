//! The dashboard API's wire shapes.
use nim_proxy::api::{
    api_method_not_allowed, api_not_found, dashboard_json, governor_json, limits_json, refuse_json,
    refuse_query, web_search_json, ApiError, ClientKeyRow, ClientsResponse, ConfigResponse,
    DashboardNowResponse, DashboardResponse, DashboardWindow, HistorySettings, JsonFault,
    LocaleBootstrap, MintedClientKey, NimKeyRow, OkResponse, PoolSummary, ServerSettings,
    SetupResponse, UserRow, ValidateKeyResponse,
};
use nim_proxy::codec::{parse, print};
use nim_proxy::config::{Mode, Role, StoredConfig};
use nim_proxy::json::{FiniteFloat, Json};

fn float(x: f64) -> FiniteFloat {
    FiniteFloat::from_bits(x.to_bits()).expect("finite")
}

fn server_settings() -> ServerSettings {
    let store = StoredConfig::default();
    ServerSettings {
        base_url: "https://example.invalid".into(),
        dashboard: store.dashboard,
        default_locale: "en-US".into(),
        governor: store.governor.clone(),
        web_search: store.web_search.clone(),
        history: HistorySettings {
            available_from: None,
            compaction_pending: false,
            days: 30,
            file_bytes: 0,
            persistence: "ok".into(),
        },
        limits: store.limits,
    }
}

fn window() -> DashboardWindow {
    DashboardWindow {
        available_from: None,
        available_to: None,
        complete: false,
        default_window_days: 30,
        effective_from: None,
        effective_to: None,
        following_now: true,
        requested_from: 0,
        requested_to: 1,
        retention_days: 30,
    }
}

/// The member names of an object, in the order its text has them.
fn keys_of(value: &Json) -> Vec<String> {
    let text = print(value);
    let mut keys = Vec::new();
    let mut depth = 0;
    let mut in_string = false;
    let mut start = 0;
    let mut last = String::new();
    let mut escaped = false;
    for (i, c) in text.char_indices() {
        if in_string {
            if escaped {
                escaped = false;
            } else if c == '\\' {
                escaped = true;
            } else if c == '"' {
                in_string = false;
                last = text[start..i].to_owned();
            }
        } else {
            match c {
                '"' => {
                    in_string = true;
                    start = i + 1;
                }
                '{' | '[' => depth += 1,
                '}' | ']' => depth -= 1,
                ':' if depth == 1 => keys.push(last.clone()),
                _ => {}
            }
        }
    }
    keys
}

#[test]
fn field_order_stays_ascii_sorted() {
    fn sorted(label: &str, value: &Json, names: usize) {
        let keys = keys_of(value);
        let mut want = keys.clone();
        want.sort();
        assert_eq!(keys, want, "{label}: the wire order is the order of names");
        assert_eq!(keys.len(), names, "{label}");
    }

    let error = ApiError::new("code", "message").to_json();
    sorted("ApiError", &error, 1);
    sorted("ApiErrorBody", error.get("error").unwrap(), 3);
    sorted("OkResponse", &OkResponse::new().to_json(), 1);
    sorted(
        "LocaleBootstrap",
        &LocaleBootstrap::from_config(&StoredConfig::default(), vec!["en-US".into()]).to_json(),
        2,
    );
    sorted(
        "ClientsResponse",
        &ClientsResponse {
            ok: true,
            secret: Some("npk_x".into()),
        }
        .to_json(),
        2,
    );
    sorted(
        "ValidateKeyResponse",
        &ValidateKeyResponse {
            error: Some("nope".into()),
            models: Some(1),
            ok: false,
        }
        .to_json(),
        3,
    );
    sorted(
        "SetupResponse",
        &SetupResponse {
            client_key: Some(MintedClientKey {
                name: "first".into(),
                secret: "npk_x".into(),
            }),
            ok: true,
        }
        .to_json(),
        2,
    );
    sorted(
        "MintedClientKey",
        &MintedClientKey {
            name: "first".into(),
            secret: "npk_x".into(),
        }
        .to_json(),
        2,
    );
    sorted(
        "ClientKeyRow",
        &ClientKeyRow {
            last4: "abcd".into(),
            name: "harness".into(),
            owner: "root".into(),
        }
        .to_json(),
        3,
    );
    sorted(
        "NimKeyRow",
        &NimKeyRow {
            cooldown_ms: Some(0),
            enabled: true,
            fingerprint: "abcd1234".into(),
            guarded: false,
            in_window: Some(0),
            lane: Some(0),
            last4: "wxyz".into(),
            owner: "root".into(),
            rpm: 40,
        }
        .to_json(),
        9,
    );
    sorted(
        "PoolSummary",
        &PoolSummary {
            capacity_rpm: 40,
            enabled: 1,
        }
        .to_json(),
        2,
    );
    sorted(
        "HistorySettings",
        &HistorySettings {
            available_from: Some(0),
            compaction_pending: false,
            days: 30,
            file_bytes: 0,
            persistence: "ok".into(),
        }
        .to_json(),
        5,
    );
    sorted(
        "UserRow",
        &UserRow {
            client_keys: 0,
            nim_keys: 0,
            role: Role::User,
            username: "root".into(),
        }
        .to_json(),
        4,
    );
    let server = server_settings();
    sorted("Limits", &limits_json(&server.limits), 7);
    sorted("DashboardCfg", &dashboard_json(&server.dashboard), 2);
    sorted("GovernorCfg", &governor_json(&server.governor), 2);
    sorted("WebSearchCfg", &web_search_json(&server.web_search), 4);
    sorted("ServerSettings", &server.to_json(), 7);
    sorted(
        "ConfigResponse",
        &ConfigResponse {
            client_keys: Vec::new(),
            locale: None,
            mode: Mode::Keyed,
            nim_keys: Vec::new(),
            pool: PoolSummary {
                capacity_rpm: 40,
                enabled: 1,
            },
            role: Role::Superuser,
            server: Some(server),
            username: "root".into(),
            users: Some(Vec::new()),
        }
        .to_json(),
        9,
    );
    sorted("DashboardWindow", &window().to_json(), 10);
    sorted(
        "DashboardResponse",
        &DashboardResponse {
            config_revision: 1,
            diagnostics: Json::object(),
            history_revision: 1,
            latest: Vec::new(),
            points: Vec::new(),
            totals: Vec::new(),
            window: window(),
        }
        .to_json(),
        7,
    );
    sorted(
        "DashboardNowResponse",
        &DashboardNowResponse {
            auth: true,
            available_from: None,
            available_to: None,
            capacity_rpm: 40,
            config_revision: 1,
            default_window_days: 30,
            history_revision: 1,
            lanes: 1,
            metrics: Vec::new(),
            retention_days: 30,
            rpms: vec![40],
            sampled_at: 0,
            slo_target_percent: float(99.9),
            started: 0,
            tail: Json::object(),
            version: "0.0.0".into(),
        }
        .to_json(),
        16,
    );
}

#[test]
fn optional_sections_are_omitted_not_nulled() {
    let user_view = ConfigResponse {
        client_keys: Vec::new(),
        locale: None,
        mode: Mode::Open,
        nim_keys: Vec::new(),
        pool: PoolSummary {
            capacity_rpm: 40,
            enabled: 1,
        },
        role: Role::User,
        server: None,
        username: "alice".into(),
        users: None,
    };
    assert_eq!(
        print(&user_view.to_json()),
        r#"{"client_keys":[],"locale":null,"mode":"open","nim_keys":[],"pool":{"capacity_rpm":40,"enabled":1},"role":"user","username":"alice"}"#
    );
    assert_eq!(
        print(&ValidateKeyResponse::probed(Ok(3)).to_json()),
        r#"{"models":3,"ok":true}"#
    );
    assert_eq!(
        print(&ValidateKeyResponse::probed(Err("nope".into())).to_json()),
        r#"{"error":"nope","ok":false}"#
    );
    assert_eq!(
        print(
            &SetupResponse {
                client_key: None,
                ok: true
            }
            .to_json()
        ),
        r#"{"ok":true}"#
    );
}

#[test]
fn lane_state_is_null_for_a_benched_key() {
    assert_eq!(
        print(
            &NimKeyRow {
                cooldown_ms: None,
                enabled: false,
                fingerprint: "abcd1234".into(),
                guarded: false,
                in_window: None,
                lane: None,
                last4: "wxyz".into(),
                owner: "root".into(),
                rpm: 40,
            }
            .to_json()
        ),
        r#"{"cooldown_ms":null,"enabled":false,"fingerprint":"abcd1234","guarded":false,"in_window":null,"lane":null,"last4":"wxyz","owner":"root","rpm":40}"#
    );
}

#[test]
fn error_envelope_matches_the_v1_shape() {
    assert_eq!(
        print(&ApiError::new("forbidden", "server settings require an admin").to_json()),
        r#"{"error":{"code":"forbidden","message":"server settings require an admin","type":"proxy_error"}}"#
    );
}

#[test]
fn api_error_wire_order_is_exact() {
    let body = print(&ApiError::new("invalid_json", "invalid JSON").to_json());
    assert_eq!(
        body,
        r#"{"error":{"code":"invalid_json","message":"invalid JSON","type":"proxy_error"}}"#
    );
}

#[test]
fn locale_bootstrap_config_factory_uses_the_persisted_default() {
    let mut stored = StoredConfig::default();
    stored.default_locale = "fr-FR".into();
    let bootstrap = LocaleBootstrap::from_config(&stored, vec!["en-US".into(), "fr-FR".into()]);
    assert_eq!(
        print(&bootstrap.to_json()),
        r#"{"installed_locales":["en-US","fr-FR"],"server_default":"fr-FR"}"#,
        "locale-bootstrap: the config-owned factory must select the persisted default"
    );
}

#[test]
fn a_server_section_prints_every_setting() {
    let mut server = server_settings();
    server.governor.enabled = true;
    server.governor.overrides.insert("b/model".into(), 8);
    server.governor.overrides.insert("a/model".into(), 2);
    server.governor.overrides.insert("b/model".into(), 9);
    server.dashboard.slo_target_percent = float(99.5);
    server.limits.max_inflight = 64;
    assert_eq!(
        print(&server.to_json()),
        concat_lines(&[
            r#"{"base_url":"https://example.invalid","#,
            r#""dashboard":{"default_window_days":0,"slo_target_percent":99.5},"#,
            r#""default_locale":"en-US","#,
            r#""governor":{"enabled":true,"overrides":{"a/model":2,"b/model":9}},"#,
            r#""history":{"available_from":null,"compaction_pending":false,"days":30,"file_bytes":0,"persistence":"ok"},"#,
            r#""limits":{"heartbeat_secs":0,"max_inflight":64,"max_wait_secs":0,"models_ttl_secs":0,"request_timeout_secs":0,"stream_idle_secs":0,"strict_passthrough":false},"#,
            r#""web_search":{"base_url":"","format":"rss","max_results":0,"timeout_secs":0}}"#,
        ])
    );
}

fn concat_lines(lines: &[&str]) -> String {
    lines.concat()
}

#[test]
fn rows_and_sections_print_for_an_administrator() {
    let config = ConfigResponse {
        client_keys: vec![ClientKeyRow {
            last4: "abcd".into(),
            name: "harness".into(),
            owner: "root".into(),
        }],
        locale: Some("fr-FR".into()),
        mode: Mode::Keyed,
        nim_keys: vec![NimKeyRow {
            cooldown_ms: Some(7),
            enabled: true,
            fingerprint: "00000000".into(),
            guarded: true,
            in_window: Some(3),
            lane: Some(0),
            last4: "wxyz".into(),
            owner: "root".into(),
            rpm: 40,
        }],
        pool: PoolSummary {
            capacity_rpm: 40,
            enabled: 1,
        },
        role: Role::Superuser,
        server: None,
        username: "root".into(),
        users: Some(vec![UserRow {
            client_keys: 1,
            nim_keys: 1,
            role: Role::Superuser,
            username: "root".into(),
        }]),
    };
    let text = print(&config.to_json());
    assert!(text.contains(r#""client_keys":[{"last4":"abcd","name":"harness","owner":"root"}]"#));
    assert!(text.contains(r#""cooldown_ms":7"#) && text.contains(r#""lane":0"#));
    assert!(text.contains(r#""locale":"fr-FR""#) && text.contains(r#""mode":"keyed""#));
    assert!(text.contains(
        r#""users":[{"client_keys":1,"nim_keys":1,"role":"superuser","username":"root"}]"#
    ));
}

#[test]
fn the_now_strip_prints_exactly() {
    let now = DashboardNowResponse {
        auth: true,
        available_from: Some(5),
        available_to: None,
        capacity_rpm: 80,
        config_revision: 2,
        default_window_days: 30,
        history_revision: 3,
        lanes: 2,
        metrics: vec![parse(r#"{"metric":"m","value":1}"#).unwrap()],
        retention_days: 0,
        rpms: vec![40, 40],
        sampled_at: 9,
        slo_target_percent: float(99.0),
        started: 1,
        tail: parse(r#"{"to":1}"#).unwrap(),
        version: "1.2.3".into(),
    };
    assert_eq!(
        print(&now.to_json()),
        r#"{"auth":true,"available_from":5,"available_to":null,"capacity_rpm":80,"config_revision":2,"default_window_days":30,"history_revision":3,"lanes":2,"metrics":[{"metric":"m","value":1}],"retention_days":0,"rpms":[40,40],"sampled_at":9,"slo_target_percent":99.0,"started":1,"tail":{"to":1},"version":"1.2.3"}"#
    );
    let range = DashboardResponse {
        config_revision: 1,
        diagnostics: Json::object(),
        history_revision: 2,
        latest: vec![Json::uint(4)],
        points: vec![],
        totals: vec![Json::Null],
        window: window(),
    };
    let text = print(&range.to_json());
    assert!(text.starts_with(r#"{"config_revision":1,"diagnostics":{},"history_revision":2,"latest":[4],"points":[],"totals":[null],"window":{"available_from":null"#), "{text}");
}

#[test]
fn every_body_fault_has_its_answer() {
    for (fault, status, code, message) in [
        (
            JsonFault::ContentType,
            415,
            "unsupported_media_type",
            "Content-Type must be application/json",
        ),
        (
            JsonFault::TooLarge,
            413,
            "body_too_large",
            "request body is too large",
        ),
        (JsonFault::Unreadable, 400, "invalid_json", "invalid JSON"),
        (JsonFault::Shape, 422, "invalid_json", "invalid JSON"),
        (JsonFault::Syntax, 400, "invalid_json", "invalid JSON"),
    ] {
        let r = refuse_json(fault);
        assert_eq!(r.status, status);
        assert_eq!(r.error.error.code, code);
        assert_eq!(r.error.error.message, message);
        assert_eq!(r.error.error.kind, "proxy_error");
    }
    assert_eq!(refuse_query().error.error.code, "invalid_query");
    assert_eq!(api_not_found().status, 404);
    assert_eq!(api_method_not_allowed().status, 405);
}

#[test]
fn a_probe_says_exactly_one_thing() {
    let ok = ValidateKeyResponse::probed(Ok(0));
    assert!(ok.ok && ok.models == Some(0) && ok.error.is_none());
    let bad = ValidateKeyResponse::probed(Err("no".into()));
    assert!(!bad.ok && bad.models.is_none() && bad.error.as_deref() == Some("no"));
}

#[test]
fn pins_are_dropped_by_model() {
    let mut store = StoredConfig::default();
    store.governor.overrides.insert("a".into(), 1);
    store.governor.overrides.insert("b".into(), 2);
    store.governor.overrides.remove("a");
    store.governor.overrides.remove("absent");
    assert_eq!(
        print(&governor_json(&store.governor)),
        r#"{"enabled":false,"overrides":{"b":2}}"#
    );
    let copy = store.governor.clone();
    assert_eq!(print(&copy.overrides.to_json()), r#"{"b":2}"#);
}
