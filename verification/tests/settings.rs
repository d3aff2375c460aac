//! Setup, users, keys, sections and accounts.
use nim_proxy::api::{PoolSummary, Refused};
use nim_proxy::codec::{parse, print};
use nim_proxy::config::{
    ClientKey, Mode, NimKey, Overrides, Role, SearchFormat, StoredConfig, User,
};
use nim_proxy::digest::sha256_hex;
use nim_proxy::json::FiniteFloat;
use nim_proxy::settings::account::{
    account_open, apply_password_change, begin_password_change, finish_password_change,
    judge_password, own_locale, server_locale, AccountBody, AccountField, AccountFields,
    AccountPasswordReq, AccountWork, BodyFault, LocaleError, PasswordChangeErr,
};
use nim_proxy::settings::keys::{
    client_secret, clients, clients_with, fingerprint, last4, mint_client_secret, nim_keys,
    secret_from, ClientsStep,
};
use nim_proxy::settings::overview::{api_config, HistoryStatus, LaneStat};
use nim_proxy::settings::probe::{
    configured_target, probe_key, probed_key, refuse_base_url, setup_target, CatalogReply,
};
use nim_proxy::settings::refusals::{answer, role_of, stale_session, throttled};
use nim_proxy::settings::requests::{
    AddClient, AddNimKey, AddUser, ClientsReq, CreateClientKey, GovernorOverride, GovernorReq,
    HistoryReq, LimitsReq, NimKeysReq, NoScriptSetupForm, ResetPassword, ServerReq, SetNimKey,
    SetRole, SetupKey, SetupReq, UpstreamReq, UsersReq, ValidateKeyReq, WebSearchReq,
};
use nim_proxy::settings::sections::{
    governor_cfg, history, limits, server, upstream, web_search_cfg,
};
use nim_proxy::settings::setup::{
    claim, claim_answer, claim_with, invalid_form, is_form, setup_gate, setup_limit, setup_weigh,
    ClaimAnswer, ClaimStep,
};
use nim_proxy::settings::store::{commit, Committed};
use nim_proxy::settings::users::{authorize_users, parse_role, users};

fn user(username: &str, hash: &str, role: Role) -> User {
    User {
        username: username.into(),
        password_hash: hash.into(),
        role,
        locale: None,
    }
}

fn nim(key: &str, owner: &str, enabled: bool) -> NimKey {
    NimKey {
        key: key.into(),
        owner: owner.into(),
        enabled,
        rpm: 40,
    }
}

fn client(name: &str, owner: &str) -> ClientKey {
    ClientKey {
        name: name.into(),
        secret_sha256: "digest".into(),
        last4: "last".into(),
        owner: owner.into(),
    }
}

fn store_with_user(username: &str, hash: &str) -> StoredConfig {
    let mut sc = StoredConfig::default();
    sc.users.push(user(username, hash, Role::User));
    sc
}

/// A superuser, an administrator and a user, with a key each.
fn populated() -> StoredConfig {
    let mut sc = StoredConfig::default();
    sc.users.push(user("root", "h-root", Role::Superuser));
    sc.users.push(user("ada", "h-ada", Role::Admin));
    sc.users.push(user("uma", "h-uma", Role::User));
    sc.upstream.base_url = "https://up.example".into();
    sc.upstream.nim_keys.push(nim("nvapi-root", "root", true));
    sc.upstream.nim_keys.push(nim("nvapi-ada", "ada", true));
    sc.upstream.nim_keys.push(nim("nvapi-uma", "uma", false));
    sc.client_auth.keys.push(client("c-ada", "ada"));
    sc.client_auth.keys.push(client("c-uma", "uma"));
    sc
}

fn refusal<T>(r: Result<T, Refused>) -> (u16, String, String) {
    match r {
        Ok(_) => panic!("not refused"),
        Err(e) => (e.status, e.error.error.code, e.error.error.message),
    }
}

fn says(status: u16, code: &str, message: &str) -> (u16, String, String) {
    (status, code.to_owned(), message.to_owned())
}

fn add_nim(key: &str, rpm: Option<usize>) -> NimKeysReq {
    NimKeysReq {
        add: Some(AddNimKey {
            key: key.into(),
            rpm,
        }),
        remove: None,
        set: None,
    }
}

fn remove_nim(print: &str) -> NimKeysReq {
    NimKeysReq {
        add: None,
        remove: Some(print.into()),
        set: None,
    }
}

fn set_nim(print: &str, enabled: Option<bool>, rpm: Option<usize>) -> NimKeysReq {
    NimKeysReq {
        add: None,
        remove: None,
        set: Some(SetNimKey {
            fingerprint: print.into(),
            enabled,
            rpm,
        }),
    }
}

fn no_users_req() -> UsersReq {
    UsersReq {
        add: None,
        remove: None,
        reset_password: None,
        set_role: None,
    }
}

fn add_user(username: &str, password: &str, role: &str) -> UsersReq {
    UsersReq {
        add: Some(AddUser {
            username: username.into(),
            password: password.into(),
            role: role.into(),
        }),
        ..no_users_req()
    }
}

fn reset(username: &str, password: &str) -> UsersReq {
    UsersReq {
        reset_password: Some(ResetPassword {
            username: username.into(),
            new_password: password.into(),
        }),
        ..no_users_req()
    }
}

fn set_role(username: &str, role: &str) -> UsersReq {
    UsersReq {
        set_role: Some(SetRole {
            username: username.into(),
            role: role.into(),
        }),
        ..no_users_req()
    }
}

fn remove_user(username: &str) -> UsersReq {
    UsersReq {
        remove: Some(username.into()),
        ..no_users_req()
    }
}

fn names(sc: &StoredConfig) -> Vec<&str> {
    sc.users.iter().map(|u| u.username.as_str()).collect()
}

fn setup_req() -> SetupReq {
    SetupReq {
        username: "root".into(),
        password: "long enough".into(),
        base_url: Some(" https://nim.example// ".into()),
        nim_keys: vec![
            SetupKey {
                key: " nvapi-1 ".into(),
                rpm: None,
            },
            SetupKey {
                key: "nvapi-2".into(),
                rpm: Some(7),
            },
        ],
        create_client_key: None,
    }
}

#[test]
fn parse_role_maps_admin_and_user_but_never_superuser() {
    assert_eq!(parse_role("admin"), Some(Role::Admin));
    assert_eq!(parse_role("user"), Some(Role::User));
    // Superuser is intentionally NOT assignable through the users API.
    assert_eq!(parse_role("superuser"), None);
    assert_eq!(parse_role("root"), None);
    assert_eq!(parse_role(""), None);
}

#[test]
fn password_change_applies_when_the_verified_hash_is_current() {
    let mut sc = store_with_user("alice", "old-hash");
    assert_eq!(
        apply_password_change(&mut sc, "alice", "old-hash", "new-hash"),
        Ok(())
    );
    assert_eq!(sc.users[0].password_hash, "new-hash");
}

#[test]
fn password_change_refuses_when_the_hash_rotated_since_verify() {
    // An admin reset landed between this caller's verify and commit: the
    // stored hash is no longer the one the current password matched.
    let mut sc = store_with_user("alice", "reset-by-admin");
    assert_eq!(
        apply_password_change(&mut sc, "alice", "old-hash", "new-hash"),
        Err(PasswordChangeErr::HashRotated)
    );
    assert_eq!(sc.users[0].password_hash, "reset-by-admin", "unchanged");
}

#[test]
fn password_change_refuses_when_the_user_was_deleted() {
    let mut sc = StoredConfig::default();
    assert_eq!(
        apply_password_change(&mut sc, "ghost", "h", "n"),
        Err(PasswordChangeErr::UserGone)
    );
}

#[test]
fn users_authorizes_before_password_hashing() {
    let sc = populated();
    // The two requests that bring a password to hash: add and reset.
    for req in [
        add_user("new", "long enough", "user"),
        reset("uma", "long enough"),
    ] {
        // Nobody but an administrator gets leave to hash it.
        assert_eq!(
            refusal(authorize_users(&sc, "uma", &req)),
            says(403, "forbidden", "user management requires an admin")
        );
        assert_eq!(
            refusal(authorize_users(&sc, "ghost", &req)),
            says(401, "unauthorized", "your user no longer exists")
        );
        for caller in ["root", "ada"] {
            let ticket = authorize_users(&sc, caller, &req).expect("authorized");
            assert_eq!(ticket.expect("a password to hash").password(), "long enough");
        }
    }
    // Authority is asked for before the password is even measured.
    assert_eq!(
        refusal(authorize_users(&sc, "uma", &add_user("new", "short", "user"))).1,
        "forbidden"
    );
    assert_eq!(
        refusal(authorize_users(&sc, "ada", &add_user("new", "short", "user"))).1,
        "weak_password"
    );
}

#[test]
fn setup_claim_admits_hashing_only_through_pre_auth_limiter() {
    // Closed setup retains its phase gate, ahead of everything else.
    assert_eq!(
        refusal(setup_gate(false)),
        says(409, "setup_complete", "setup is already complete")
    );
    let open = setup_gate(true).expect("open");
    let weighed = setup_weigh(open, "long enough").expect("long enough");
    // What the limiter refuses gets no leave to hash.
    assert_eq!(
        refusal(setup_limit(weighed, false)),
        says(
            429,
            "throttled",
            "too many validation attempts, try again shortly"
        )
    );
    let weighed = setup_weigh(setup_gate(true).unwrap(), "long enough").unwrap();
    let ticket = setup_limit(weighed, true).expect("let through");
    assert_eq!(ticket.password(), "long enough");
}

#[test]
fn a_password_has_ten_characters() {
    let weigh = |p: &str| setup_weigh(setup_gate(true).unwrap(), p).is_ok();
    assert!(!weigh("123456789"));
    assert!(weigh("1234567890"));
    // Characters are counted, not bytes.
    assert!(!weigh("ééééééééé"));
    assert!(weigh("éééééééééé"));
    assert_eq!(
        refusal(setup_weigh(setup_gate(true).unwrap(), "short")),
        says(
            400,
            "weak_password",
            "password must be at least 10 characters"
        )
    );
}

#[test]
fn commits_apply_all_or_nothing() {
    let before = populated();
    let mut guard = before.clone();
    let mut revision = 7;
    let mut cand = before.clone();
    cand.history.days = 30;
    cand.default_locale = "fr-FR".into();

    let r = commit(
        &mut guard,
        &mut revision,
        cand.clone(),
        Err("no enabled key".into()),
        Ok(()),
    );
    assert_eq!(r, Err("no enabled key".into()));
    assert_eq!((guard.default_locale.as_str(), revision), ("en-US", 7));

    let r = commit(
        &mut guard,
        &mut revision,
        cand.clone(),
        Ok(()),
        Err("disk full".into()),
    );
    assert_eq!(r, Err("cannot write the config store: disk full".into()));
    assert_eq!((guard.default_locale.as_str(), revision), ("en-US", 7));

    let r = commit(&mut guard, &mut revision, cand.clone(), Ok(()), Ok(()));
    assert_eq!(
        r,
        Ok(Committed {
            retention: Some(30)
        })
    );
    assert_eq!((guard.default_locale.as_str(), revision), ("fr-FR", 8));

    // Retention that stays is not reconfigured; the revision wraps.
    revision = u64::MAX;
    let r = commit(&mut guard, &mut revision, cand, Ok(()), Ok(()));
    assert_eq!(r, Ok(Committed { retention: None }));
    assert_eq!(revision, 0);
}

#[test]
fn writes_are_answered_uniformly() {
    assert!(answer(Ok::<(), String>(())).unwrap().ok);
    assert_eq!(
        refusal(answer(Err::<(), String>("why".into()))),
        says(400, "invalid_config", "why")
    );
}

#[test]
fn roles_are_looked_up_live() {
    let sc = populated();
    assert_eq!(role_of(&sc, "root"), Some(Role::Superuser));
    assert_eq!(role_of(&sc, "uma"), Some(Role::User));
    assert_eq!(role_of(&sc, "ghost"), None);
    assert!(Role::Superuser.is_admin() && Role::Admin.is_admin() && !Role::User.is_admin());
}

#[test]
fn fingerprints_are_the_digest_prefix() {
    // SHA-256("abc") = ba7816bf...
    assert_eq!(fingerprint("abc"), "ba7816bf");
    assert_eq!(fingerprint(""), "e3b0c442");
}

#[test]
fn tails_are_four_characters() {
    assert_eq!(last4("nvapi-wxyz"), "wxyz");
    assert_eq!(last4("abc"), "abc");
    assert_eq!(last4("abcd"), "abcd");
    assert_eq!(last4("clé-été"), "-été");
    assert_eq!(last4(""), "");
}

#[test]
fn secrets_are_random_and_well_formed() {
    assert_eq!(
        client_secret(&vec![0u8, 1, 171, 255]),
        "npk_0001abff"
    );
    assert_eq!(
        secret_from(Some(vec![0u8, 1, 171, 255])),
        Some("npk_0001abff".to_owned())
    );
    assert_eq!(secret_from(None), None);
    let a = mint_client_secret().expect("randomness");
    let b = mint_client_secret().expect("randomness");
    assert_ne!(a, b);
    for s in [a, b] {
        assert_eq!(s.len(), 36);
        let hex = s.strip_prefix("npk_").expect("prefix");
        assert!(hex
            .chars()
            .all(|c| c.is_ascii_digit() || ('a'..='f').contains(&c)));
    }
}

#[test]
fn any_user_adds_nim_keys_of_their_own() {
    let sc = populated();
    let cand = nim_keys(&sc, "uma", &add_nim("  nvapi-new ", None)).expect("added");
    let k = cand.upstream.nim_keys.last().unwrap();
    assert_eq!(
        (k.key.as_str(), k.owner.as_str(), k.enabled, k.rpm),
        ("nvapi-new", "uma", true, 40)
    );
    assert_eq!(cand.upstream.nim_keys.len(), 4);
    assert_eq!(sc.upstream.nim_keys.len(), 3, "the store is untouched");
    let cand = nim_keys(&sc, "uma", &add_nim("k", Some(5))).unwrap();
    assert_eq!(cand.upstream.nim_keys[3].rpm, 5);
}

#[test]
fn nim_keys_are_managed_by_owners_and_administrators() {
    let sc = populated();
    let ada = fingerprint("nvapi-ada");
    let uma = fingerprint("nvapi-uma");
    assert_eq!(
        refusal(nim_keys(&sc, "uma", &remove_nim(&ada))),
        says(403, "forbidden", "you can only remove your own keys")
    );
    assert_eq!(
        refusal(nim_keys(&sc, "uma", &set_nim(&ada, Some(false), None))),
        says(403, "forbidden", "you can only change your own keys")
    );
    let cand = nim_keys(&sc, "uma", &remove_nim(&uma)).unwrap();
    assert_eq!(cand.upstream.nim_keys.len(), 2);
    let cand = nim_keys(&sc, "ada", &remove_nim(&uma)).unwrap();
    assert!(cand.upstream.nim_keys.iter().all(|k| k.owner != "uma"));
    let cand = nim_keys(&sc, "uma", &set_nim(&uma, Some(true), None)).unwrap();
    assert!(cand.upstream.nim_keys[2].enabled);
    assert_eq!(cand.upstream.nim_keys[2].rpm, 40);
    let cand = nim_keys(&sc, "root", &set_nim(&uma, None, Some(9))).unwrap();
    assert_eq!(cand.upstream.nim_keys[2].rpm, 9);
    assert!(!cand.upstream.nim_keys[2].enabled);
}

#[test]
fn nim_key_requests_say_one_thing() {
    let sc = populated();
    for req in [remove_nim("00000000"), set_nim("00000000", None, None)] {
        assert_eq!(
            refusal(nim_keys(&sc, "root", &req)),
            says(400, "invalid_config", "no such key")
        );
    }
    let none = NimKeysReq {
        add: None,
        remove: None,
        set: None,
    };
    let mut two = add_nim("k", None);
    two.remove = Some("x".into());
    for req in [none, two] {
        assert_eq!(
            refusal(nim_keys(&sc, "root", &req)),
            says(
                400,
                "invalid_config",
                "send exactly one of add / remove / set"
            )
        );
    }
    assert_eq!(
        refusal(nim_keys(&sc, "ghost", &add_nim("k", None))).0,
        401
    );
}

fn add_client(name: &str) -> ClientsReq {
    ClientsReq {
        add: Some(AddClient { name: name.into() }),
        remove: None,
        mode: None,
    }
}

fn remove_client(name: &str) -> ClientsReq {
    ClientsReq {
        add: None,
        remove: Some(name.into()),
        mode: None,
    }
}

fn set_mode(mode: &str) -> ClientsReq {
    ClientsReq {
        add: None,
        remove: None,
        mode: Some(mode.into()),
    }
}

#[test]
fn client_keys_store_a_digest_only() {
    let sc = populated();
    let cand = clients_with(&sc, "uma", &add_client(" harness "), "npk_secret").unwrap();
    let c = cand.client_auth.keys.last().unwrap();
    assert_eq!(c.name, "harness");
    assert_eq!(c.owner, "uma");
    assert_eq!(c.last4, "cret");
    assert_eq!(c.secret_sha256, sha256_hex("npk_secret"));
    assert_eq!(
        c.secret_sha256,
        "da19b939cf158bfb03817781827e2b13f7eee655e70515dca70e49e66accf964"
    );

    match clients(&sc, "uma", &add_client("x")) {
        ClientsStep::Commit(cand, Some(secret)) => {
            let c = cand.client_auth.keys.last().unwrap();
            assert_eq!(c.secret_sha256, sha256_hex(&secret));
            assert!(secret.ends_with(&c.last4));
            assert!(secret.starts_with("npk_"));
        }
        other => panic!("{other:?}"),
    }
}

#[test]
fn client_keys_are_revoked_by_owners_and_administrators() {
    let sc = populated();
    let refused = |who: &str, req: &ClientsReq| match clients(&sc, who, req) {
        ClientsStep::Refuse(e) => (e.status, e.error.error.code, e.error.error.message),
        other => panic!("{other:?}"),
    };
    assert_eq!(
        refused("uma", &remove_client("c-ada")),
        says(
            403,
            "forbidden",
            "you can only revoke your own client keys"
        )
    );
    assert_eq!(
        refused("uma", &remove_client("none")),
        says(400, "invalid_config", "no such client key")
    );
    assert_eq!(
        refused("uma", &set_mode("open")),
        says(
            403,
            "forbidden",
            "changing the API access mode requires an admin"
        )
    );
    assert_eq!(
        refused("ada", &set_mode("shut")),
        says(
            400,
            "invalid_config",
            "mode must be \"open\" or \"keyed\""
        )
    );
    let mut two = set_mode("open");
    two.remove = Some("c-uma".into());
    assert_eq!(
        refused("ada", &two),
        says(
            400,
            "invalid_config",
            "send exactly one of add / remove / mode"
        )
    );
    assert_eq!(refused("ghost", &add_client("x")).0, 401);
    match clients(&sc, "uma", &remove_client("c-uma")) {
        ClientsStep::Commit(cand, None) => assert_eq!(cand.client_auth.keys.len(), 1),
        other => panic!("{other:?}"),
    }
    match clients(&sc, "ada", &set_mode("open")) {
        ClientsStep::Commit(cand, None) => assert_eq!(cand.client_auth.mode, Mode::Open),
        other => panic!("{other:?}"),
    }
    match clients(&sc, "root", &set_mode("keyed")) {
        ClientsStep::Commit(cand, None) => assert_eq!(cand.client_auth.mode, Mode::Keyed),
        other => panic!("{other:?}"),
    }
}

fn limits_req() -> LimitsReq {
    LimitsReq {
        max_wait_secs: 1,
        heartbeat_secs: 2,
        models_ttl_secs: 3,
        stream_idle_secs: 4,
        request_timeout_secs: 5,
        max_inflight: 6,
        strict_passthrough: true,
    }
}

#[test]
fn sections_are_the_administrators() {
    let sc = populated();
    let url = UpstreamReq {
        base_url: "u".into(),
    };
    assert_eq!(
        refusal(upstream(&sc, "uma", &url)),
        says(403, "forbidden", "server settings require an admin")
    );
    assert_eq!(
        refusal(limits(&sc, "ghost", &limits_req())),
        says(401, "unauthorized", "your user no longer exists")
    );
    let target = FiniteFloat::from_bits(99.9f64.to_bits()).unwrap();
    let h = HistoryReq {
        days: 60,
        default_window_days: 14,
        slo_target_percent: target,
    };
    assert_eq!(refusal(history(&sc, "uma", &h)).0, 403);
    let cand = history(&sc, "ada", &h).unwrap();
    assert_eq!(cand.history.days, 60);
    assert_eq!(cand.dashboard.default_window_days, 14);
    assert_eq!(f64::from_bits(cand.dashboard.slo_target_percent.bits()), 99.9);

    let cand = limits(&sc, "root", &limits_req()).unwrap();
    assert_eq!(cand.limits.max_wait_secs, 1);
    assert_eq!(cand.limits.heartbeat_secs, 2);
    assert_eq!(cand.limits.models_ttl_secs, 3);
    assert_eq!(cand.limits.stream_idle_secs, 4);
    assert_eq!(cand.limits.request_timeout_secs, 5);
    assert_eq!(cand.limits.max_inflight, 6);
    assert!(cand.limits.strict_passthrough);

    let w = WebSearchReq {
        base_url: "https://s.example".into(),
        format: SearchFormat::Json,
        max_results: 5,
        timeout_secs: 10,
    };
    assert_eq!(refusal(web_search_cfg(&sc, "uma", &w)).0, 403);
    let cand = web_search_cfg(&sc, "ada", &w).unwrap();
    assert_eq!(cand.web_search.base_url, "https://s.example");
    assert_eq!(cand.web_search.format, SearchFormat::Json);
    assert_eq!(
        (cand.web_search.max_results, cand.web_search.timeout_secs),
        (5, 10)
    );
}

#[test]
fn upstream_urls_are_tidied() {
    let sc = populated();
    let cand = upstream(
        &sc,
        "ada",
        &UpstreamReq {
            base_url: "  https://nim.example/v2//\n".into(),
        },
    )
    .unwrap();
    assert_eq!(cand.upstream.base_url, "https://nim.example/v2");
}

#[test]
fn the_server_form_is_one_change() {
    let sc = populated();
    let mut req = ServerReq {
        base_url: "https://up.example/".into(),
        limits: limits_req(),
    };
    let (cand, changed) = server(&sc, "ada", &req).unwrap();
    assert!(!changed, "the same upstream, spelled with a slash");
    assert_eq!(cand.limits.max_inflight, 6);
    req.base_url = "https://other.example".into();
    let (cand, changed) = server(&sc, "ada", &req).unwrap();
    assert!(changed);
    assert_eq!(cand.upstream.base_url, "https://other.example");
    assert_eq!(refusal(server(&sc, "uma", &req)).0, 403);
}

#[test]
fn governor_fields_are_independent() {
    let mut sc = populated();
    sc.governor.overrides.insert("m1".into(), 1);
    let req = GovernorReq {
        enabled: None,
        set_override: Some(GovernorOverride {
            model: "m2".into(),
            cap: 2,
        }),
        remove_override: Some("m1".into()),
    };
    let cand = governor_cfg(&sc, "ada", &req).unwrap();
    assert!(!cand.governor.enabled);
    assert_eq!(print(&cand.governor.overrides.to_json()), r#"{"m2":2}"#);
    // A pin that is set and dropped in one request is gone.
    let both = GovernorReq {
        enabled: Some(true),
        set_override: Some(GovernorOverride {
            model: "m3".into(),
            cap: 3,
        }),
        remove_override: Some("m3".into()),
    };
    let cand = governor_cfg(&sc, "ada", &both).unwrap();
    assert!(cand.governor.enabled);
    assert_eq!(print(&cand.governor.overrides.to_json()), r#"{"m1":1}"#);
    assert_eq!(refusal(governor_cfg(&sc, "uma", &both)).0, 403);
}

#[test]
fn users_are_created_reset_and_promoted() {
    let sc = populated();
    let cand = users(&sc, "ada", &add_user(" new ", "long enough", "user"), "hash").unwrap();
    let u = cand.users.last().unwrap();
    assert_eq!(
        (u.username.as_str(), u.password_hash.as_str(), u.role),
        ("new", "hash", Role::User)
    );
    assert!(u.locale.is_none());
    let cand = users(&sc, "ada", &reset("uma", "long enough"), "fresh").unwrap();
    assert_eq!(cand.users[2].password_hash, "fresh");
    let cand = users(&sc, "root", &set_role("uma", "admin"), "").unwrap();
    assert_eq!(cand.users[2].role, Role::Admin);
    assert_eq!(
        refusal(users(&sc, "ada", &add_user("x", "long enough", "superuser"), "h")),
        says(400, "invalid_config", "role must be \"admin\" or \"user\"")
    );
    assert_eq!(
        refusal(users(&sc, "ada", &set_role("uma", "king"), "")),
        says(400, "invalid_config", "role must be \"admin\" or \"user\"")
    );
    for req in [
        set_role("ghost", "user"),
        reset("ghost", "long enough"),
        remove_user("ghost"),
    ] {
        assert_eq!(
            refusal(users(&sc, "ada", &req, "h")),
            says(400, "invalid_config", "no such user")
        );
    }
}

#[test]
fn authority_is_looked_up_again_after_hashing() {
    let mut sc = populated();
    let req = reset("uma", "long enough");
    assert!(authorize_users(&sc, "ada", &req).is_ok());
    sc.users[1].role = Role::User;
    assert_eq!(
        refusal(users(&sc, "ada", &req, "h")),
        says(403, "forbidden", "user management requires an admin")
    );
    sc.users.remove(1);
    assert_eq!(refusal(users(&sc, "ada", &req, "h")).0, 401);
}

#[test]
fn user_requests_say_one_thing() {
    let sc = populated();
    let mut two = add_user("x", "long enough", "user");
    two.remove = Some("uma".into());
    for req in [no_users_req(), two] {
        assert_eq!(
            refusal(users(&sc, "ada", &req, "h")),
            says(
                400,
                "invalid_config",
                "send exactly one of add / remove / reset_password / set_role"
            )
        );
    }
    // No password to hash where neither add nor reset stands alone.
    let mut both = add_user("x", "short", "user");
    both.reset_password = reset("uma", "short").reset_password;
    assert!(authorize_users(&sc, "ada", &both).unwrap().is_none());
    assert!(authorize_users(&sc, "ada", &remove_user("uma"))
        .unwrap()
        .is_none());
}

#[test]
fn the_superuser_is_inviolable() {
    let sc = populated();
    assert_eq!(
        refusal(users(&sc, "ada", &remove_user("root"), "")),
        says(403, "forbidden", "the superuser can never be deleted")
    );
    assert_eq!(
        refusal(users(&sc, "ada", &reset("root", "long enough"), "h")),
        says(
            403,
            "forbidden",
            "the superuser's password can only be changed by the superuser (Account settings)"
        )
    );
    assert_eq!(
        refusal(users(&sc, "root", &set_role("root", "user"), "")),
        says(403, "forbidden", "the superuser's role is immutable")
    );
    for req in [
        remove_user("uma"),
        reset("ada", "long enough"),
        set_role("ada", "user"),
        add_user("z", "long enough", "admin"),
    ] {
        let cand = users(&sc, "root", &req, "h").unwrap();
        let su = cand.superuser().expect("superuser");
        assert_eq!(
            (su.username.as_str(), su.password_hash.as_str()),
            ("root", "h-root")
        );
    }
}

#[test]
fn a_deleted_user_takes_their_keys_along() {
    let sc = populated();
    let cand = users(&sc, "ada", &remove_user("uma"), "").unwrap();
    assert_eq!(names(&cand), ["root", "ada"]);
    let owners: Vec<&str> = cand
        .upstream
        .nim_keys
        .iter()
        .map(|k| k.owner.as_str())
        .collect();
    assert_eq!(owners, ["root", "ada"]);
    assert_eq!(cand.client_auth.keys.len(), 1);
    assert_eq!(cand.client_auth.keys[0].owner, "ada");
}

#[test]
fn a_claim_makes_the_superuser() {
    let mut sc = StoredConfig::default();
    sc.upstream.nim_keys.push(nim("orphan", "gone", true));
    sc.client_auth.keys.push(client("c", "gone"));
    sc.users.push(user("left", "h", Role::User));
    let mut req = setup_req();
    req.create_client_key = Some(CreateClientKey {
        name: " first ".into(),
    });
    let cand = claim_with(&sc, &req, "hash", "npk_abcd").unwrap();
    assert_eq!(names(&cand), ["root"]);
    assert_eq!(cand.users[0].role, Role::Superuser);
    assert_eq!(cand.users[0].password_hash, "hash");
    assert_eq!(cand.upstream.base_url, "https://nim.example");
    let keys: Vec<(&str, usize)> = cand
        .upstream
        .nim_keys
        .iter()
        .map(|k| (k.key.as_str(), k.rpm))
        .collect();
    assert_eq!(keys, [("orphan", 40), ("nvapi-1", 40), ("nvapi-2", 7)]);
    assert!(cand.upstream.nim_keys.iter().all(|k| k.owner == "root"));
    assert!(cand.client_auth.keys.iter().all(|c| c.owner == "root"));
    assert_eq!(cand.client_auth.keys[1].name, "first");
    assert_eq!(cand.client_auth.keys[1].last4, "abcd");

    // Nobody claims it twice.
    assert_eq!(
        refusal(claim_with(&cand, &setup_req(), "h2", "")),
        says(409, "setup_complete", "setup is already complete")
    );
    match claim(&cand, &setup_req(), "h2") {
        ClaimStep::Refuse(e) => assert_eq!(e.status, 409),
        other => panic!("{other:?}"),
    }
}

#[test]
fn short_passwords_are_never_stored() {
    let weak = says(400, "weak_password", "password must be at least 10 characters");
    let sc = populated();
    assert_eq!(
        refusal(users(&sc, "ada", &add_user("new", "123456789", "user"), "h")),
        weak
    );
    assert_eq!(refusal(users(&sc, "ada", &reset("uma", "123456789"), "h")), weak);
    // Authority still comes first.
    assert_eq!(refusal(users(&sc, "uma", &reset("ada", "1"), "h")).0, 403);
    let fresh = StoredConfig::default();
    let mut req = setup_req();
    req.password = "123456789".into();
    req.create_client_key = Some(CreateClientKey {
        name: "first".into(),
    });
    assert_eq!(refusal(claim_with(&fresh, &req, "h", "npk_abcd")), weak);
    match claim(&fresh, &req, "h") {
        ClaimStep::Refuse(e) => assert_eq!(refusal::<()>(Err(e)), weak),
        other => panic!("{other:?}"),
    }
    // Ten characters are enough, whatever they take in bytes.
    req.password = "\u{e9}".repeat(10);
    assert!(claim_with(&fresh, &req, "h", "npk_abcd").is_ok());
}

#[test]
fn a_claim_mints_a_client_key_when_asked() {
    let sc = StoredConfig::default();
    let mut req = setup_req();
    match claim(&sc, &req, "hash") {
        ClaimStep::Commit(cand, None) => assert!(cand.client_auth.keys.is_empty()),
        other => panic!("{other:?}"),
    }
    req.base_url = None;
    req.create_client_key = Some(CreateClientKey {
        name: " first ".into(),
    });
    match claim(&sc, &req, "hash") {
        ClaimStep::Commit(cand, Some(minted)) => {
            assert_eq!(minted.name, "first");
            assert_eq!(
                cand.client_auth.keys[0].secret_sha256,
                sha256_hex(&minted.secret)
            );
            assert_eq!(cand.upstream.base_url, sc.upstream.base_url);
            match claim_answer(false, Some(minted), Ok(Committed { retention: None })) {
                ClaimAnswer::Body(body) => {
                    let text = print(&body.to_json());
                    assert!(text.starts_with(r#"{"client_key":{"name":"first","secret":"npk_"#));
                }
                other => panic!("{other:?}"),
            }
        }
        other => panic!("{other:?}"),
    }
}

#[test]
fn claims_are_answered_by_kind() {
    assert!(matches!(
        claim_answer(true, None, Ok(Committed { retention: None })),
        ClaimAnswer::SeeOther
    ));
    match claim_answer(true, None, Err("bad store".into())) {
        ClaimAnswer::Refuse(e) => {
            assert_eq!(e.error.error.code, "invalid_config");
            assert_eq!(e.error.error.message, "bad store");
        }
        other => panic!("{other:?}"),
    }
    assert!(is_form(Some("application/x-www-form-urlencoded; charset=utf-8")));
    assert!(!is_form(Some("application/json")));
    assert!(!is_form(None));
    assert_eq!(invalid_form().error.error.code, "invalid_form");
}

#[test]
fn a_native_form_is_a_small_claim() {
    let form = |key: Option<&str>| NoScriptSetupForm {
        username: "root".into(),
        password: "pw".into(),
        base_url: None,
        nim_key: key.map(str::to_owned),
        nim_rpm: Some(12),
    };
    let req = form(Some(" k ")).into_request();
    assert_eq!(req.nim_keys.len(), 1);
    assert_eq!((req.nim_keys[0].key.as_str(), req.nim_keys[0].rpm), (" k ", Some(12)));
    assert!(req.create_client_key.is_none());
    assert!(form(Some("  ")).into_request().nim_keys.is_empty());
    assert!(form(None).into_request().nim_keys.is_empty());
}

#[test]
fn probes_ask_the_right_upstream() {
    let sc = populated();
    let mut req = ValidateKeyReq {
        key: " nvapi ".into(),
        base_url: Some("http://self-hosted/ ".into()),
    };
    assert_eq!(setup_target(&sc, &req), "http://self-hosted");
    assert_eq!(configured_target(&sc), "https://up.example");
    assert_eq!(probed_key(&req), "nvapi");
    req.base_url = None;
    assert_eq!(setup_target(&sc, &req), "https://up.example");
    let refused = refuse_base_url("link-local");
    assert_eq!(
        (refused.status, refused.error.error.code.as_str()),
        (400, "invalid_base_url")
    );
    assert_eq!(refused.error.error.message, "link-local");
}

#[test]
fn probes_read_the_catalog() {
    let answered =
        |status, body: &str| probe_key(&CatalogReply::Answered(status, Ok(body.as_bytes().to_vec())));
    assert_eq!(answered(200, r#"{"data":[{},{},{}]}"#), Ok(3));
    assert_eq!(answered(200, r#"{"data":7}"#), Ok(0));
    assert_eq!(answered(200, "[1]"), Ok(0));
    assert_eq!(
        answered(401, ""),
        Err("upstream rejected the key (401 Unauthorized)".into())
    );
    assert_eq!(
        probe_key(&CatalogReply::Unreachable("refused".into())),
        Err("cannot reach upstream: refused".into())
    );
    assert_eq!(
        probe_key(&CatalogReply::Answered(200, Err("cut off".into()))),
        Err("upstream sent an unreadable model list: cut off".into())
    );
    let complaint = serde_json::from_slice::<serde_json::Value>(b"{nope")
        .unwrap_err()
        .to_string();
    assert_eq!(
        answered(200, "{nope"),
        Err(format!("upstream sent an unreadable model list: {complaint}"))
    );
}

fn fields(text: &str) -> Result<AccountBody, BodyFault> {
    // Members in the order of the text, repeated ones included.
    let mut f = AccountFields::new();
    for pair in text.split('&').filter(|p| !p.is_empty()) {
        let (name, value) = pair.split_once('=').unwrap();
        f.take(name, parse(value).expect("value"))?;
    }
    f.finish()
}

#[test]
fn account_bodies_are_sorted() {
    match fields(r#"current_password="a"&new_password="b"&locale=1&zzz=2"#) {
        Ok(AccountBody::Password(p)) => {
            assert_eq!((p.current_password.as_str(), p.new_password.as_str()), ("a", "b"))
        }
        other => panic!("{other:?}"),
    }
    assert!(matches!(
        fields(r#"action="locale"&locale=null"#),
        Ok(AccountBody::Locale(None))
    ));
    assert!(matches!(
        fields(r#"locale="fr-FR"&action="locale""#),
        Ok(AccountBody::Locale(Some(l))) if l == "fr-FR"
    ));
    assert!(matches!(
        fields(r#"action="locale"&locale=7"#),
        Ok(AccountBody::InvalidLocale)
    ));
    for body in [
        r#"action="locale""#,
        r#"locale="x""#,
        r#"action="theme"&locale="x""#,
        r#"action=null&locale="x""#,
        r#"action="locale"&locale="x"&extra=1"#,
    ] {
        assert!(matches!(fields(body), Ok(AccountBody::InvalidAction)), "{body}");
    }
}

#[test]
fn account_bodies_that_are_none() {
    let fault = |text: &str| fields(text).expect_err("a fault");
    assert_eq!(fault(""), BodyFault::Missing(AccountField::CurrentPassword));
    assert_eq!(
        fault("zzz=1"),
        BodyFault::Missing(AccountField::CurrentPassword)
    );
    assert_eq!(
        fault(r#"new_password="x""#),
        BodyFault::Missing(AccountField::CurrentPassword)
    );
    assert_eq!(
        fault(r#"current_password="x""#),
        BodyFault::Missing(AccountField::NewPassword)
    );
    assert_eq!(
        fault("current_password=1"),
        BodyFault::NotText(AccountField::CurrentPassword)
    );
    assert_eq!(
        fault("new_password=null"),
        BodyFault::NotText(AccountField::NewPassword)
    );
    for (name, field) in [
        ("current_password", AccountField::CurrentPassword),
        ("new_password", AccountField::NewPassword),
        ("action", AccountField::Action),
        ("locale", AccountField::Locale),
    ] {
        assert_eq!(
            fault(&format!(r#"{name}="x"&{name}="x""#)),
            BodyFault::Duplicate(field)
        );
    }
}

#[test]
fn account_requests_are_opened() {
    let refused = |body| refusal(account_open(body));
    assert_eq!(
        refused(AccountBody::InvalidAction),
        says(400, "invalid_action", "account action must be locale")
    );
    assert_eq!(
        refused(AccountBody::InvalidLocale),
        says(400, "invalid_locale", "locale is not valid")
    );
    assert!(matches!(
        account_open(AccountBody::Locale(None)),
        Ok(AccountWork::Locale(None))
    ));
}

#[test]
fn locales_are_set_and_cleared() {
    let sc = populated();
    let cand = own_locale(&sc, "uma", Ok(Some("fr-FR".into()))).unwrap();
    assert_eq!(cand.users[2].locale.as_deref(), Some("fr-FR"));
    let cand = own_locale(&cand, "uma", Ok(None)).unwrap();
    assert!(cand.users[2].locale.is_none());
    assert_eq!(refusal(own_locale(&sc, "ghost", Ok(None))).0, 401);
    assert_eq!(
        refusal(own_locale(&sc, "uma", Err(LocaleError::Invalid))),
        says(400, "invalid_locale", "locale is not valid")
    );
    assert_eq!(
        refusal(own_locale(
            &sc,
            "uma",
            Err(LocaleError::NotInstalled("xx".into()))
        )),
        says(400, "locale_not_installed", "locale xx is not installed")
    );
    let cand = server_locale(&sc, "ada", Ok("fr-FR".into())).unwrap();
    assert_eq!(cand.default_locale, "fr-FR");
    assert_eq!(
        refusal(server_locale(&sc, "uma", Ok("fr-FR".into()))),
        says(403, "forbidden", "server settings require an admin")
    );
    assert_eq!(
        refusal(server_locale(&sc, "uma", Err(LocaleError::Invalid))).1,
        "invalid_locale"
    );
}

fn password_req(new: &str) -> AccountPasswordReq {
    AccountPasswordReq {
        current_password: "current".into(),
        new_password: new.into(),
    }
}

#[test]
fn own_passwords_change_only_when_verified() {
    let sc = populated();
    assert_eq!(
        refusal(begin_password_change(&sc, "uma", &password_req("short"))).1,
        "weak_password"
    );
    assert_eq!(
        refusal(begin_password_change(&sc, "ghost", &password_req("long enough"))).0,
        401
    );
    let ticket = begin_password_change(&sc, "uma", &password_req("long enough")).unwrap();
    assert_eq!(ticket.current_password(), "current");
    assert_eq!(ticket.stored_hash(), "h-uma");
    assert_eq!(
        refusal(judge_password(ticket, false)),
        says(403, "wrong_password", "current password is incorrect")
    );
    let ticket = begin_password_change(&sc, "uma", &password_req("long enough")).unwrap();
    let verified = judge_password(ticket, true).unwrap();
    assert_eq!(verified.ticket().password(), "long enough");
    let cand = finish_password_change(&sc, "uma", &verified, "fresh").unwrap();
    assert_eq!(cand.users[2].password_hash, "fresh");
    assert_eq!(cand.users[1].password_hash, "h-ada");

    // A reset that landed in between wins.
    let reset_store = users(&sc, "ada", &reset("uma", "long enough"), "by-admin").unwrap();
    assert_eq!(
        refusal(finish_password_change(&reset_store, "uma", &verified, "fresh")),
        says(
            409,
            "password_changed",
            "your password was changed while this request was in flight; log in again"
        )
    );
    let deleted = users(&sc, "ada", &remove_user("uma"), "").unwrap();
    assert_eq!(
        refusal(finish_password_change(&deleted, "uma", &verified, "fresh")).0,
        401
    );
}

fn overview(sc: &StoredConfig, who: &str) -> Result<nim_proxy::api::ConfigResponse, Refused> {
    let lane = |key: &str, in_window, cooldown_ms| LaneStat {
        key: key.into(),
        in_window,
        cooldown_ms,
    };
    api_config(
        sc,
        who,
        &vec![lane("nvapi-root", 3, 0), lane("nvapi-ada", 1, 250)],
        PoolSummary {
            capacity_rpm: 80,
            enabled: 2,
        },
        &HistoryStatus {
            available_from: Some(5),
            compaction_pending: true,
            file_bytes: 9,
            persistence: "ok".into(),
        },
    )
}

#[test]
fn administrators_see_everything() {
    let mut sc = populated();
    sc.history.days = 30;
    let c = overview(&sc, "ada").unwrap();
    assert_eq!(c.role, Role::Admin);
    assert_eq!(c.nim_keys.len(), 3);
    let rows: Vec<(Option<usize>, Option<usize>, Option<u64>, bool)> = c
        .nim_keys
        .iter()
        .map(|k| (k.lane, k.in_window, k.cooldown_ms, k.guarded))
        .collect();
    assert_eq!(
        rows,
        [
            (Some(0), Some(3), Some(0), true),
            (Some(1), Some(1), Some(250), false),
            (None, None, None, false),
        ]
    );
    assert_eq!(c.nim_keys[0].fingerprint, fingerprint("nvapi-root"));
    assert_eq!(c.nim_keys[0].last4, "root");
    assert_eq!(c.client_keys.len(), 2);
    let server = c.server.expect("server section");
    assert_eq!(server.base_url, "https://up.example");
    assert_eq!(
        (server.history.days, server.history.available_from, server.history.file_bytes),
        (30, Some(5), 9)
    );
    let users = c.users.expect("users section");
    let counts: Vec<(&str, usize, usize)> = users
        .iter()
        .map(|u| (u.username.as_str(), u.nim_keys, u.client_keys))
        .collect();
    assert_eq!(counts, [("root", 1, 0), ("ada", 1, 1), ("uma", 1, 1)]);
}

#[test]
fn users_see_their_own() {
    let sc = populated();
    let c = overview(&sc, "uma").unwrap();
    assert!(c.server.is_none() && c.users.is_none());
    assert_eq!(c.nim_keys.len(), 1);
    assert_eq!(c.nim_keys[0].owner, "uma");
    assert_eq!(c.client_keys.len(), 1);
    assert_eq!(c.client_keys[0].owner, "uma");
    assert_eq!(c.pool.capacity_rpm, 80);
    let text = print(&c.to_json());
    assert!(!text.contains("\"server\"") && !text.contains("\"users\""), "{text}");
    assert!(!text.contains("nvapi-"), "no key is served back: {text}");
    assert_eq!(
        refusal(overview(&sc, "ghost")),
        says(401, "unauthorized", "your user no longer exists")
    );
}

#[test]
fn the_padlock_is_on_the_only_enabled_key() {
    let mut sc = populated();
    sc.upstream.nim_keys.push(nim("second", "root", true));
    let c = overview(&sc, "root").unwrap();
    assert!(c.nim_keys.iter().all(|k| !k.guarded));
    sc.upstream.nim_keys[0].enabled = false;
    let c = overview(&sc, "root").unwrap();
    let guarded: Vec<bool> = c.nim_keys.iter().map(|k| k.guarded).collect();
    assert_eq!(guarded, [false, false, false, true]);
}

#[test]
fn the_last_lane_of_a_key_counts() {
    let sc = populated();
    let lanes = vec![
        LaneStat {
            key: "nvapi-root".into(),
            in_window: 1,
            cooldown_ms: 1,
        },
        LaneStat {
            key: "nvapi-root".into(),
            in_window: 2,
            cooldown_ms: 2,
        },
    ];
    let c = api_config(
        &sc,
        "root",
        &lanes,
        PoolSummary {
            capacity_rpm: 0,
            enabled: 2,
        },
        &HistoryStatus {
            available_from: None,
            compaction_pending: false,
            file_bytes: 0,
            persistence: "ok".into(),
        },
    )
    .unwrap();
    assert_eq!((c.nim_keys[0].lane, c.nim_keys[0].in_window), (Some(1), Some(2)));
}

#[test]
fn overrides_give_back_the_cap_that_was_pinned() {
    let mut overrides = Overrides::new();
    assert_eq!(overrides.get("a/b"), None);
    overrides.insert("a/b".into(), 4);
    overrides.insert("c/d".into(), 7);
    overrides.insert("a/b".into(), 9);
    assert_eq!(overrides.get("a/b"), Some(9));
    assert_eq!(overrides.get("c/d"), Some(7));
    overrides.remove("a/b");
    assert_eq!(overrides.get("a/b"), None);
    assert_eq!(overrides.get("c/d"), Some(7));
}

#[test]
fn every_refusal_names_the_proxy() {
    let sc = populated();
    let refusals = [
        throttled(),
        stale_session(),
        invalid_form(),
        refuse_base_url("why"),
        users(&sc, "uma", &remove_user("ada"), "").err().unwrap(),
        own_locale(&sc, "uma", Err(LocaleError::Invalid)).err().unwrap(),
    ];
    for r in refusals {
        let text = print(&r.error.to_json());
        assert!(text.ends_with(r#","type":"proxy_error"}}"#), "{text}");
    }
}
