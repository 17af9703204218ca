use immich_extended::activity::{activity_stream, ActivityBus, ActivityKind, StreamQuery};
use immich_extended::auth::{
    authenticate, check_callback_query, check_handshake, cleared_session_cookie, handshake_expires_at,
    login_outcome, me_outcome, oidc_identity, session_cookie, AuthError, AuthenticatedUser, CallbackQuery,
    OidcRejection, UserId, UserResponse, HANDSHAKE_TTL_SECONDS, SESSION_COOKIE_MAX_AGE_SECONDS,
};
use immich_extended::engine_cycle::{find_managed_album, target_step, TargetStep};
use immich_extended::scheduler::{TaskAction, TaskRegistry};
use immich_extended::crypto::{MasterKey, MasterKeyError, KEY_LEN, MASTER_KEY_ENV};
use immich_extended::immich::{me_album, normalize_base_url, ImmichAlbumSummary, ValidationError};
use immich_extended::keys::{
    key_info_outcome, me_person, stored_key_info, ImmichPerson, ImmichUserInfo, KeyInfoError,
    KeyInfoResponse,
};
use immich_extended::onboarding::{may_initialize, setup_state};
use immich_extended::password::{hash_password, verify_password, PasswordError};
use immich_extended::rules_api::{
    decision_item, decisions_response, run_item, runs_response, DecisionRow, RuleRunRow,
};
use immich_extended::session::SessionConfig;
use immich_extended::{health_response, VERSION};

// ---- password ----

#[test]
fn hash_then_verify_succeeds() {
    let hash = hash_password("correct horse battery staple").unwrap();
    assert!(verify_password("correct horse battery staple", &hash).unwrap());
}

#[test]
fn hashing_same_plaintext_yields_distinct_hashes() {
    let a = hash_password("hunter2").unwrap();
    let b = hash_password("hunter2").unwrap();
    assert_ne!(a, b, "salt randomness should produce different hashes");
    assert!(verify_password("hunter2", &a).unwrap());
    assert!(verify_password("hunter2", &b).unwrap());
}

#[test]
fn wrong_password_returns_ok_false() {
    let hash = hash_password("hunter2").unwrap();
    let result = verify_password("hunter3", &hash).unwrap();
    assert!(!result, "wrong password must be Ok(false), never Err");
}

#[test]
fn verifying_against_malformed_hash_errors() {
    let result = verify_password("anything", "not-a-phc-string");
    assert!(matches!(result, Err(PasswordError::MalformedHash(_))));
}

#[test]
fn empty_password_round_trips() {
    let hash = hash_password("").unwrap();
    assert!(verify_password("", &hash).unwrap());
    assert!(!verify_password("nonempty", &hash).unwrap());
}

#[test]
fn password_hash_is_an_argon2id_phc_string() {
    let hash = hash_password("pw").unwrap();
    assert!(hash.starts_with("$argon2id$v=19$"));
    assert_ne!(hash, "pw");
}

// ---- master key from its environment value ----

fn env_err(r: Result<MasterKey, MasterKeyError>) -> MasterKeyError {
    match r {
        Err(e) => e,
        Ok(_) => panic!("expected an error"),
    }
}

#[test]
fn from_env_accepts_64_hex_chars() {
    let hex_val = "0".repeat(64);
    let key = MasterKey::from_env_value(Some(&hex_val)).unwrap();
    let (nonce, ct) = key.encrypt(b"x").unwrap();
    assert_eq!(key.decrypt(&nonce, &ct).unwrap(), b"x");
}

#[test]
fn from_env_rejects_missing() {
    let err = env_err(MasterKey::from_env_value(None));
    assert!(matches!(err, MasterKeyError::EnvMissing(_)));
}

#[test]
fn from_env_rejects_short_hex() {
    let err = env_err(MasterKey::from_env_value(Some("deadbeef")));
    assert!(matches!(err, MasterKeyError::WrongLength { actual: 4, .. }));
}

#[test]
fn from_env_rejects_non_hex() {
    let err = env_err(MasterKey::from_env_value(Some(&"z".repeat(64))));
    assert!(matches!(err, MasterKeyError::EnvNotHex { .. }));
}

#[test]
fn from_env_rejects_empty() {
    let err = env_err(MasterKey::from_env_value(Some("")));
    assert!(matches!(err, MasterKeyError::WrongLength { actual: 0, .. }));
}

#[test]
fn from_env_missing_names_the_variable() {
    match MasterKey::from_env_value(None) {
        Err(MasterKeyError::EnvMissing(var)) => assert_eq!(var, MASTER_KEY_ENV),
        _ => panic!("expected EnvMissing"),
    }
    assert!(MasterKey::from_env_value(Some(&"ab".repeat(KEY_LEN))).is_ok());
}

// ---- health ----

#[test]
fn health_response_serializes_expected_shape() {
    let body = health_response(true);
    assert_eq!(body.status, "ok");
    assert_eq!(body.version, VERSION);
    assert_eq!(body.db, "ok");
}

#[test]
fn health_reports_a_down_database() {
    assert_eq!(health_response(false).db, "down");
    assert_eq!(health_response(false).status, "ok");
}

// ---- authentication ----

fn alice() -> UserResponse {
    UserResponse {
        user_id: "u-1".to_string(),
        email: "alice@example.com".to_string(),
        display_name: Some("Alice".to_string()),
    }
}

#[test]
fn authenticate_needs_a_session_user() {
    let user = authenticate(Some(UserId("u-1".to_string()))).unwrap();
    assert_eq!(user, AuthenticatedUser(UserId("u-1".to_string())));
    let err = authenticate(None).unwrap_err();
    assert_eq!(err, AuthError::Unauthorized);
    assert_eq!(err.slug(), "unauthorized");
    assert_eq!(err.status_code(), 401);
}

#[test]
fn login_refuses_unknown_user_and_wrong_password_alike() {
    assert_eq!(login_outcome(Some(alice()), true).unwrap(), alice());
    let wrong = login_outcome(Some(alice()), false).unwrap_err();
    let unknown = login_outcome(None, true).unwrap_err();
    assert_eq!(wrong, unknown);
    assert_eq!(wrong.slug(), "invalid_credentials");
    assert_eq!(wrong.status_code(), 401);
}

#[test]
fn me_of_a_deleted_user_is_unauthorized() {
    assert_eq!(me_outcome(Some(alice())).unwrap(), alice());
    assert_eq!(me_outcome(None).unwrap_err(), AuthError::Unauthorized);
}

#[test]
fn session_cookie_carries_the_configured_flags() {
    let cfg = SessionConfig { cookie_name: "iext".to_string(), cookie_secure: true };
    let c = session_cookie(&cfg, "abc".to_string());
    assert_eq!(c.name, "iext");
    assert_eq!(c.value, "abc");
    assert_eq!(c.path, "/");
    assert!(c.http_only && c.same_site_lax && c.secure);
    assert_eq!(c.max_age_seconds, 2_592_000);
    assert_eq!(SESSION_COOKIE_MAX_AGE_SECONDS, 30 * 86_400);
}

#[test]
fn logout_cookie_overwrites_the_session_cookie() {
    let cfg = SessionConfig { cookie_name: "dev".to_string(), cookie_secure: false };
    let set = session_cookie(&cfg, "sid".to_string());
    let cleared = cleared_session_cookie(&cfg);
    assert_eq!(cleared.name, set.name);
    assert_eq!(cleared.path, set.path);
    assert_eq!(cleared.http_only, set.http_only);
    assert_eq!(cleared.same_site_lax, set.same_site_lax);
    assert_eq!(cleared.secure, set.secure);
    assert!(!cleared.secure);
    assert_eq!(cleared.value, "");
    assert_eq!(cleared.max_age_seconds, 0);
}

// ---- OIDC callback ----

fn query(code: Option<&str>, state: Option<&str>, error: Option<&str>) -> CallbackQuery {
    CallbackQuery {
        code: code.map(str::to_string),
        state: state.map(str::to_string),
        error: error.map(str::to_string),
    }
}

#[test]
fn callback_query_checks_come_in_order() {
    let e = check_callback_query(query(None, None, Some("access_denied"))).unwrap_err();
    assert_eq!(e, OidcRejection::ProviderError { detail: "access_denied".to_string() });
    assert_eq!(e.slug(), "oidc_provider_error");
    assert_eq!(e.status_code(), 400);
    assert_eq!(check_callback_query(query(None, Some("s"), None)).unwrap_err(), OidcRejection::MissingCode);
    assert_eq!(check_callback_query(query(Some("c"), None, None)).unwrap_err(), OidcRejection::MissingState);
    assert_eq!(
        check_callback_query(query(Some("c"), Some("s"), None)).unwrap(),
        ("c".to_string(), "s".to_string())
    );
}

#[test]
fn handshake_expiry_and_checks() {
    assert_eq!(HANDSHAKE_TTL_SECONDS, 600);
    assert_eq!(handshake_expires_at(1_000), 1_600);
    assert_eq!(check_handshake(None, 10).unwrap_err(), OidcRejection::UnknownState);
    assert_eq!(check_handshake(Some(10), 10).unwrap_err(), OidcRejection::ExpiredState);
    assert_eq!(check_handshake(Some(10), 10).unwrap_err().slug(), "expired_state");
    assert!(check_handshake(Some(11), 10).is_ok());
    assert_eq!(OidcRejection::Disabled.status_code(), 404);
    assert_eq!(OidcRejection::Disabled.slug(), "oidc_disabled");
}

#[test]
fn oidc_identity_prefers_name_then_username() {
    let (email, name) = oidc_identity(
        Some("a@x".to_string()),
        Some("Alice".to_string()),
        Some("alice".to_string()),
    )
    .unwrap();
    assert_eq!(email, "a@x");
    assert_eq!(name.as_deref(), Some("Alice"));
    let (_, name) = oidc_identity(Some("a@x".to_string()), None, Some("alice".to_string())).unwrap();
    assert_eq!(name.as_deref(), Some("alice"));
    let err = oidc_identity(None, Some("Alice".to_string()), None).unwrap_err();
    assert_eq!(err.slug(), "missing_email_claim");
}

// ---- Immich key, people, albums ----

#[test]
fn base_url_is_normalised_by_the_url_parser() {
    assert_eq!(normalize_base_url("http://immich.local:2283").unwrap(), "http://immich.local:2283/");
    assert_eq!(normalize_base_url("HTTPS://Example.COM/api").unwrap(), "https://example.com/api");
    match normalize_base_url("not a url") {
        Err(ValidationError::InvalidBaseUrl(detail)) => assert!(!detail.is_empty()),
        other => panic!("expected InvalidBaseUrl, got {other:?}"),
    }
}

#[test]
fn key_info_answers_stored_rows_only() {
    let info = KeyInfoResponse {
        base_url: "http://i/".to_string(),
        immich_user_id: Some("im-1".to_string()),
        last_validated_at: 5,
    };
    assert_eq!(key_info_outcome(Some(info.clone())).unwrap(), info);
    assert_eq!(key_info_outcome(None).unwrap_err(), KeyInfoError::NoKey);
    let user = ImmichUserInfo { id: "im-2".to_string(), email: "b@x".to_string() };
    let stored = stored_key_info("http://j/".to_string(), user, 9);
    assert_eq!(stored.immich_user_id.as_deref(), Some("im-2"));
    assert_eq!(stored.base_url, "http://j/");
    assert_eq!(stored.last_validated_at, 9);
}

#[test]
fn me_person_points_at_the_thumbnail_proxy() {
    let p = me_person(ImmichPerson {
        id: "p-7".to_string(),
        name: "Zoé".to_string(),
        thumbnail_path: Some("/upload/x.jpg".to_string()),
    });
    assert_eq!(p.id, "p-7");
    assert_eq!(p.name, "Zoé");
    assert_eq!(p.thumbnail_url, "/api/v1/me/people/p-7/thumbnail");
}

#[test]
fn me_album_keeps_every_field() {
    let a = me_album(ImmichAlbumSummary {
        id: "a".to_string(),
        name: "Trip".to_string(),
        asset_count: 12,
        is_writable: true,
    });
    assert_eq!((a.id.as_str(), a.name.as_str(), a.asset_count, a.is_writable), ("a", "Trip", 12, true));
}

// ---- setup ----

#[test]
fn setup_is_needed_only_without_accounts() {
    let s = setup_state(0, true);
    assert!(s.needs_setup && s.oidc_enabled);
    assert!(!setup_state(2, false).needs_setup);
    assert!(may_initialize(0));
    assert!(!may_initialize(1));
}

// ---- listings ----

fn decision(asset: &str, reason: &str) -> DecisionRow {
    DecisionRow {
        rule_id: "r".to_string(),
        asset_id: asset.to_string(),
        decision: "skipped".to_string(),
        reason: reason.to_string(),
        run_id: Some("run-1".to_string()),
        decided_at: 42,
    }
}

#[test]
fn decisions_page_lists_rows_in_order_without_rule_id() {
    let rows = vec![decision("a1", "no_people"), decision("a2", "date_out_of_range")];
    let page = decisions_response(&rows, 7, 25, 0);
    assert_eq!(page.decisions.len(), 2);
    assert_eq!(page.decisions[0].asset_id, "a1");
    assert_eq!(page.decisions[1].reason, "date_out_of_range");
    assert_eq!(page.decisions[1].run_id.as_deref(), Some("run-1"));
    assert_eq!((page.total, page.limit, page.offset), (7, 25, 0));
    assert_eq!(decision_item(&rows[0]).decided_at, 42);
}

#[test]
fn runs_page_lists_rows_in_order() {
    let row = RuleRunRow {
        id: "run-9".to_string(),
        rule_id: "r".to_string(),
        started_at: 1,
        finished_at: None,
        assets_evaluated: 3,
        assets_added: 2,
        assets_skipped: 1,
        error_message: Some("boom".to_string()),
    };
    let page = runs_response(&vec![row.clone()], 1, 20, 0);
    assert_eq!(page.runs.len(), 1);
    assert_eq!(page.runs[0], run_item(&row));
    assert_eq!(page.runs[0].error_message.as_deref(), Some("boom"));
    assert_eq!(page.runs[0].finished_at, None);
    assert_eq!((page.total, page.limit, page.offset), (1, 20, 0));
}

// ---- activity feed ----

#[test]
fn activity_stream_answers_only_the_callers_new_events() {
    let mut bus = ActivityBus::new();
    bus.sweep_done("alice", 3, 10);
    bus.sweep_done("bob", 4, 10);
    bus.sweep_done("alice", 5, 10);
    let r = activity_stream(&bus, "alice", StreamQuery { after: 1 });
    assert_eq!(r.last_seq, 3);
    assert_eq!(r.events.len(), 1);
    assert_eq!(r.events[0].seq, 3);
    assert!(matches!(r.events[0].kind, ActivityKind::SweepDone { indexed: 5, .. }));
}

// ---- per-rule poll tasks ----

#[test]
fn rule_changes_start_and_stop_tasks() {
    let mut reg = TaskRegistry::new();
    assert_eq!(reg.running_count(), 0);
    assert_eq!(reg.rule_changed("r1", Some("active")), TaskAction::Spawn);
    assert!(reg.is_running("r1"));
    assert_eq!(reg.rule_changed("r1", Some("active")), TaskAction::Keep);
    assert_eq!(reg.running_count(), 1);
    assert_eq!(reg.rule_changed("r1", Some("paused")), TaskAction::Cancel);
    assert!(!reg.is_running("r1"));
    assert_eq!(reg.rule_changed("r1", None), TaskAction::Keep);
    assert_eq!(reg.rule_changed("r2", Some("archived")), TaskAction::Keep);
    assert_eq!(reg.running_count(), 0);
}

#[test]
fn start_spawns_each_active_rule_once() {
    let mut reg = TaskRegistry::new();
    assert_eq!(reg.rule_changed("a", Some("active")), TaskAction::Spawn);
    let spawned = reg.start(&vec!["a".to_string(), "b".to_string(), "b".to_string(), "c".to_string()]);
    assert_eq!(spawned, vec!["b".to_string(), "c".to_string()]);
    assert_eq!(reg.running_count(), 3);
    assert_eq!(reg.rule_changed("b", None), TaskAction::Cancel);
    let mut drained = reg.drain();
    drained.sort();
    assert_eq!(drained, vec!["a".to_string(), "c".to_string()]);
    assert_eq!(reg.running_count(), 0);
    assert!(!reg.is_running("a"));
}

// ---- managed target albums ----

#[test]
fn target_step_uses_stored_id_then_strategy() {
    assert_eq!(target_step("album-1", "managed"), TargetStep::Album("album-1".to_string()));
    assert_eq!(target_step("", "managed"), TargetStep::FindManaged);
    assert_eq!(target_step("", "existing"), TargetStep::NoAlbum);
}

#[test]
fn managed_album_is_the_first_writable_one_with_the_name() {
    let album = |id: &str, name: &str, w: bool| ImmichAlbumSummary {
        id: id.to_string(),
        name: name.to_string(),
        asset_count: 0,
        is_writable: w,
    };
    let albums = vec![
        album("x", "Kids", false),
        album("y", "Other", true),
        album("z", "Kids", true),
        album("w", "Kids", true),
    ];
    assert_eq!(find_managed_album(&albums, "Kids").as_deref(), Some("z"));
    assert_eq!(find_managed_album(&albums, "Nope"), None);
    assert_eq!(find_managed_album(&vec![album("x", "Kids", false)], "Kids"), None);
}

// ---- versions and typed errors ----

#[test]
fn version_matches_cargo_pkg_version() {
    assert_eq!(immich_extended::version(), "0.1.0");
    assert!(!immich_extended::version().is_empty());
}

#[test]
fn version_is_nonempty() {
    assert!(!immich_extended::version().is_empty());
}

#[test]
fn validation_error_unauthorized_is_typed() {
    let err = ValidationError::Unauthorized(401);
    assert!(matches!(err, ValidationError::Unauthorized(_)));
}
