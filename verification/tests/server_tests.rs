use chrono::{TimeZone, Utc};
use immich_extended::config::{check_data_dir, choose_database_url, default_database_url, ConfigError};
use immich_extended::crypto::{MasterKey, MasterKeyError, KEY_LEN, NONCE_LEN};
use immich_extended::engine_cycle::{
    album_fill_needed, asset_type_from_media, decision_columns, managed_name_from_column,
    managed_name_from_target, matched_ids, needs_person_count, snapshot_from_index, tally, CycleError,
    EventVerbosity, IndexedAsset,
};
use immich_extended::immich::{
    album_summary, check_status, is_album_writable_for, is_found_album_writable, next_people_page,
    next_search_page, search_page_budget, AlbumUser, ImmichAlbum, ImmichAsset, ImmichAssetType,
    ValidationError as ImmichError, MAX_PEOPLE_PAGES, MAX_SEARCH_PAGES,
};
use immich_extended::indexer::{
    advance_watermark, index_row, media_type_str, reconcile_gate, since_watermark, stale_ids, touched_ids,
    IndexerConfig,
};
use immich_extended::onboarding::{
    check_setup_request, classify_immich_fields, pasted_key_failure, stored_key_failure, ImmichFields,
};
use immich_extended::predicate::{AssetType, DecisionReason, PredicateOutcome};
use immich_extended::rules_api::{
    adopt_path_id, check_patch, create_poll_interval, page_window, parse_reason_filter, parse_status_str,
    patched_status, rule_columns, rule_summary, validate_poll_interval, validation_error_status,
    RuleApiError, UpdateRuleRequest, DECISIONS_DEFAULT_LIMIT, DECISIONS_MAX_LIMIT, RUNS_DEFAULT_LIMIT,
};
use immich_extended::scheduler::{
    interval_for, parse_safety_sweep_interval, SchedulerConfig, TickInterval,
    DEFAULT_SAFETY_SWEEP_INTERVAL_SECONDS,
};
use immich_extended::match_expr::MatchExpr;
use immich_extended::schema::{FloatBits, Rule, RuleStatus, TargetAlbum, Timestamp};
use immich_extended::session::{
    cookie_secure_from, session_expiry, touch_outcome, SessionConfig, SessionId, SessionTouch,
    SESSION_TTL_SECONDS,
};
use immich_extended::validator::{ResolverError, ValidationError};
use immich_extended::version;

// ---- immich ----

#[test]
fn immich_asset_type_normalizes_known_strings() {
    assert_eq!(ImmichAssetType::from_str("IMAGE"), ImmichAssetType::Image);
    assert_eq!(ImmichAssetType::from_str("VIDEO"), ImmichAssetType::Video);
    assert_eq!(ImmichAssetType::from_str(""), ImmichAssetType::Other);
    assert_eq!(ImmichAssetType::from_str("AUDIO"), ImmichAssetType::Other);
}

#[test]
fn is_album_writable_for_recognizes_owner() {
    let album = ImmichAlbum { id: "a1".into(), owner_id: "user-1".into(), album_users: vec![] };
    assert!(is_album_writable_for(&album, "user-1"));
    assert!(!is_album_writable_for(&album, "user-2"));
}

#[test]
fn is_album_writable_for_recognizes_editor_role() {
    let album = ImmichAlbum {
        id: "a1".into(),
        owner_id: "owner".into(),
        album_users: vec![
            AlbumUser { user_id: "editor".into(), role: "editor".into() },
            AlbumUser { user_id: "viewer".into(), role: "viewer".into() },
        ],
    };
    assert!(is_album_writable_for(&album, "editor"));
    assert!(!is_album_writable_for(&album, "viewer"));
    assert!(!is_album_writable_for(&album, "stranger"));
}

#[test]
fn missing_album_is_not_writable_and_summary_carries_writability() {
    assert!(!is_found_album_writable(&None, "owner"));
    let album = ImmichAlbum { id: "a1".into(), owner_id: "owner".into(), album_users: vec![] };
    let summary = album_summary(&album, "Trips".into(), 12, "owner");
    assert_eq!(summary.id, "a1");
    assert_eq!(summary.name, "Trips");
    assert_eq!(summary.asset_count, 12);
    assert!(summary.is_writable);
    assert!(is_found_album_writable(&Some(album), "owner"));
}

#[test]
fn status_codes_read_as_the_client_expects() {
    assert_eq!(check_status(200, false), Ok(true));
    assert_eq!(check_status(204, true), Ok(true));
    assert_eq!(check_status(401, true), Err(ImmichError::Unauthorized(401)));
    assert_eq!(check_status(403, false), Err(ImmichError::Unauthorized(403)));
    assert_eq!(check_status(400, true), Ok(false));
    assert_eq!(check_status(404, true), Ok(false));
    assert_eq!(check_status(404, false), Err(ImmichError::Upstream { status: 404 }));
    assert_eq!(check_status(500, true), Err(ImmichError::Upstream { status: 500 }));
}

#[test]
fn paging_stops_at_the_end_or_the_ceiling() {
    assert_eq!(next_people_page(1, true), Some(2));
    assert_eq!(next_people_page(1, false), None);
    assert_eq!(next_people_page(MAX_PEOPLE_PAGES, true), None);
    assert_eq!(search_page_budget(0), 1);
    assert_eq!(search_page_budget(8), 8);
    assert_eq!(search_page_budget(10_000), MAX_SEARCH_PAGES);
    assert_eq!(next_search_page(Some("2")), Some(2));
    assert_eq!(next_search_page(Some("+7")), Some(7));
    assert_eq!(next_search_page(Some("")), None);
    assert_eq!(next_search_page(Some("x")), None);
    assert_eq!(next_search_page(Some("4294967296")), None);
    assert_eq!(next_search_page(Some("4294967295")), Some(u32::MAX));
    assert_eq!(next_search_page(None), None);
}

#[test]
fn lib_version_is_nonempty() {
    assert!(!version().is_empty());
}

// ---- engine cycle ----

#[test]
fn cycle_error_slugs_are_stable() {
    assert_eq!(CycleError::RuleNotFound("r".into()).slug(), "rule_not_found");
    assert_eq!(CycleError::NoApiKey("u".into()).slug(), "no_api_key");
    assert_eq!(CycleError::DecryptFailed.slug(), "decrypt_failed");
    assert_eq!(CycleError::InvalidBaseUrl("x".into()).slug(), "invalid_base_url");
    assert_eq!(CycleError::BadParsedPredicates("x".into()).slug(), "bad_parsed_predicates");
}

#[test]
fn cycle_error_slugs_carry_detail() {
    assert_eq!(CycleError::Immich("boom".into()).slug(), "immich_unreachable: boom");
    assert_eq!(CycleError::Yolo("oom".into()).slug(), "yolo_failed: oom");
    assert_eq!(CycleError::Io("disk".into()).slug(), "io_error: disk");
    assert_eq!(CycleError::Db("locked".into()).slug(), "db_error: locked");
    assert_eq!(CycleError::Decisions("gone".into()).slug(), "db_error: gone");
    assert_eq!(CycleError::ManagedAlbumNameMissing("r".into()).slug(), "managed_album_name_missing");
}

#[test]
fn asset_type_from_media_maps_domain() {
    assert_eq!(asset_type_from_media("photo"), AssetType::Photo);
    assert_eq!(asset_type_from_media("video"), AssetType::Video);
    assert_eq!(asset_type_from_media("other"), AssetType::Photo);
    assert_eq!(asset_type_from_media("whatever"), AssetType::Photo);
}

fn bits(x: f64) -> FloatBits {
    FloatBits { bits: x.to_bits() }
}

#[test]
fn snapshot_from_index_maps_fields() {
    let taken = Utc.with_ymd_and_hms(2025, 6, 1, 9, 0, 0).unwrap();
    let asset = IndexedAsset {
        asset_id: "a1".into(),
        filename: "a1.jpg".into(),
        asset_type: AssetType::Video,
        taken_at: Some(taken.timestamp()),
        gps: Some((bits(48.0), bits(2.0))),
        person_ids: vec!["p1".into()],
    };
    let snap = snapshot_from_index(&asset);
    assert_eq!(snap.id, "a1");
    assert_eq!(snap.asset_type, AssetType::Video);
    assert_eq!(snap.taken_at, Some(Timestamp { secs: taken.timestamp(), nanos: 0, offset_secs: 0 }));
    assert_eq!(snap.gps, Some((bits(48.0), bits(2.0))));
    assert_eq!(snap.face_person_ids, vec!["p1".to_string()]);
    assert!(snap.yolo_person_count.is_none());
}

#[test]
fn snapshot_from_index_without_gps_or_faces() {
    let asset = IndexedAsset {
        asset_id: "a2".into(),
        filename: "a2.jpg".into(),
        asset_type: AssetType::Photo,
        taken_at: None,
        gps: None,
        person_ids: vec![],
    };
    let snap = snapshot_from_index(&asset);
    assert!(snap.gps.is_none());
    assert!(snap.taken_at.is_none());
    assert!(snap.face_person_ids.is_empty());
}

#[test]
fn decision_columns_distinguishes_outcomes() {
    let matched = PredicateOutcome { matched: true, reason: DecisionReason::Matched };
    let (d, r) = decision_columns(&matched);
    assert_eq!(d, "added");
    assert_eq!(r, "matched");
    let skipped = PredicateOutcome { matched: false, reason: DecisionReason::DateOutOfRange };
    let (d, r) = decision_columns(&skipped);
    assert_eq!(d, "skipped");
    assert_eq!(r, "date_out_of_range");
}

#[test]
fn pass_tallies_and_matched_ids() {
    let asset = |id: &str| IndexedAsset {
        asset_id: id.into(),
        filename: String::new(),
        asset_type: AssetType::Photo,
        taken_at: None,
        gps: None,
        person_ids: vec![],
    };
    let assets = vec![asset("a"), asset("b"), asset("c")];
    let outcomes = vec![
        PredicateOutcome::matched(),
        PredicateOutcome::skipped(DecisionReason::MediaTypeMismatch),
        PredicateOutcome::matched(),
    ];
    assert_eq!(matched_ids(&assets, &outcomes), vec!["a".to_string(), "c".to_string()]);
    let counts = tally(&outcomes);
    assert_eq!((counts.evaluated, counts.added, counts.skipped), (3, 2, 1));
}

#[test]
fn person_count_needed_only_when_first_pass_asks() {
    let waiting = PredicateOutcome::skipped(DecisionReason::YoloUnimplemented);
    assert!(needs_person_count(true, &waiting));
    assert!(!needs_person_count(false, &waiting));
    assert!(!needs_person_count(true, &PredicateOutcome::matched()));
    assert!(EventVerbosity::Verbose.emits_per_asset());
    assert!(!EventVerbosity::SummaryOnly.emits_per_asset());
    assert!(!album_fill_needed(0, 0));
    assert!(album_fill_needed(0, 1));
    assert!(album_fill_needed(2, 0));
}

#[test]
fn managed_name_prefers_the_column() {
    assert_eq!(managed_name_from_column(&Some("Trips".into())), Some("Trips".to_string()));
    assert_eq!(managed_name_from_column(&Some(String::new())), None);
    assert_eq!(managed_name_from_column(&None), None);
    let managed = TargetAlbum::Managed { name: "Kids".into(), shared_with: vec![] };
    assert_eq!(managed_name_from_target(&managed), Some("Kids".to_string()));
    assert_eq!(managed_name_from_target(&TargetAlbum::Existing { album_id: "x".into() }), None);
}

// ---- indexer ----

#[test]
fn media_type_str_maps_all_variants() {
    assert_eq!(media_type_str(ImmichAssetType::Image), "photo");
    assert_eq!(media_type_str(ImmichAssetType::Video), "video");
    assert_eq!(media_type_str(ImmichAssetType::Other), "other");
}

#[test]
fn config_default_drains_full_window() {
    let c = IndexerConfig::default();
    assert_eq!(c.sweep_interval_secs, 120);
    assert_eq!(c.max_pages_per_sweep, MAX_SEARCH_PAGES);
    assert_eq!(c.reconcile_every_n_sweeps, 30);
}

#[test]
fn reconcile_gate_fires_every_nth_sweep_and_resets() {
    let mut counter = 0u32;
    let mut fired_on = Vec::new();
    for sweep in 1..=90 {
        let (fired, next) = reconcile_gate(counter, 30);
        counter = next;
        if fired {
            fired_on.push(sweep);
        }
    }
    assert_eq!(fired_on, vec![30, 60, 90]);
}

#[test]
fn reconcile_gate_clamps_zero_cadence_to_every_sweep() {
    let (fired, next) = reconcile_gate(0, 0);
    assert!(fired);
    assert_eq!(next, 0);
}

fn immich_asset(id: &str, updated_at: i64) -> ImmichAsset {
    ImmichAsset {
        id: id.into(),
        filename: format!("{id}.jpg"),
        asset_type: ImmichAssetType::Image,
        file_created_at: Some(10),
        exif_date_time_original: None,
        latitude: None,
        longitude: None,
        people_ids: vec!["p1".into(), "p2".into()],
        updated_at,
    }
}

#[test]
fn sweep_advances_watermark_and_lists_touched_ids() {
    let assets = vec![immich_asset("a", 50), immich_asset("b", 80), immich_asset("c", 70)];
    assert_eq!(advance_watermark(60, &assets), 80);
    assert_eq!(advance_watermark(100, &assets), 100);
    assert_eq!(advance_watermark(5, &Vec::new()), 5);
    assert_eq!(touched_ids(&assets), vec!["a".to_string(), "b".to_string(), "c".to_string()]);
    assert_eq!(since_watermark(0), None);
    assert_eq!(since_watermark(42), Some(42));
}

#[test]
fn index_row_takes_exif_time_first() {
    let mut a = immich_asset("a", 50);
    let row = index_row(&a);
    assert_eq!(row.taken_at, Some(10));
    assert_eq!(row.media_type, "photo");
    assert_eq!(row.face_count, 2);
    a.exif_date_time_original = Some(7);
    assert_eq!(index_row(&a).taken_at, Some(7));
    assert!(!a.has_gps());
}

#[test]
fn stale_ids_are_indexed_but_no_longer_live() {
    let indexed = vec!["a".to_string(), "b".to_string(), "c".to_string()];
    let live = vec!["c".to_string(), "a".to_string()];
    assert_eq!(stale_ids(&indexed, &live), vec!["b".to_string()]);
}

// ---- scheduler / matcher ----

#[test]
fn config_default_has_no_override() {
    assert!(SchedulerConfig::default().tick_interval_override.is_none());
}

#[test]
fn interval_for_clamps_zero_to_one_second() {
    let c = SchedulerConfig::default();
    assert_eq!(interval_for(&c, 0), TickInterval { secs: 1, nanos: 0 });
    assert_eq!(interval_for(&c, -5), TickInterval { secs: 1, nanos: 0 });
    assert_eq!(interval_for(&c, 300), TickInterval { secs: 300, nanos: 0 });
}

#[test]
fn override_supersedes_rule_interval() {
    let seven_ms = TickInterval { secs: 0, nanos: 7_000_000 };
    let c = SchedulerConfig { tick_interval_override: Some(seven_ms) };
    assert_eq!(interval_for(&c, 300), seven_ms);
    assert_eq!(interval_for(&c, 1), seven_ms);
}

#[test]
fn safety_sweep_interval_defaults_when_absent() {
    assert_eq!(parse_safety_sweep_interval(None), DEFAULT_SAFETY_SWEEP_INTERVAL_SECONDS);
}

#[test]
fn safety_sweep_interval_honors_positive_override() {
    assert_eq!(parse_safety_sweep_interval(Some("900")), 900);
    assert_eq!(parse_safety_sweep_interval(Some("  120 ")), 120);
}

#[test]
fn safety_sweep_interval_rejects_zero_and_garbage() {
    for raw in ["0", "-5", "abc", ""] {
        assert_eq!(
            parse_safety_sweep_interval(Some(raw)),
            DEFAULT_SAFETY_SWEEP_INTERVAL_SECONDS,
            "raw {raw:?} should fall back to the default",
        );
    }
}

// ---- setup ----

#[test]
fn classify_immich_fields_both_present() {
    assert_eq!(
        classify_immich_fields(Some("https://x"), Some("k")),
        ImmichFields::Both { base_url: "https://x".to_string(), api_key: "k".to_string() },
    );
}

#[test]
fn classify_immich_fields_neither() {
    assert_eq!(classify_immich_fields(None, None), ImmichFields::Neither);
}

#[test]
fn classify_immich_fields_empty_strings_treated_as_absent() {
    assert_eq!(classify_immich_fields(Some(""), Some("")), ImmichFields::Neither);
}

#[test]
fn classify_immich_fields_base_url_without_api_key_is_partial() {
    assert_eq!(
        classify_immich_fields(Some("https://x"), None),
        ImmichFields::Partial { missing: "immich_api_key" },
    );
}

#[test]
fn classify_immich_fields_api_key_without_base_url_is_partial() {
    assert_eq!(classify_immich_fields(None, Some("k")), ImmichFields::Partial { missing: "immich_base_url" });
}

#[test]
fn classify_immich_fields_one_empty_one_filled_is_partial() {
    assert_eq!(classify_immich_fields(Some(""), Some("k")), ImmichFields::Partial { missing: "immich_base_url" });
}

#[test]
fn setup_request_checks_fields_in_order() {
    assert_eq!(check_setup_request("", "", None, None), Err("email"));
    assert_eq!(check_setup_request("a@b", "", None, None), Err("password"));
    assert_eq!(check_setup_request("a@b", "pw", Some("https://x"), None), Err("immich_api_key"));
    assert_eq!(check_setup_request("a@b", "pw", None, None), Ok(ImmichFields::Neither));
}

#[test]
fn setup_request_carries_the_immich_connection() {
    assert_eq!(
        check_setup_request("a@b", "pw", Some("https://x"), Some("k")),
        Ok(ImmichFields::Both { base_url: "https://x".to_string(), api_key: "k".to_string() })
    );
    assert_eq!(check_setup_request("a@b", "pw", Some(""), Some("")), Ok(ImmichFields::Neither));
}

#[test]
fn immich_failures_map_to_statuses() {
    assert_eq!(pasted_key_failure(&ImmichError::Unauthorized(401)), (400, "invalid_immich_key"));
    assert_eq!(pasted_key_failure(&ImmichError::Upstream { status: 500 }), (502, "upstream_unreachable"));
    assert_eq!(pasted_key_failure(&ImmichError::InvalidBaseUrl("x".into())), (400, "invalid_base_url"));
    assert_eq!(stored_key_failure(&ImmichError::Unauthorized(401)), (502, "upstream_unreachable"));
    assert_eq!(stored_key_failure(&ImmichError::InvalidBaseUrl("x".into())), (500, "invalid_base_url"));
}

// ---- rules api ----

#[test]
fn poll_interval_bounds_and_default() {
    assert!(validate_poll_interval(60).is_ok());
    assert!(validate_poll_interval(86_400).is_ok());
    assert_eq!(validate_poll_interval(59), Err(RuleApiError::InvalidPollInterval { value: 59 }));
    assert_eq!(create_poll_interval(None), Ok(300));
    assert_eq!(create_poll_interval(Some(86_401)), Err(RuleApiError::InvalidPollInterval { value: 86_401 }));
    assert_eq!(RuleApiError::InvalidPollInterval { value: 1 }.slug(), "invalid_poll_interval");
}

#[test]
fn status_strings_parse() {
    assert_eq!(parse_status_str("active"), Some(RuleStatus::Active));
    assert_eq!(parse_status_str("paused"), Some(RuleStatus::Paused));
    assert_eq!(parse_status_str("archived"), Some(RuleStatus::Archived));
    assert_eq!(parse_status_str("Active"), None);
    assert_eq!(patched_status(RuleStatus::Active, None), Ok(RuleStatus::Active));
    assert_eq!(patched_status(RuleStatus::Active, Some("paused")), Ok(RuleStatus::Paused));
    assert_eq!(
        patched_status(RuleStatus::Active, Some("gone")),
        Err(RuleApiError::InvalidStatus { value: "gone".into() })
    );
}

#[test]
fn patch_must_change_something() {
    let empty = UpdateRuleRequest { yaml_source: None, status: None, poll_interval_seconds: None };
    assert_eq!(check_patch(&empty), Err(RuleApiError::EmptyPatch));
    let bad = UpdateRuleRequest { yaml_source: None, status: None, poll_interval_seconds: Some(1) };
    assert_eq!(check_patch(&bad), Err(RuleApiError::InvalidPollInterval { value: 1 }));
    let ok = UpdateRuleRequest { yaml_source: None, status: Some("paused".into()), poll_interval_seconds: None };
    assert_eq!(check_patch(&ok), Ok(()));
}

fn rule(id: Option<&str>, target: TargetAlbum) -> Rule {
    Rule {
        id: id.map(|s| s.to_string()),
        name: "n".into(),
        target_album: target,
        match_: MatchExpr::And(vec![]),
        status: RuleStatus::Paused,
    }
}

#[test]
fn path_id_is_authoritative() {
    let mut r = rule(None, TargetAlbum::Existing { album_id: "alb".into() });
    assert_eq!(adopt_path_id(&mut r, "my-rule"), Ok(()));
    assert_eq!(r.id.as_deref(), Some("my-rule"));
    let mut r = rule(Some("other"), TargetAlbum::Existing { album_id: "alb".into() });
    assert_eq!(
        adopt_path_id(&mut r, "my-rule"),
        Err(RuleApiError::IdMismatch { path_id: "my-rule".into(), yaml_id: "other".into() })
    );
}

#[test]
fn rule_columns_follow_the_target() {
    let c = rule_columns(&rule(None, TargetAlbum::Existing { album_id: "alb".into() }));
    assert_eq!(c.target_album_strategy, "existing");
    assert_eq!(c.target_album_id, "alb");
    assert_eq!(c.managed_album_name, None);
    assert_eq!(c.status, "paused");
    let c = rule_columns(&rule(None, TargetAlbum::Managed { name: "Kids".into(), shared_with: vec![] }));
    assert_eq!(c.target_album_strategy, "managed");
    assert_eq!(c.target_album_id, "");
    assert_eq!(c.managed_album_name, Some("Kids".to_string()));
    let s = rule_summary("id".into(), "n".into(), &c, 9);
    assert_eq!((s.status.as_str(), s.target_album_strategy.as_str(), s.updated_at), ("paused", "managed", 9));
}

#[test]
fn paging_defaults_and_limits() {
    assert_eq!(page_window(None, None, DECISIONS_DEFAULT_LIMIT, DECISIONS_MAX_LIMIT), Ok((25, 0)));
    assert_eq!(page_window(None, None, RUNS_DEFAULT_LIMIT, 100), Ok((20, 0)));
    assert_eq!(
        page_window(Some(101), None, 25, DECISIONS_MAX_LIMIT),
        Err(RuleApiError::LimitTooLarge { limit: 101, max: 100 })
    );
    assert_eq!(page_window(Some(0), None, 25, 100), Err(RuleApiError::LimitTooLarge { limit: 0, max: 100 }));
    assert_eq!(page_window(Some(5), Some(-1), 25, 100), Err(RuleApiError::InvalidOffset));
    assert_eq!(page_window(Some(5), Some(10), 25, 100), Ok((5, 10)));
}

#[test]
fn reason_filter_splits_trims_and_drops_empty() {
    assert_eq!(parse_reason_filter(None), Vec::<String>::new());
    assert_eq!(
        parse_reason_filter(Some("matched, date_out_of_range,, ")),
        vec!["matched".to_string(), "date_out_of_range".to_string()]
    );
    assert_eq!(parse_reason_filter(Some("")), Vec::<String>::new());
}

#[test]
fn resolver_failures_are_bad_gateway() {
    assert_eq!(validation_error_status(&ValidationError::Resolver(ResolverError::DecryptFailed)), 502);
    assert_eq!(validation_error_status(&ValidationError::EmptyMatch), 400);
}

// ---- config, session, crypto ----

#[test]
fn database_url_defaults_follow_data_dir() {
    assert_eq!(default_database_url("./data"), "sqlite://./data/immich-extended.sqlite?mode=rwc");
    assert_eq!(default_database_url("/var/lib/iet"), "sqlite:///var/lib/iet/immich-extended.sqlite?mode=rwc");
    assert_eq!(default_database_url("/srv/"), "sqlite:///srv/immich-extended.sqlite?mode=rwc");
    assert_eq!(choose_database_url(Some("sqlite::memory:".into()), "./data"), Ok("sqlite::memory:".to_string()));
    assert_eq!(choose_database_url(Some(String::new()), "./data"), Err(ConfigError::EmptyDatabaseUrl));
    assert_eq!(check_data_dir(""), Err(ConfigError::InvalidDataDir { value: String::new() }));
    assert_eq!(check_data_dir("./data"), Ok(()));
}

#[test]
fn session_cookie_settings() {
    assert!(cookie_secure_from(None));
    assert!(!cookie_secure_from(Some("false")));
    assert!(!cookie_secure_from(Some("FALSE")));
    assert!(!cookie_secure_from(Some("0")));
    assert!(!cookie_secure_from(Some("No")));
    assert!(cookie_secure_from(Some("yes")));
    let c = SessionConfig::from_values(None, None);
    assert_eq!(c.cookie_name, "__Host-iext_session");
    assert!(c.cookie_secure);
    let c = SessionConfig::from_values(Some("iext_session_dev".into()), Some("false"));
    assert_eq!(c.cookie_name, "iext_session_dev");
    assert!(!c.cookie_secure);
}

#[test]
fn session_id_is_64_hex_chars() {
    let s = SessionId::random().unwrap();
    assert_eq!(s.0.len(), 64);
    assert!(s.0.chars().all(|c| c.is_ascii_hexdigit()));
}

#[test]
fn session_id_changes_each_call() {
    let a = SessionId::random().unwrap();
    let b = SessionId::random().unwrap();
    assert_ne!(a.0, b.0, "consecutive session ids must differ");
}

#[test]
fn sessions_slide_and_expire() {
    assert_eq!(session_expiry(1_000), 1_000 + SESSION_TTL_SECONDS);
    assert_eq!(touch_outcome(1_000, 1_000), SessionTouch::Expired);
    assert_eq!(touch_outcome(999, 1_000), SessionTouch::Expired);
    assert_eq!(touch_outcome(1_001, 1_000), SessionTouch::Renew { expires_at: 1_000 + 30 * 86_400 });
}

fn key_err(r: Result<MasterKey, MasterKeyError>) -> MasterKeyError {
    match r {
        Ok(_) => panic!("expected the key to be refused"),
        Err(e) => e,
    }
}

fn deterministic_key() -> MasterKey {
    MasterKey::from_bytes([7u8; KEY_LEN])
}

#[test]
fn debug_does_not_leak_key_bytes() {
    let key = MasterKey::from_bytes([0xABu8; KEY_LEN]);
    let dbg = key.debug_repr();
    assert!(!dbg.contains("AB"), "Debug must not include key bytes: {dbg}");
    assert!(!dbg.contains("171"), "Debug must not include key bytes: {dbg}");
    assert!(dbg.contains("len"));
}

#[test]
fn encrypt_then_decrypt_round_trips() {
    let key = deterministic_key();
    let (nonce, ct) = key.encrypt(b"hello-immich-key").unwrap();
    let pt = key.decrypt(&nonce, &ct).unwrap();
    assert_eq!(pt, b"hello-immich-key");
}

#[test]
fn each_encrypt_uses_a_fresh_nonce() {
    let key = deterministic_key();
    let (n1, _) = key.encrypt(b"same plaintext").unwrap();
    let (n2, _) = key.encrypt(b"same plaintext").unwrap();
    assert_ne!(n1, n2, "encrypt must draw a fresh nonce each call");
    assert_eq!(n1.len(), NONCE_LEN);
    assert_eq!(n2.len(), NONCE_LEN);
}

#[test]
fn decrypt_with_wrong_nonce_fails() {
    let key = deterministic_key();
    let (_nonce, ct) = key.encrypt(b"secret").unwrap();
    let wrong_nonce = [0u8; NONCE_LEN];
    let err = key.decrypt(&wrong_nonce, &ct).unwrap_err();
    assert!(matches!(err, MasterKeyError::Crypto));
}

#[test]
fn decrypt_with_wrong_nonce_length_is_typed() {
    let key = deterministic_key();
    let (_nonce, ct) = key.encrypt(b"secret").unwrap();
    let too_short = [0u8; NONCE_LEN - 1];
    let err = key.decrypt(&too_short, &ct).unwrap_err();
    assert!(matches!(err, MasterKeyError::NonceLength { expected, actual }
        if expected == NONCE_LEN && actual == NONCE_LEN - 1));
}

#[test]
fn decrypt_with_wrong_key_fails() {
    let k1 = MasterKey::from_bytes([1u8; KEY_LEN]);
    let k2 = MasterKey::from_bytes([2u8; KEY_LEN]);
    let (nonce, ct) = k1.encrypt(b"secret").unwrap();
    let err = k2.decrypt(&nonce, &ct).unwrap_err();
    assert!(matches!(err, MasterKeyError::Crypto));
}

#[test]
fn decrypt_with_tampered_ciphertext_fails() {
    let key = deterministic_key();
    let (nonce, mut ct) = key.encrypt(b"secret").unwrap();
    ct[0] ^= 0x01;
    let err = key.decrypt(&nonce, &ct).unwrap_err();
    assert!(matches!(err, MasterKeyError::Crypto));
}

#[test]
fn from_hex_accepts_64_hex_chars_with_whitespace() {
    let hex = "07".repeat(KEY_LEN);
    let key = MasterKey::from_hex(&format!("  {hex}\n")).unwrap();
    let (nonce, ct) = key.encrypt(b"x").unwrap();
    assert_eq!(deterministic_key().decrypt(&nonce, &ct).unwrap(), b"x");
}

#[test]
fn from_hex_rejects_short_hex() {
    let err = key_err(MasterKey::from_hex("deadbeef"));
    assert!(matches!(err, MasterKeyError::WrongLength { expected: 32, actual: 4, .. }));
}

#[test]
fn from_hex_rejects_non_hex() {
    let err = key_err(MasterKey::from_hex(&"zzz".repeat(22)));
    assert!(matches!(err, MasterKeyError::EnvNotHex { .. }));
    let err = key_err(MasterKey::from_hex("abc"));
    assert!(matches!(err, MasterKeyError::EnvNotHex { .. }));
}

#[test]
fn from_hex_rejects_empty() {
    let err = key_err(MasterKey::from_hex(""));
    assert!(matches!(err, MasterKeyError::WrongLength { actual: 0, .. }));
}

#[test]
fn from_hex_accepts_64_hex_chars() {
    let key = MasterKey::from_hex(&"0".repeat(64)).unwrap();
    let (nonce, ct) = key.encrypt(b"x").unwrap();
    assert_eq!(key.decrypt(&nonce, &ct).unwrap(), b"x");
}

// ---- stored keys and Immich views ----

use immich_extended::keys::{index_status, open_stored_key, person_ids, ImmichPerson, StoredKeyRow};

fn stored_row(master: &MasterKey, plaintext: &[u8], uid: Option<&str>) -> StoredKeyRow {
    let (nonce, ciphertext) = master.encrypt(plaintext).unwrap();
    StoredKeyRow { base_url: "http://immich.test".into(), ciphertext, nonce, immich_user_id: uid.map(|s| s.to_string()) }
}

#[test]
fn stored_key_opens_with_the_master_key() {
    let mk = deterministic_key();
    let key = open_stored_key(&mk, Some(stored_row(&mk, b"api-key-123", Some("immich-uid")))).unwrap();
    assert_eq!(key.api_key, "api-key-123");
    assert_eq!(key.immich_user_id, "immich-uid");
    assert_eq!(key.base_url, "http://immich.test");
}

#[test]
fn stored_key_failures_are_typed() {
    let mk = deterministic_key();
    assert_eq!(open_stored_key(&mk, None), Err(ResolverError::NoApiKey));
    assert_eq!(open_stored_key(&mk, Some(stored_row(&mk, b"k", None))), Err(ResolverError::NoApiKey));
    let other = MasterKey::from_bytes([1u8; KEY_LEN]);
    assert_eq!(open_stored_key(&mk, Some(stored_row(&other, b"k", Some("u")))), Err(ResolverError::DecryptFailed));
    assert_eq!(
        open_stored_key(&mk, Some(stored_row(&mk, &[0xff, 0xfe], Some("u")))),
        Err(ResolverError::DecryptFailed)
    );
}

#[test]
fn people_become_known_ids_and_progress_reports_sweeping() {
    let people = vec![
        ImmichPerson { id: "p1".into(), name: "Alice".into(), thumbnail_path: None },
        ImmichPerson { id: "p2".into(), name: "Bob".into(), thumbnail_path: Some("/t/p2".into()) },
    ];
    assert_eq!(person_ids(&people), vec!["p1".to_string(), "p2".to_string()]);
    assert!(index_status(10, Some(5), Some(20)).sweeping);
    assert!(!index_status(20, Some(5), Some(20)).sweeping);
    assert!(!index_status(10, None, None).sweeping);
}
