use chrono::{FixedOffset, TimeZone};
use immich_extended::match_expr::{MatchExpr, MatchLeaf, PeopleCountOp, PersonMode, MAX_TREE_DEPTH};
use immich_extended::schema::{
    DatePredicate, FloatBits, LocationPredicate, MatchSpec, MediaPredicate, MediaType, PeoplePredicate,
    Rule, RuleStatus, TargetAlbum, Timestamp,
};
use immich_extended::validator::{
    begin_rule_validation, check_person_ownership, is_valid_slug, resume_with_album_writable,
    resume_with_known_persons, validate_leaf, validate_match_expr_local, ResolverError, ValidationError,
    ValidationStep,
};

/// Answers the validator's questions the way the owner's Immich account
/// would: these person ids exist, these albums are writable; or the resolver
/// fails with `failure`.
struct Answers {
    persons: Vec<String>,
    writable: Vec<String>,
    failure: Option<ResolverError>,
    asked_persons: bool,
    asked_album: bool,
}

fn answers(persons: &[&str], writable: &[&str]) -> Answers {
    Answers {
        persons: persons.iter().map(|s| s.to_string()).collect(),
        writable: writable.iter().map(|s| s.to_string()).collect(),
        failure: None,
        asked_persons: false,
        asked_album: false,
    }
}

fn run(rule: &Rule, a: &mut Answers) -> Result<(), ValidationError> {
    let mut step = begin_rule_validation(rule);
    loop {
        match step {
            ValidationStep::Done(r) => return r,
            ValidationStep::NeedKnownPersonIds => {
                a.asked_persons = true;
                let known = match &a.failure {
                    Some(e) => Err(e.clone()),
                    None => Ok(a.persons.clone()),
                };
                step = resume_with_known_persons(rule, known);
            }
            ValidationStep::NeedAlbumWritable { album_id } => {
                a.asked_album = true;
                let w = match &a.failure {
                    Some(e) => Err(e.clone()),
                    None => Ok(a.writable.contains(&album_id)),
                };
                return resume_with_album_writable(rule, w);
            }
        }
    }
}

fn base_rule() -> Rule {
    Rule {
        id: None,
        name: "test rule".to_string(),
        target_album: TargetAlbum::Managed { name: "managed album".to_string(), shared_with: vec![] },
        match_: MatchExpr::And(Vec::new()),
        status: RuleStatus::Active,
    }
}

fn legacy_match(f: impl FnOnce(&mut MatchSpec)) -> MatchExpr {
    let mut spec = MatchSpec::default();
    f(&mut spec);
    MatchExpr::from_spec(&spec)
}

fn bits(x: f64) -> FloatBits {
    FloatBits { bits: x.to_bits() }
}

fn location(lat: f64, lng: f64, radius_km: f64) -> LocationPredicate {
    LocationPredicate { center: [bits(lat), bits(lng)], radius_km: bits(radius_km) }
}

fn day(y: i32, m: u32, d: u32) -> Timestamp {
    let dt = FixedOffset::east_opt(0).unwrap().with_ymd_and_hms(y, m, d, 0, 0, 0).unwrap();
    Timestamp { secs: dt.timestamp(), nanos: 0, offset_secs: 0 }
}

fn photo_only() -> MatchExpr {
    legacy_match(|s| s.media = Some(MediaPredicate { types: vec![MediaType::Photo] }))
}

#[test]
fn happy_path_ok() {
    let mut rule = base_rule();
    rule.match_ = legacy_match(|s| {
        s.media = Some(MediaPredicate { types: vec![MediaType::Photo] });
        s.location = Some(location(48.0, 2.0, 60.0));
        s.people = Some(PeoplePredicate { must_include: vec!["p1".into()], ..PeoplePredicate::default() });
    });
    run(&rule, &mut answers(&["p1", "p2"], &[])).unwrap();
}

#[test]
fn empty_match_is_rejected() {
    let rule = base_rule();
    let err = run(&rule, &mut answers(&[], &[])).unwrap_err();
    assert!(matches!(err, ValidationError::EmptyMatch));
    assert_eq!(err.slug(), "empty_match");
}

#[test]
fn radius_zero_rejected() {
    let mut rule = base_rule();
    rule.match_ = legacy_match(|s| s.location = Some(location(0.0, 0.0, 0.0)));
    match run(&rule, &mut answers(&[], &[])).unwrap_err() {
        ValidationError::InvalidRadius(r) => assert_eq!(f64::from_bits(r.bits), 0.0),
        other => panic!("expected InvalidRadius, got {other:?}"),
    }
}

#[test]
fn radius_negative_rejected() {
    let mut rule = base_rule();
    rule.match_ = legacy_match(|s| s.location = Some(location(0.0, 0.0, -1.0)));
    let err = run(&rule, &mut answers(&[], &[])).unwrap_err();
    assert!(matches!(err, ValidationError::InvalidRadius(_)));
}

#[test]
fn radius_too_large_rejected() {
    let mut rule = base_rule();
    rule.match_ = legacy_match(|s| s.location = Some(location(0.0, 0.0, 20_001.0)));
    let err = run(&rule, &mut answers(&[], &[])).unwrap_err();
    assert!(matches!(err, ValidationError::InvalidRadius(_)));
}

#[test]
fn radius_at_upper_bound_ok() {
    let mut rule = base_rule();
    rule.match_ = legacy_match(|s| s.location = Some(location(0.0, 0.0, 20_000.0)));
    run(&rule, &mut answers(&[], &[])).unwrap();
}

#[test]
fn radius_nan_rejected() {
    let mut rule = base_rule();
    rule.match_ = legacy_match(|s| s.location = Some(location(0.0, 0.0, f64::NAN)));
    let err = run(&rule, &mut answers(&[], &[])).unwrap_err();
    assert!(matches!(err, ValidationError::InvalidRadius(_)));
}

#[test]
fn from_after_to_rejected() {
    let mut rule = base_rule();
    let (from, to) = (day(2025, 1, 2), day(2025, 1, 1));
    rule.match_ = legacy_match(|s| s.date = Some(DatePredicate { from: Some(from), to: Some(to) }));
    let err = run(&rule, &mut answers(&[], &[])).unwrap_err();
    assert!(matches!(err, ValidationError::InvalidDateRange { .. }));
    assert_eq!(err.slug(), "invalid_date_range");
    assert_eq!(err, ValidationError::InvalidDateRange { from, to });
}

#[test]
fn from_only_or_to_only_ok() {
    let mut rule = base_rule();
    let stamp = day(2025, 1, 1);
    rule.match_ = legacy_match(|s| s.date = Some(DatePredicate { from: Some(stamp), to: None }));
    run(&rule, &mut answers(&[], &[])).unwrap();
    rule.match_ = legacy_match(|s| s.date = Some(DatePredicate { from: None, to: Some(stamp) }));
    run(&rule, &mut answers(&[], &[])).unwrap();
}

fn assert_foreign_in_list(people: PeoplePredicate) {
    let mut rule = base_rule();
    rule.match_ = legacy_match(|s| s.people = Some(people));
    match run(&rule, &mut answers(&["manon"], &[])).unwrap_err() {
        ValidationError::ForeignPersonId { id } => assert_eq!(id, "paloma"),
        other => panic!("expected ForeignPersonId(paloma), got {other:?}"),
    }
}

#[test]
fn foreign_person_in_must_include() {
    assert_foreign_in_list(PeoplePredicate { must_include: vec!["paloma".into()], ..PeoplePredicate::default() });
}

#[test]
fn foreign_person_in_must_include_any_of() {
    assert_foreign_in_list(PeoplePredicate { must_include_any_of: vec!["paloma".into()], ..PeoplePredicate::default() });
}

#[test]
fn foreign_person_in_may_include() {
    assert_foreign_in_list(PeoplePredicate { may_include: vec!["paloma".into()], ..PeoplePredicate::default() });
}

#[test]
fn foreign_person_in_must_exclude() {
    assert_foreign_in_list(PeoplePredicate { must_exclude: vec!["paloma".into()], ..PeoplePredicate::default() });
}

#[test]
fn people_predicate_with_no_ids_skips_resolver_call() {
    let mut rule = base_rule();
    rule.match_ = legacy_match(|s| {
        s.people = Some(PeoplePredicate { no_unidentified_humans: true, ..PeoplePredicate::default() })
    });
    let mut a = answers(&[], &[]);
    run(&rule, &mut a).unwrap();
    assert!(!a.asked_persons);
}

#[test]
fn existing_album_unwritable_rejected() {
    let mut rule = base_rule();
    rule.target_album = TargetAlbum::Existing { album_id: "albX".to_string() };
    rule.match_ = photo_only();
    match run(&rule, &mut answers(&[], &[])).unwrap_err() {
        ValidationError::UnwritableAlbum { album_id } => assert_eq!(album_id, "albX"),
        other => panic!("expected UnwritableAlbum, got {other:?}"),
    }
}

#[test]
fn existing_album_writable_ok() {
    let mut rule = base_rule();
    rule.target_album = TargetAlbum::Existing { album_id: "albA".to_string() };
    rule.match_ = photo_only();
    run(&rule, &mut answers(&[], &["albA"])).unwrap();
}

#[test]
fn managed_album_skips_writability_check() {
    let mut rule = base_rule();
    rule.match_ = photo_only();
    let mut a = answers(&[], &[]);
    run(&rule, &mut a).unwrap();
    assert!(!a.asked_album);
}

fn with_id(id: &str) -> Rule {
    let mut rule = base_rule();
    rule.id = Some(id.to_string());
    rule.match_ = photo_only();
    rule
}

#[test]
fn invalid_id_uppercase_rejected() {
    let err = run(&with_id("UPPERCASE"), &mut answers(&[], &[])).unwrap_err();
    assert!(matches!(err, ValidationError::InvalidId(_)));
    assert_eq!(err.slug(), "invalid_id");
}

#[test]
fn invalid_id_empty_rejected() {
    let err = run(&with_id(""), &mut answers(&[], &[])).unwrap_err();
    assert!(matches!(err, ValidationError::InvalidId(_)));
}

#[test]
fn invalid_id_leading_hyphen_rejected() {
    let err = run(&with_id("-bad-start"), &mut answers(&[], &[])).unwrap_err();
    assert!(matches!(err, ValidationError::InvalidId(_)));
}

#[test]
fn invalid_id_underscore_rejected() {
    let err = run(&with_id("snake_case"), &mut answers(&[], &[])).unwrap_err();
    assert!(matches!(err, ValidationError::InvalidId(_)));
}

#[test]
fn invalid_id_too_long_rejected() {
    let err = run(&with_id(&"a".repeat(65)), &mut answers(&[], &[])).unwrap_err();
    assert!(matches!(err, ValidationError::InvalidId(_)));
    assert!(is_valid_slug(&"a".repeat(64)));
}

#[test]
fn valid_id_slug_ok() {
    run(&with_id("valid-slug-123"), &mut answers(&[], &[])).unwrap();
}

#[test]
fn valid_id_starting_digit_ok() {
    run(&with_id("2024-paris"), &mut answers(&[], &[])).unwrap();
}

#[test]
fn valid_id_single_char_ok() {
    run(&with_id("a"), &mut answers(&[], &[])).unwrap();
}

#[test]
fn non_ascii_id_rejected() {
    assert!(!is_valid_slug("caf\u{e9}"));
}

#[test]
fn resolver_transport_error_bubbles_up() {
    let mut rule = base_rule();
    rule.match_ = legacy_match(|s| {
        s.people = Some(PeoplePredicate { must_include: vec!["p1".into()], ..PeoplePredicate::default() })
    });
    let mut a = answers(&[], &[]);
    a.failure = Some(ResolverError::NoApiKey);
    let err = run(&rule, &mut a).unwrap_err();
    match &err {
        ValidationError::Resolver(ResolverError::NoApiKey) => {}
        other => panic!("expected Resolver(NoApiKey), got {other:?}"),
    }
    assert_eq!(err.slug(), "resolver_error");
}

fn leaf_person_must_include(id: &str) -> MatchExpr {
    MatchExpr::Leaf(MatchLeaf::Person { mode: PersonMode::MustInclude, person_id: id.to_string() })
}

fn leaf_media_photo() -> MatchExpr {
    MatchExpr::Leaf(MatchLeaf::MediaType { types: vec![MediaType::Photo] })
}

fn tree_rule(tree: MatchExpr) -> Rule {
    let mut rule = base_rule();
    rule.match_ = tree;
    rule
}

#[test]
fn tree_happy_path_ok() {
    let tree = MatchExpr::And(vec![leaf_media_photo(), leaf_person_must_include("paloma")]);
    run(&tree_rule(tree), &mut answers(&["paloma"], &[])).unwrap();
}

#[test]
fn tree_single_leaf_root_ok() {
    run(&tree_rule(leaf_media_photo()), &mut answers(&[], &[])).unwrap();
}

#[test]
fn tree_empty_and_rejected_as_empty_match() {
    let err = validate_match_expr_local(&MatchExpr::And(Vec::new())).unwrap_err();
    assert!(matches!(err, ValidationError::EmptyMatch));
}

#[test]
fn tree_empty_or_rejected_as_empty_match() {
    let err = validate_match_expr_local(&MatchExpr::Or(Vec::new())).unwrap_err();
    assert!(matches!(err, ValidationError::EmptyMatch));
}

#[test]
fn tree_single_child_and_rejected_as_redundant_group() {
    let err = validate_match_expr_local(&MatchExpr::And(vec![leaf_media_photo()])).unwrap_err();
    assert!(matches!(err, ValidationError::RedundantGroup));
    assert_eq!(err.slug(), "redundant_group");
}

#[test]
fn tree_single_child_or_rejected_as_redundant_group() {
    let err = validate_match_expr_local(&MatchExpr::Or(vec![leaf_media_photo()])).unwrap_err();
    assert!(matches!(err, ValidationError::RedundantGroup));
}

#[test]
fn tree_double_not_rejected() {
    let tree = MatchExpr::Not(Box::new(MatchExpr::Not(Box::new(leaf_media_photo()))));
    let err = validate_match_expr_local(&tree).unwrap_err();
    assert!(matches!(err, ValidationError::DoubleNot));
    assert_eq!(err.slug(), "double_not");
}

fn nest(depth: usize) -> MatchExpr {
    if depth == 0 {
        MatchExpr::And(vec![leaf_media_photo(), leaf_media_photo()])
    } else {
        MatchExpr::And(vec![nest(depth - 1), leaf_media_photo()])
    }
}

#[test]
fn tree_too_deep_rejected() {
    let tree = nest(MAX_TREE_DEPTH);
    assert!(tree.depth() > MAX_TREE_DEPTH);
    let err = validate_match_expr_local(&tree).unwrap_err();
    assert!(matches!(err, ValidationError::MatchTreeTooDeep { .. }));
    assert_eq!(err.slug(), "match_tree_too_deep");
    assert_eq!(err, ValidationError::MatchTreeTooDeep { depth: MAX_TREE_DEPTH + 1 });
}

#[test]
fn tree_depth_at_cap_ok() {
    let tree = nest(MAX_TREE_DEPTH - 2);
    assert_eq!(tree.depth(), MAX_TREE_DEPTH);
    validate_match_expr_local(&tree).unwrap();
}

#[test]
fn tree_invalid_radius_rejected() {
    let tree = MatchExpr::Leaf(MatchLeaf::Location { center: [bits(0.0), bits(0.0)], radius_km: bits(0.0) });
    assert!(matches!(validate_match_expr_local(&tree).unwrap_err(), ValidationError::InvalidRadius(_)));
}

#[test]
fn tree_invalid_latitude_rejected() {
    let tree = MatchExpr::Leaf(MatchLeaf::Location { center: [bits(91.0), bits(0.0)], radius_km: bits(5.0) });
    assert!(matches!(validate_match_expr_local(&tree).unwrap_err(), ValidationError::InvalidLatitude(_)));
}

#[test]
fn tree_invalid_longitude_rejected() {
    let tree = MatchExpr::Leaf(MatchLeaf::Location { center: [bits(0.0), bits(181.0)], radius_km: bits(5.0) });
    assert!(matches!(validate_match_expr_local(&tree).unwrap_err(), ValidationError::InvalidLongitude(_)));
}

#[test]
fn boundary_coordinates_accepted() {
    let leaf = MatchLeaf::Location { center: [bits(-90.0), bits(180.0)], radius_km: bits(0.001) };
    validate_leaf(&leaf).unwrap();
    let leaf = MatchLeaf::Location { center: [bits(90.0), bits(-180.0)], radius_km: bits(1.0) };
    validate_leaf(&leaf).unwrap();
}

#[test]
fn tree_invalid_date_range_from_after_to_rejected() {
    let tree = MatchExpr::Leaf(MatchLeaf::DateRange { from: Some(day(2025, 2, 1)), to: Some(day(2025, 1, 1)) });
    assert!(matches!(validate_match_expr_local(&tree).unwrap_err(), ValidationError::InvalidDateRange { .. }));
}

#[test]
fn tree_empty_date_range_rejected() {
    let tree = MatchExpr::Leaf(MatchLeaf::DateRange { from: None, to: None });
    assert!(matches!(validate_match_expr_local(&tree).unwrap_err(), ValidationError::EmptyDateRange));
}

#[test]
fn tree_empty_person_id_rejected() {
    let tree = MatchExpr::Leaf(MatchLeaf::Person { mode: PersonMode::MustInclude, person_id: String::new() });
    assert!(matches!(validate_match_expr_local(&tree).unwrap_err(), ValidationError::EmptyPersonId));
}

#[test]
fn tree_empty_media_types_rejected() {
    let tree = MatchExpr::Leaf(MatchLeaf::MediaType { types: vec![] });
    assert!(matches!(validate_match_expr_local(&tree).unwrap_err(), ValidationError::EmptyMediaTypes));
}

#[test]
fn tree_includes_outside_not_rejected() {
    let tree = MatchExpr::Leaf(MatchLeaf::Person { mode: PersonMode::Includes, person_id: "x".into() });
    let err = validate_match_expr_local(&tree).unwrap_err();
    assert!(matches!(err, ValidationError::IncludesOutsideNot));
    assert_eq!(err.slug(), "includes_outside_not");
}

#[test]
fn tree_includes_inside_not_ok() {
    let tree = MatchExpr::Not(Box::new(MatchExpr::Leaf(MatchLeaf::Person {
        mode: PersonMode::Includes,
        person_id: "x".into(),
    })));
    run(&tree_rule(tree), &mut answers(&["x"], &[])).unwrap();
}

#[test]
fn tree_foreign_person_id_rejected() {
    let tree = MatchExpr::And(vec![leaf_person_must_include("paloma"), leaf_person_must_include("intruder")]);
    match run(&tree_rule(tree), &mut answers(&["paloma"], &[])).unwrap_err() {
        ValidationError::ForeignPersonId { id } => assert_eq!(id, "intruder"),
        other => panic!("expected ForeignPersonId, got {other:?}"),
    }
}

fn or_with_counts() -> MatchExpr {
    MatchExpr::Or(vec![
        MatchExpr::And(vec![
            leaf_media_photo(),
            MatchExpr::Leaf(MatchLeaf::PeopleCount { op: PeopleCountOp::Gte, value: 2 }),
        ]),
        MatchExpr::Leaf(MatchLeaf::PeopleCount { op: PeopleCountOp::Eq, value: 0 }),
    ])
}

#[test]
fn tree_or_with_people_count_validates() {
    run(&tree_rule(or_with_counts()), &mut answers(&[], &[])).unwrap();
    assert!(or_with_counts().requires_yolo());
}

#[test]
fn tree_resolver_no_api_key_bubbles() {
    let mut a = answers(&[], &[]);
    a.failure = Some(ResolverError::NoApiKey);
    let err = run(&tree_rule(leaf_person_must_include("p")), &mut a).unwrap_err();
    assert!(matches!(err, ValidationError::Resolver(ResolverError::NoApiKey)));
}

#[test]
fn structure_errors_come_before_leaf_errors() {
    // The leaf error sits in the first child; the structural one deeper in
    // the second. Structure is checked over the whole tree first.
    let tree = MatchExpr::And(vec![
        MatchExpr::Leaf(MatchLeaf::MediaType { types: vec![] }),
        MatchExpr::Not(Box::new(MatchExpr::Not(Box::new(leaf_media_photo())))),
    ]);
    assert!(matches!(validate_match_expr_local(&tree).unwrap_err(), ValidationError::DoubleNot));
}

#[test]
fn ownership_reports_first_foreign_id() {
    let referenced = vec!["a".to_string(), "b".to_string(), "c".to_string()];
    let known = vec!["a".to_string()];
    assert_eq!(
        check_person_ownership(&referenced, &known).unwrap_err(),
        ValidationError::ForeignPersonId { id: "b".to_string() }
    );
    let all = vec!["c".to_string(), "b".to_string(), "a".to_string()];
    check_person_ownership(&referenced, &all).unwrap();
}

#[test]
fn every_error_has_its_slug() {
    let cases: Vec<(ValidationError, &str)> = vec![
        (ValidationError::EmptyMatch, "empty_match"),
        (ValidationError::InvalidRadius(bits(0.0)), "invalid_radius"),
        (ValidationError::InvalidDateRange { from: day(2025, 1, 2), to: day(2025, 1, 1) }, "invalid_date_range"),
        (ValidationError::InvalidId("X".into()), "invalid_id"),
        (ValidationError::ForeignPersonId { id: "x".into() }, "foreign_person_id"),
        (ValidationError::UnwritableAlbum { album_id: "x".into() }, "unwritable_album"),
        (ValidationError::MatchTreeTooDeep { depth: 9 }, "match_tree_too_deep"),
        (ValidationError::RedundantGroup, "redundant_group"),
        (ValidationError::DoubleNot, "double_not"),
        (ValidationError::EmptyDateRange, "empty_date_range"),
        (ValidationError::InvalidLatitude(bits(91.0)), "invalid_latitude"),
        (ValidationError::InvalidLongitude(bits(181.0)), "invalid_longitude"),
        (ValidationError::EmptyPersonId, "empty_person_id"),
        (ValidationError::EmptyMediaTypes, "empty_media_types"),
        (ValidationError::IncludesOutsideNot, "includes_outside_not"),
        (ValidationError::Resolver(ResolverError::Upstream("x".into())), "resolver_error"),
    ];
    for (err, slug) in cases {
        assert_eq!(err.slug(), slug);
    }
}
