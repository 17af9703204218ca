use chrono::{FixedOffset, TimeZone};
use immich_extended::match_expr::{MatchExpr, MatchLeaf, PeopleCountOp, PersonMode, MAX_TREE_DEPTH};
use immich_extended::schema::{
    is_false, DatePredicate, FloatBits, LocationPredicate, MatchSpec, MediaPredicate, MediaType,
    PeoplePredicate, RuleStatus, TargetAlbum, TargetAlbumKind, Timestamp,
};

fn at(offset_secs: i32, y: i32, mo: u32, d: u32, h: u32, mi: u32, s: u32) -> Timestamp {
    let dt = FixedOffset::east_opt(offset_secs).unwrap().with_ymd_and_hms(y, mo, d, h, mi, s).unwrap();
    Timestamp { secs: dt.timestamp(), nanos: dt.timestamp_subsec_nanos(), offset_secs }
}

fn bits(x: f64) -> FloatBits {
    FloatBits { bits: x.to_bits() }
}

#[test]
fn empty_legacy_spec_converts_to_empty_and() {
    let expr = MatchExpr::from_spec(&MatchSpec::default());
    assert_eq!(expr, MatchExpr::And(Vec::new()));
}

#[test]
fn default_tree_is_empty_and() {
    assert_eq!(MatchExpr::default(), MatchExpr::And(Vec::new()));
    assert!(MatchExpr::default().is_empty());
}

#[test]
fn single_legacy_date_flattens_to_bare_leaf() {
    let stamp = at(0, 2024, 7, 15, 0, 0, 0);
    let spec = MatchSpec { date: Some(DatePredicate { from: Some(stamp), to: None }), ..Default::default() };
    let expr = MatchExpr::from_spec(&spec);
    assert_eq!(expr, MatchExpr::Leaf(MatchLeaf::DateRange { from: Some(stamp), to: None }));
}

#[test]
fn appendix_a_paris_july_converts_to_and_of_date_and_location() {
    let from = at(2 * 3600, 2024, 7, 15, 0, 0, 0);
    let to = at(2 * 3600, 2024, 7, 22, 23, 59, 59);
    let spec = MatchSpec {
        date: Some(DatePredicate { from: Some(from), to: Some(to) }),
        location: Some(LocationPredicate { center: [bits(48.8566), bits(2.3522)], radius_km: bits(60.0) }),
        ..Default::default()
    };
    let expr = MatchExpr::from_spec(&spec);
    match expr {
        MatchExpr::And(children) => {
            assert_eq!(children.len(), 2);
            assert!(matches!(children[0], MatchExpr::Leaf(MatchLeaf::DateRange { .. })));
            assert!(matches!(children[1], MatchExpr::Leaf(MatchLeaf::Location { .. })));
        }
        other => panic!("expected And of 2, got {other:?}"),
    }
}

#[test]
fn appendix_a_famille_restreint_converts_to_person_and_face_recognition() {
    let spec = MatchSpec {
        people: Some(PeoplePredicate {
            must_include: vec!["paloma".into()],
            may_include: vec!["manon".into(), "emeric".into()],
            must_exclude_other_identifiable: true,
            no_unidentified_humans: true,
            ..Default::default()
        }),
        ..Default::default()
    };
    let expr = MatchExpr::from_spec(&spec);
    match expr {
        MatchExpr::And(children) => {
            assert_eq!(children.len(), 4);
            assert!(matches!(
                &children[0],
                MatchExpr::Leaf(MatchLeaf::Person { mode: PersonMode::MustInclude, person_id }) if person_id == "paloma"
            ));
            assert!(matches!(&children[1], MatchExpr::Leaf(MatchLeaf::Person { mode: PersonMode::MayInclude, .. })));
            assert!(matches!(&children[2], MatchExpr::Leaf(MatchLeaf::Person { mode: PersonMode::MayInclude, .. })));
            assert!(matches!(
                &children[3],
                MatchExpr::Leaf(MatchLeaf::FaceRecognition { allow_unrecognized: false, yolo_count_check: true })
            ));
        }
        other => panic!("expected And, got {other:?}"),
    }
}

#[test]
fn appendix_a_enfants_ensemble_converts() {
    let spec = MatchSpec {
        people: Some(PeoplePredicate {
            must_include: vec!["kid1".into(), "kid2".into()],
            must_exclude_other_identifiable: true,
            no_unidentified_humans: false,
            ..Default::default()
        }),
        ..Default::default()
    };
    let expr = MatchExpr::from_spec(&spec);
    match expr {
        MatchExpr::And(children) => {
            assert_eq!(children.len(), 3);
            assert!(matches!(
                &children[2],
                MatchExpr::Leaf(MatchLeaf::FaceRecognition { allow_unrecognized: false, yolo_count_check: false })
            ));
        }
        other => panic!("expected And, got {other:?}"),
    }
}

#[test]
fn must_include_any_of_becomes_or() {
    let spec = MatchSpec {
        people: Some(PeoplePredicate { must_include_any_of: vec!["a".into(), "b".into()], ..Default::default() }),
        ..Default::default()
    };
    match MatchExpr::from_spec(&spec) {
        MatchExpr::Or(or_children) => assert_eq!(or_children.len(), 2),
        other => panic!("expected Or, got {other:?}"),
    }
}

#[test]
fn single_must_include_any_of_flattens_to_person_leaf() {
    let spec = MatchSpec {
        people: Some(PeoplePredicate { must_include_any_of: vec!["only".into()], ..Default::default() }),
        ..Default::default()
    };
    let expr = MatchExpr::from_spec(&spec);
    assert!(matches!(expr, MatchExpr::Leaf(MatchLeaf::Person { mode: PersonMode::MustInclude, .. })));
}

#[test]
fn must_exclude_becomes_person_must_exclude() {
    let spec = MatchSpec {
        people: Some(PeoplePredicate { must_exclude: vec!["stranger".into()], ..Default::default() }),
        ..Default::default()
    };
    let expr = MatchExpr::from_spec(&spec);
    assert_eq!(
        expr,
        MatchExpr::Leaf(MatchLeaf::Person { mode: PersonMode::MustExclude, person_id: "stranger".to_string() })
    );
}

#[test]
fn no_unidentified_alone_inserts_yolo_face_recognition() {
    let spec = MatchSpec {
        people: Some(PeoplePredicate { no_unidentified_humans: true, ..Default::default() }),
        ..Default::default()
    };
    let expr = MatchExpr::from_spec(&spec);
    assert_eq!(expr, MatchExpr::Leaf(MatchLeaf::FaceRecognition { allow_unrecognized: true, yolo_count_check: true }));
}

#[test]
fn media_only_flattens_to_media_type_leaf() {
    let spec = MatchSpec { media: Some(MediaPredicate { types: vec![MediaType::Photo] }), ..Default::default() };
    let expr = MatchExpr::from_spec(&spec);
    assert_eq!(expr, MatchExpr::Leaf(MatchLeaf::MediaType { types: vec![MediaType::Photo] }));
}

#[test]
fn requires_yolo_false_for_cheap_tree() {
    let tree = MatchExpr::And(vec![
        MatchExpr::Leaf(MatchLeaf::Person { mode: PersonMode::MustInclude, person_id: "p".into() }),
        MatchExpr::Leaf(MatchLeaf::FaceRecognition { allow_unrecognized: false, yolo_count_check: false }),
    ]);
    assert!(!tree.requires_yolo());
}

#[test]
fn requires_yolo_true_when_people_count_leaf_exists() {
    let tree = MatchExpr::Leaf(MatchLeaf::PeopleCount { op: PeopleCountOp::Eq, value: 1 });
    assert!(tree.requires_yolo());
}

#[test]
fn requires_yolo_true_when_face_recognition_has_yolo_count_check() {
    let tree = MatchExpr::Leaf(MatchLeaf::FaceRecognition { allow_unrecognized: false, yolo_count_check: true });
    assert!(tree.requires_yolo());
}

#[test]
fn requires_yolo_walks_under_not() {
    let tree = MatchExpr::Not(Box::new(MatchExpr::Leaf(MatchLeaf::PeopleCount { op: PeopleCountOp::Gt, value: 0 })));
    assert!(tree.requires_yolo());
}

#[test]
fn requires_yolo_walks_under_or() {
    let tree = MatchExpr::Or(vec![
        MatchExpr::Leaf(MatchLeaf::MediaType { types: vec![MediaType::Photo] }),
        MatchExpr::Leaf(MatchLeaf::PeopleCount { op: PeopleCountOp::Gte, value: 2 }),
    ]);
    assert!(tree.requires_yolo());
}

#[test]
fn depth_of_leaf_is_one() {
    let tree = MatchExpr::Leaf(MatchLeaf::MediaType { types: vec![MediaType::Photo] });
    assert_eq!(tree.depth(), 1);
}

#[test]
fn depth_counts_through_groups_and_not() {
    let tree = MatchExpr::And(vec![MatchExpr::Not(Box::new(MatchExpr::Leaf(MatchLeaf::Person {
        mode: PersonMode::Includes,
        person_id: "x".into(),
    })))]);
    assert_eq!(tree.depth(), 3);
}

#[test]
fn depth_of_empty_group_is_one() {
    assert_eq!(MatchExpr::And(Vec::new()).depth(), 1);
    assert!(MAX_TREE_DEPTH == 8);
}

#[test]
fn referenced_person_ids_collects_from_all_branches() {
    let tree = MatchExpr::And(vec![
        MatchExpr::Leaf(MatchLeaf::Person { mode: PersonMode::MustInclude, person_id: "a".into() }),
        MatchExpr::Or(vec![
            MatchExpr::Leaf(MatchLeaf::Person { mode: PersonMode::MustInclude, person_id: "b".into() }),
            MatchExpr::Not(Box::new(MatchExpr::Leaf(MatchLeaf::Person { mode: PersonMode::Includes, person_id: "c".into() }))),
        ]),
    ]);
    let ids = tree.referenced_person_ids();
    assert_eq!(ids, vec!["a", "b", "c"]);
}

#[test]
fn is_empty_sees_through_nested_groups() {
    let empty = MatchExpr::Or(vec![MatchExpr::And(vec![]), MatchExpr::Not(Box::new(MatchExpr::And(vec![])))]);
    assert!(empty.is_empty());
    let not_empty = MatchExpr::Or(vec![MatchExpr::And(vec![]), MatchExpr::Leaf(MatchLeaf::MediaType { types: vec![] })]);
    assert!(!not_empty.is_empty());
}

#[test]
fn people_count_op_compare_eq() {
    assert!(PeopleCountOp::Eq.compare(2, 2));
    assert!(!PeopleCountOp::Eq.compare(2, 3));
}

#[test]
fn people_count_op_compare_gte() {
    assert!(PeopleCountOp::Gte.compare(2, 2));
    assert!(PeopleCountOp::Gte.compare(3, 2));
    assert!(!PeopleCountOp::Gte.compare(1, 2));
}

#[test]
fn people_count_op_compare_other_operators() {
    assert!(PeopleCountOp::Ne.compare(1, 2));
    assert!(PeopleCountOp::Lt.compare(1, 2));
    assert!(!PeopleCountOp::Lt.compare(2, 2));
    assert!(PeopleCountOp::Lte.compare(2, 2));
    assert!(PeopleCountOp::Gt.compare(3, 2));
    assert!(!PeopleCountOp::Gt.compare(2, 2));
}

#[test]
fn media_type_kind_helper_returns_string() {
    let existing = TargetAlbum::Existing { album_id: "a".into() };
    let managed = TargetAlbum::Managed { name: "m".into(), shared_with: vec![] };
    assert_eq!(existing.kind().as_str(), "existing");
    assert_eq!(managed.kind().as_str(), "managed");
    assert_eq!(existing.kind(), TargetAlbumKind::Existing);
}

#[test]
fn rule_status_as_str_matches_yaml_form() {
    assert_eq!(RuleStatus::Active.as_str(), "active");
    assert_eq!(RuleStatus::Archived.as_str(), "archived");
    assert_eq!(RuleStatus::Paused.as_str(), "paused");
}

#[test]
fn rule_status_defaults_to_active() {
    assert_eq!(RuleStatus::default(), RuleStatus::Active);
}

#[test]
fn requires_yolo_true_when_no_unidentified_humans_set() {
    let spec = MatchSpec {
        people: Some(PeoplePredicate { no_unidentified_humans: true, ..Default::default() }),
        ..Default::default()
    };
    assert!(spec.requires_yolo());
}

#[test]
fn requires_yolo_false_for_other_people_subrules() {
    let spec = MatchSpec {
        people: Some(PeoplePredicate {
            must_include: vec!["a".into()],
            must_include_any_of: vec!["b".into()],
            may_include: vec!["c".into()],
            must_exclude: vec!["d".into()],
            must_exclude_other_identifiable: true,
            no_unidentified_humans: false,
        }),
        ..Default::default()
    };
    assert!(!spec.requires_yolo());
}

#[test]
fn requires_yolo_false_when_people_absent() {
    let spec = MatchSpec { media: Some(MediaPredicate { types: vec![MediaType::Photo] }), ..Default::default() };
    assert!(!spec.requires_yolo());
}

#[test]
fn requires_yolo_false_for_empty_spec() {
    assert!(!MatchSpec::default().requires_yolo());
    assert!(MatchSpec::default().is_empty());
}

#[test]
fn false_flag_is_left_out_of_written_form() {
    assert!(is_false(&false));
    assert!(!is_false(&true));
}

#[test]
fn float_keys_order_like_the_real_line() {
    assert!(bits(1.0).key() > bits(0.5).key());
    assert!(bits(-1.0).key() < bits(-0.5).key());
    assert_eq!(bits(0.0).key(), bits(-0.0).key());
    assert!(bits(5.0).within(bits(-90.0), bits(90.0)));
    assert!(!bits(91.0).within(bits(-90.0), bits(90.0)));
    assert!(!bits(f64::NAN).within(bits(-90.0), bits(90.0)));
}
