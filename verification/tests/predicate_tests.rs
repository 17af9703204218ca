use chrono::{FixedOffset, TimeZone, Utc};
use immich_extended::match_expr::PeopleCountOp;
use immich_extended::predicate::{
    eval_date, eval_location, eval_media, eval_people, evaluate_match, AssetSnapshot, AssetType,
    DecisionReason, PredicateOutcome,
};
use immich_extended::schema::{
    DatePredicate, FloatBits, LocationPredicate, MatchSpec, MediaPredicate, MediaType,
    PeoplePredicate, Timestamp,
};

const R_EARTH_KM: f64 = 6371.0;

fn ts_utc(y: i32, m: u32, d: u32) -> Timestamp {
    let dt = Utc.with_ymd_and_hms(y, m, d, 12, 0, 0).unwrap();
    Timestamp { secs: dt.timestamp(), nanos: dt.timestamp_subsec_nanos(), offset_secs: 0 }
}

fn fixed(y: i32, m: u32, d: u32) -> Timestamp {
    let dt = FixedOffset::east_opt(0).unwrap().with_ymd_and_hms(y, m, d, 12, 0, 0).unwrap();
    Timestamp { secs: dt.timestamp(), nanos: dt.timestamp_subsec_nanos(), offset_secs: 0 }
}

fn bits(x: f64) -> FloatBits {
    FloatBits { bits: x.to_bits() }
}

fn haversine_km((lat1, lon1): (f64, f64), (lat2, lon2): (f64, f64)) -> f64 {
    let dlat = (lat2 - lat1).to_radians();
    let dlon = (lon2 - lon1).to_radians();
    let a = (dlat / 2.0).sin().powi(2)
        + lat1.to_radians().cos() * lat2.to_radians().cos() * (dlon / 2.0).sin().powi(2);
    2.0 * R_EARTH_KM * a.sqrt().min(1.0).asin()
}

/// Whether the asset lies within the predicate's radius, as the server
/// computes it before calling the evaluator.
fn within(center: (f64, f64), radius_km: f64, asset: &AssetSnapshot) -> bool {
    match asset.gps {
        Some((lat, lon)) => {
            haversine_km(center, (f64::from_bits(lat.bits), f64::from_bits(lon.bits))) <= radius_km
        }
        None => false,
    }
}

fn location(center: (f64, f64), radius_km: f64) -> LocationPredicate {
    LocationPredicate { center: [bits(center.0), bits(center.1)], radius_km: bits(radius_km) }
}

fn photo() -> AssetSnapshot {
    AssetSnapshot {
        id: "asset-1".into(),
        asset_type: AssetType::Photo,
        taken_at: Some(ts_utc(2025, 6, 1)),
        gps: None,
        face_person_ids: vec![],
        yolo_person_count: None,
    }
}

fn video() -> AssetSnapshot {
    AssetSnapshot { asset_type: AssetType::Video, ..photo() }
}

fn paris() -> (f64, f64) {
    (48.8566, 2.3522)
}

fn lyon() -> (f64, f64) {
    (45.7640, 4.8357)
}

fn gps(p: (f64, f64)) -> Option<(FloatBits, FloatBits)> {
    Some((bits(p.0), bits(p.1)))
}

#[test]
fn date_inside_inclusive_range_matches() {
    let p = DatePredicate { from: Some(fixed(2025, 1, 1)), to: Some(fixed(2025, 12, 31)) };
    let outcome = eval_date(&p, &photo());
    assert!(outcome.matched);
    assert_eq!(outcome.reason, DecisionReason::Matched);
}

#[test]
fn date_before_from_skips() {
    let p = DatePredicate { from: Some(fixed(2026, 1, 1)), to: None };
    let outcome = eval_date(&p, &photo());
    assert!(!outcome.matched);
    assert_eq!(outcome.reason, DecisionReason::DateOutOfRange);
}

#[test]
fn date_after_to_skips() {
    let p = DatePredicate { from: None, to: Some(fixed(2024, 12, 31)) };
    let outcome = eval_date(&p, &photo());
    assert!(!outcome.matched);
    assert_eq!(outcome.reason, DecisionReason::DateOutOfRange);
}

#[test]
fn date_missing_taken_at_skips() {
    let asset = AssetSnapshot { taken_at: None, ..photo() };
    let p = DatePredicate { from: Some(fixed(2020, 1, 1)), to: Some(fixed(2030, 1, 1)) };
    let outcome = eval_date(&p, &asset);
    assert!(!outcome.matched);
    assert_eq!(outcome.reason, DecisionReason::DateOutOfRange);
}

#[test]
fn date_only_from_open_to_end() {
    let p = DatePredicate { from: Some(fixed(2020, 1, 1)), to: None };
    assert!(eval_date(&p, &photo()).matched);
}

#[test]
fn date_only_to_open_from_start() {
    let p = DatePredicate { from: None, to: Some(fixed(2030, 1, 1)) };
    assert!(eval_date(&p, &photo()).matched);
}

#[test]
fn date_bounds_are_inclusive() {
    let p = DatePredicate { from: Some(fixed(2025, 6, 1)), to: Some(fixed(2025, 6, 1)) };
    let asset = AssetSnapshot { taken_at: Some(fixed(2025, 6, 1)), ..photo() };
    let outcome = eval_date(&p, &asset);
    assert!(outcome.matched, "expected inclusive bound match");
}

#[test]
fn date_bounds_compare_instants_across_offsets() {
    // 12:00 at UTC+2 is 10:00 UTC: earlier than 11:00 UTC.
    let plus_two = FixedOffset::east_opt(2 * 3600).unwrap().with_ymd_and_hms(2025, 6, 1, 12, 0, 0).unwrap();
    let from = Timestamp { secs: plus_two.timestamp(), nanos: 0, offset_secs: 7200 };
    let asset_time = Utc.with_ymd_and_hms(2025, 6, 1, 11, 0, 0).unwrap();
    let asset = AssetSnapshot {
        taken_at: Some(Timestamp { secs: asset_time.timestamp(), nanos: 0, offset_secs: 0 }),
        ..photo()
    };
    let p = DatePredicate { from: Some(from), to: None };
    assert!(eval_date(&p, &asset).matched);
}

#[test]
fn media_photo_matches_photo_filter() {
    let p = MediaPredicate { types: vec![MediaType::Photo] };
    assert!(eval_media(&p, &photo()).matched);
}

#[test]
fn media_video_skips_photo_filter() {
    let p = MediaPredicate { types: vec![MediaType::Photo] };
    let outcome = eval_media(&p, &video());
    assert!(!outcome.matched);
    assert_eq!(outcome.reason, DecisionReason::MediaTypeMismatch);
}

#[test]
fn media_empty_types_matches_any() {
    let p = MediaPredicate { types: vec![] };
    assert!(eval_media(&p, &photo()).matched);
    assert!(eval_media(&p, &video()).matched);
}

#[test]
fn people_must_include_present_matches() {
    let p = PeoplePredicate { must_include: vec!["paloma".into()], ..Default::default() };
    let asset = AssetSnapshot { face_person_ids: vec!["paloma".into(), "manon".into()], ..photo() };
    assert!(eval_people(&p, &asset).matched);
}

#[test]
fn people_must_include_missing_skips_with_id() {
    let p = PeoplePredicate { must_include: vec!["paloma".into(), "manon".into()], ..Default::default() };
    let asset = AssetSnapshot { face_person_ids: vec!["paloma".into()], ..photo() };
    let outcome = eval_people(&p, &asset);
    assert!(!outcome.matched);
    assert_eq!(outcome.reason, DecisionReason::PeopleMustIncludeMissing { missing_id: "manon".into() });
}

#[test]
fn people_must_include_any_of_satisfied_by_one() {
    let p = PeoplePredicate { must_include_any_of: vec!["paloma".into(), "manon".into()], ..Default::default() };
    let asset = AssetSnapshot { face_person_ids: vec!["manon".into()], ..photo() };
    assert!(eval_people(&p, &asset).matched);
}

#[test]
fn people_must_include_any_of_unsatisfied_skips() {
    let p = PeoplePredicate { must_include_any_of: vec!["paloma".into(), "manon".into()], ..Default::default() };
    let asset = AssetSnapshot { face_person_ids: vec!["emeric".into()], ..photo() };
    let outcome = eval_people(&p, &asset);
    assert!(!outcome.matched);
    assert_eq!(outcome.reason, DecisionReason::PeopleMustIncludeAnyOfMissing);
}

#[test]
fn people_must_exclude_absent_matches() {
    let p = PeoplePredicate { must_exclude: vec!["ex".into()], ..Default::default() };
    let asset = AssetSnapshot { face_person_ids: vec!["paloma".into()], ..photo() };
    assert!(eval_people(&p, &asset).matched);
}

#[test]
fn people_must_exclude_present_skips_with_id() {
    let p = PeoplePredicate { must_exclude: vec!["ex".into()], ..Default::default() };
    let asset = AssetSnapshot { face_person_ids: vec!["paloma".into(), "ex".into()], ..photo() };
    let outcome = eval_people(&p, &asset);
    assert!(!outcome.matched);
    assert_eq!(outcome.reason, DecisionReason::PeopleMustExcludePresent { id: "ex".into() });
}

#[test]
fn people_other_identifiable_all_in_allowlist_matches() {
    let p = PeoplePredicate {
        must_include: vec!["paloma".into()],
        may_include: vec!["manon".into(), "emeric".into()],
        must_exclude_other_identifiable: true,
        ..Default::default()
    };
    let asset = AssetSnapshot { face_person_ids: vec!["paloma".into(), "manon".into()], ..photo() };
    assert!(eval_people(&p, &asset).matched);
}

#[test]
fn people_other_identifiable_violator_skips() {
    let p = PeoplePredicate {
        must_include: vec!["paloma".into()],
        may_include: vec!["manon".into()],
        must_exclude_other_identifiable: true,
        ..Default::default()
    };
    let asset = AssetSnapshot { face_person_ids: vec!["paloma".into(), "stranger".into()], ..photo() };
    let outcome = eval_people(&p, &asset);
    assert!(!outcome.matched);
    assert_eq!(outcome.reason, DecisionReason::PeopleOtherIdentifiablePresent { id: "stranger".into() });
}

#[test]
fn people_no_unidentified_yolo_equals_faces_matches() {
    let p = PeoplePredicate { must_include: vec!["paloma".into()], no_unidentified_humans: true, ..Default::default() };
    let asset = AssetSnapshot { face_person_ids: vec!["paloma".into()], yolo_person_count: Some(1), ..photo() };
    assert!(eval_people(&p, &asset).matched);
}

#[test]
fn people_no_unidentified_yolo_exceeds_faces_skips() {
    let p = PeoplePredicate { must_include: vec!["paloma".into()], no_unidentified_humans: true, ..Default::default() };
    let asset = AssetSnapshot { face_person_ids: vec!["paloma".into()], yolo_person_count: Some(3), ..photo() };
    let outcome = eval_people(&p, &asset);
    assert!(!outcome.matched);
    assert_eq!(outcome.reason, DecisionReason::PeopleUnidentifiedHumanPresent { yolo_count: 3, identified: 1 });
}

#[test]
fn people_no_unidentified_yolo_none_skips_with_unimplemented() {
    let p = PeoplePredicate { no_unidentified_humans: true, ..Default::default() };
    let asset = AssetSnapshot { face_person_ids: vec![], yolo_person_count: None, ..photo() };
    let outcome = eval_people(&p, &asset);
    assert!(!outcome.matched);
    assert_eq!(outcome.reason, DecisionReason::YoloUnimplemented);
}

#[test]
fn people_no_unidentified_disabled_ignores_yolo_state() {
    let p = PeoplePredicate { no_unidentified_humans: false, ..Default::default() };
    let asset = AssetSnapshot { face_person_ids: vec![], yolo_person_count: None, ..photo() };
    assert!(eval_people(&p, &asset).matched);
}

#[test]
fn people_combination_must_include_then_other_identifiable() {
    let p = PeoplePredicate {
        must_include: vec!["paloma".into()],
        may_include: vec!["manon".into()],
        must_exclude_other_identifiable: true,
        ..Default::default()
    };
    let asset = AssetSnapshot { face_person_ids: vec!["paloma".into(), "stranger".into()], ..photo() };
    let outcome = eval_people(&p, &asset);
    assert!(!outcome.matched);
    assert_eq!(outcome.reason, DecisionReason::PeopleOtherIdentifiablePresent { id: "stranger".into() });
}

#[test]
fn location_at_center_matches() {
    let p = location(paris(), 1.0);
    let asset = AssetSnapshot { gps: gps(paris()), ..photo() };
    let outcome = eval_location(&p, &asset, within(paris(), 1.0, &asset));
    assert!(outcome.matched);
    assert_eq!(outcome.reason, DecisionReason::Matched);
}

#[test]
fn location_inside_radius_matches() {
    let p = location(paris(), 500.0);
    let asset = AssetSnapshot { gps: gps(lyon()), ..photo() };
    let outcome = eval_location(&p, &asset, within(paris(), 500.0, &asset));
    assert!(outcome.matched, "Lyon ~393 km < 500 km radius from Paris");
}

#[test]
fn location_outside_radius_skips() {
    let p = location(paris(), 10.0);
    let asset = AssetSnapshot { gps: gps(lyon()), ..photo() };
    let outcome = eval_location(&p, &asset, within(paris(), 10.0, &asset));
    assert!(!outcome.matched);
    assert_eq!(outcome.reason, DecisionReason::LocationOutOfRange);
}

#[test]
fn location_missing_gps_skips() {
    let p = location((48.85, 2.35), 5.0);
    let asset = AssetSnapshot { gps: None, ..photo() };
    let outcome = eval_location(&p, &asset, true);
    assert!(!outcome.matched);
    assert_eq!(outcome.reason, DecisionReason::LocationMissingGps);
}

#[test]
fn location_boundary_inclusive() {
    let distance = haversine_km(paris(), lyon());
    let p = location(paris(), distance);
    let asset = AssetSnapshot { gps: gps(lyon()), ..photo() };
    let outcome = eval_location(&p, &asset, within(paris(), distance, &asset));
    assert!(outcome.matched, "radius == distance must match (<= boundary)");
}

#[test]
fn evaluate_match_empty_spec_matches() {
    let spec = MatchSpec::default();
    let outcome = evaluate_match(&spec, &photo(), false);
    assert!(outcome.matched);
    assert_eq!(outcome.reason, DecisionReason::Matched);
}

#[test]
fn evaluate_match_all_predicates_pass() {
    let spec = MatchSpec {
        date: Some(DatePredicate { from: Some(fixed(2025, 1, 1)), to: Some(fixed(2025, 12, 31)) }),
        media: Some(MediaPredicate { types: vec![MediaType::Photo] }),
        people: Some(PeoplePredicate { must_include: vec!["paloma".into()], ..Default::default() }),
        location: None,
    };
    let asset = AssetSnapshot { face_person_ids: vec!["paloma".into()], ..photo() };
    assert!(evaluate_match(&spec, &asset, false).matched);
}

#[test]
fn evaluate_match_short_circuits_on_date_before_people() {
    let spec = MatchSpec {
        date: Some(DatePredicate { from: Some(fixed(2030, 1, 1)), to: None }),
        people: Some(PeoplePredicate { must_include: vec!["paloma".into()], ..Default::default() }),
        media: None,
        location: None,
    };
    let outcome = evaluate_match(&spec, &photo(), false);
    assert!(!outcome.matched);
    assert_eq!(outcome.reason, DecisionReason::DateOutOfRange);
}

#[test]
fn evaluate_match_media_short_circuits_before_date() {
    let spec = MatchSpec {
        media: Some(MediaPredicate { types: vec![MediaType::Video] }),
        date: Some(DatePredicate { from: Some(fixed(2030, 1, 1)), to: None }),
        location: None,
        people: None,
    };
    let outcome = evaluate_match(&spec, &photo(), false);
    assert!(!outcome.matched);
    assert_eq!(outcome.reason, DecisionReason::MediaTypeMismatch);
}

#[test]
fn evaluate_match_location_short_circuits_before_people() {
    let spec = MatchSpec {
        location: Some(location((0.0, 0.0), 1.0)),
        people: Some(PeoplePredicate { must_include: vec!["paloma".into()], ..Default::default() }),
        date: None,
        media: None,
    };
    let asset = AssetSnapshot { gps: gps(paris()), face_person_ids: vec!["paloma".into()], ..photo() };
    let outcome = evaluate_match(&spec, &asset, within((0.0, 0.0), 1.0, &asset));
    assert!(!outcome.matched);
    assert_eq!(outcome.reason, DecisionReason::LocationOutOfRange);
}

#[test]
fn outcome_constructors_set_outcome_and_reason() {
    assert_eq!(PredicateOutcome::matched(), PredicateOutcome { matched: true, reason: DecisionReason::Matched });
    assert_eq!(
        PredicateOutcome::skipped(DecisionReason::DateOutOfRange),
        PredicateOutcome { matched: false, reason: DecisionReason::DateOutOfRange }
    );
}

#[test]
fn decision_reason_slugs_are_stable() {
    assert_eq!(DecisionReason::Matched.slug(), "matched");
    assert_eq!(DecisionReason::DateOutOfRange.slug(), "date_out_of_range");
    assert_eq!(DecisionReason::MediaTypeMismatch.slug(), "media_type_mismatch");
    assert_eq!(DecisionReason::LocationOutOfRange.slug(), "location_out_of_range");
    assert_eq!(DecisionReason::LocationMissingGps.slug(), "location_missing_gps");
    assert_eq!(
        DecisionReason::PeopleMustIncludeMissing { missing_id: "x".into() }.slug(),
        "people_must_include_missing"
    );
    assert_eq!(DecisionReason::PeopleMustIncludeAnyOfMissing.slug(), "people_must_include_any_of_missing");
    assert_eq!(DecisionReason::PeopleMustExcludePresent { id: "x".into() }.slug(), "people_must_exclude_present");
    assert_eq!(
        DecisionReason::PeopleOtherIdentifiablePresent { id: "x".into() }.slug(),
        "people_other_identifiable_present"
    );
    assert_eq!(
        DecisionReason::PeopleUnidentifiedHumanPresent { yolo_count: 2, identified: 1 }.slug(),
        "people_unidentified_human_present"
    );
    assert_eq!(DecisionReason::YoloUnimplemented.slug(), "yolo_unimplemented");
    assert_eq!(DecisionReason::TreeShortCircuitOr.slug(), "tree_short_circuit_or");
    assert_eq!(
        DecisionReason::PeopleCountMismatch { op: PeopleCountOp::Eq, target: 1, observed: 2 }.slug(),
        "people_count_mismatch"
    );
    assert_eq!(DecisionReason::NotBranchSatisfied.slug(), "not_branch_satisfied");
}
