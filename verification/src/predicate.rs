//! Predicate evaluators: pure decisions of whether an asset satisfies each
//! predicate of a rule, with the reason for the outcome.
//!
//! [`evaluate_match`] dispatches cheap-first (media, date, location,
//! people) and stops at the first predicate that does not match.
//!
//! The great-circle distance behind the location predicate is floating-point
//! arithmetic; callers compute whether the asset lies within the radius and
//! hand the outcome in as `within_radius`.

use vstd::prelude::*;

use crate::match_expr::PeopleCountOp;
use crate::schema::{
    instant_lt, DatePredicate, FloatBits, LocationPredicate, MatchSpec, MediaPredicate, MediaType,
    PeoplePredicate, Timestamp,
};

verus! {

/// Asset kind, normalized for predicate dispatch.
#[derive(Debug, Clone, Copy, PartialEq, Eq, Structural)]
pub enum AssetType {
    Photo,
    Video,
}

/// The fields of an asset the engine decides on.
#[derive(Debug, Clone, PartialEq)]
pub struct AssetSnapshot {
    pub id: String,
    pub asset_type: AssetType,
    /// When the asset was taken, if known.
    pub taken_at: Option<Timestamp>,
    /// `(latitude, longitude)` when the asset carries GPS.
    pub gps: Option<(FloatBits, FloatBits)>,
    /// Identified faces (person ids).
    pub face_person_ids: Vec<String>,
    /// YOLO-inferred person count, once known.
    pub yolo_person_count: Option<u32>,
}

/// Why an asset matched or skipped a predicate.
#[derive(Debug, Clone, PartialEq, Eq)]
pub enum DecisionReason {
    Matched,
    DateOutOfRange,
    MediaTypeMismatch,
    LocationOutOfRange,
    LocationMissingGps,
    PeopleMustIncludeMissing { missing_id: String },
    PeopleMustIncludeAnyOfMissing,
    PeopleMustExcludePresent { id: String },
    PeopleOtherIdentifiablePresent { id: String },
    PeopleUnidentifiedHumanPresent { yolo_count: u32, identified: u32 },
    YoloUnimplemented,
    /// Every child of an `or` group returned false.
    TreeShortCircuitOr,
    /// A `people_count` block's comparison disagreed.
    PeopleCountMismatch { op: PeopleCountOp, target: u32, observed: u32 },
    /// A `not` group's child returned true.
    NotBranchSatisfied,
}

/// The stable slug of each reason.
pub open spec fn reason_slug(r: DecisionReason) -> Seq<char> {
    match r {
        DecisionReason::Matched => "matched"@,
        DecisionReason::DateOutOfRange => "date_out_of_range"@,
        DecisionReason::MediaTypeMismatch => "media_type_mismatch"@,
        DecisionReason::LocationOutOfRange => "location_out_of_range"@,
        DecisionReason::LocationMissingGps => "location_missing_gps"@,
        DecisionReason::PeopleMustIncludeMissing { .. } => "people_must_include_missing"@,
        DecisionReason::PeopleMustIncludeAnyOfMissing => "people_must_include_any_of_missing"@,
        DecisionReason::PeopleMustExcludePresent { .. } => "people_must_exclude_present"@,
        DecisionReason::PeopleOtherIdentifiablePresent { .. } => "people_other_identifiable_present"@,
        DecisionReason::PeopleUnidentifiedHumanPresent { .. } => "people_unidentified_human_present"@,
        DecisionReason::YoloUnimplemented => "yolo_unimplemented"@,
        DecisionReason::TreeShortCircuitOr => "tree_short_circuit_or"@,
        DecisionReason::PeopleCountMismatch { .. } => "people_count_mismatch"@,
        DecisionReason::NotBranchSatisfied => "not_branch_satisfied"@,
    }
}

impl DecisionReason {
    /// Stable snake_case slug, persisted as the decision reason.
    pub fn slug(&self) -> (s: &'static str)
        ensures
            s@ == reason_slug(*self),
    {
        match self {
            DecisionReason::Matched => "matched",
            DecisionReason::DateOutOfRange => "date_out_of_range",
            DecisionReason::MediaTypeMismatch => "media_type_mismatch",
            DecisionReason::LocationOutOfRange => "location_out_of_range",
            DecisionReason::LocationMissingGps => "location_missing_gps",
            DecisionReason::PeopleMustIncludeMissing { .. } => "people_must_include_missing",
            DecisionReason::PeopleMustIncludeAnyOfMissing => "people_must_include_any_of_missing",
            DecisionReason::PeopleMustExcludePresent { .. } => "people_must_exclude_present",
            DecisionReason::PeopleOtherIdentifiablePresent { .. } => "people_other_identifiable_present",
            DecisionReason::PeopleUnidentifiedHumanPresent { .. } => "people_unidentified_human_present",
            DecisionReason::YoloUnimplemented => "yolo_unimplemented",
            DecisionReason::TreeShortCircuitOr => "tree_short_circuit_or",
            DecisionReason::PeopleCountMismatch { .. } => "people_count_mismatch",
            DecisionReason::NotBranchSatisfied => "not_branch_satisfied",
        }
    }
}

/// A outcome and its reason.
#[derive(Debug, Clone, PartialEq, Eq)]
pub struct PredicateOutcome {
    pub matched: bool,
    pub reason: DecisionReason,
}

pub open spec fn matched_outcome() -> PredicateOutcome {
    PredicateOutcome { matched: true, reason: DecisionReason::Matched }
}

pub open spec fn skipped_outcome(reason: DecisionReason) -> PredicateOutcome {
    PredicateOutcome { matched: false, reason }
}

impl PredicateOutcome {
    pub fn matched() -> (o: Self)
        ensures
            o == matched_outcome(),
    {
        PredicateOutcome { matched: true, reason: DecisionReason::Matched }
    }

    pub fn skipped(reason: DecisionReason) -> (o: Self)
        ensures
            o == skipped_outcome(reason),
    {
        PredicateOutcome { matched: false, reason }
    }
}

// ---------------------------------------------------------------------------
// Specifications.
// ---------------------------------------------------------------------------

/// `ids` holds an id equal to `id`.
pub open spec fn ids_contain(ids: Seq<String>, id: Seq<char>) -> bool {
    exists|j: int| 0 <= j < ids.len() && #[trigger] ids[j]@ == id
}

/// Index of the first id of `s` that satisfies `pred`, if any.
pub open spec fn first_where(s: Seq<String>, pred: spec_fn(Seq<char>) -> bool) -> Option<int> {
    if exists|k: int| 0 <= k < s.len() && pred(#[trigger] s[k]@) && (forall|j: int| 0 <= j < k ==> !pred(#[trigger] s[j]@)) {
        Some(choose|k: int| 0 <= k < s.len() && pred(#[trigger] s[k]@) && (forall|j: int| 0 <= j < k ==> !pred(#[trigger] s[j]@)))
    } else {
        None
    }
}

/// The media type an asset kind is filtered as.
pub open spec fn media_of(t: AssetType) -> MediaType {
    match t {
        AssetType::Photo => MediaType::Photo,
        AssetType::Video => MediaType::Video,
    }
}

/// Date outcome: no timestamp, or one outside the inclusive bounds, skips.
pub open spec fn spec_eval_date(p: DatePredicate, asset: AssetSnapshot) -> PredicateOutcome {
    match asset.taken_at {
        None => skipped_outcome(DecisionReason::DateOutOfRange),
        Some(t) => if (p.from matches Some(f) && instant_lt(t, f)) || (p.to matches Some(u) && instant_lt(u, t)) {
            skipped_outcome(DecisionReason::DateOutOfRange)
        } else {
            matched_outcome()
        },
    }
}

/// Media outcome: an empty type list matches everything.
pub open spec fn spec_eval_media(p: MediaPredicate, asset: AssetSnapshot) -> PredicateOutcome {
    if p.types@.len() == 0 || p.types@.contains(media_of(asset.asset_type)) {
        matched_outcome()
    } else {
        skipped_outcome(DecisionReason::MediaTypeMismatch)
    }
}

/// Location outcome, given whether the asset's GPS lies within the radius.
pub open spec fn spec_eval_location(asset: AssetSnapshot, within_radius: bool) -> PredicateOutcome {
    match asset.gps {
        None => skipped_outcome(DecisionReason::LocationMissingGps),
        Some(_) => if within_radius {
            matched_outcome()
        } else {
            skipped_outcome(DecisionReason::LocationOutOfRange)
        },
    }
}

/// A face id the roster allows when other identifiable people are excluded.
pub open spec fn roster_allows(p: PeoplePredicate, id: Seq<char>) -> bool {
    ids_contain(p.must_include@, id) || ids_contain(p.must_include_any_of@, id) || ids_contain(
        p.may_include@,
        id,
    )
}

/// Identified-face count, saturated to `u32::MAX`.
pub open spec fn identified_count(faces: Seq<String>) -> u32 {
    if faces.len() <= u32::MAX {
        faces.len() as u32
    } else {
        u32::MAX
    }
}

/// The YOLO sub-rule of the people predicate.
pub open spec fn spec_people_yolo(p: PeoplePredicate, asset: AssetSnapshot) -> PredicateOutcome {
    if !p.no_unidentified_humans {
        matched_outcome()
    } else {
        match asset.yolo_person_count {
            None => skipped_outcome(DecisionReason::YoloUnimplemented),
            Some(y) => if y > identified_count(asset.face_person_ids@) {
                skipped_outcome(DecisionReason::PeopleUnidentifiedHumanPresent {
                    yolo_count: y,
                    identified: identified_count(asset.face_person_ids@),
                })
            } else {
                matched_outcome()
            },
        }
    }
}

/// The people outcome: the sub-rules in order, the first failing one wins.
pub open spec fn spec_eval_people(p: PeoplePredicate, asset: AssetSnapshot) -> PredicateOutcome {
    let faces = asset.face_person_ids@;
    let missing = first_where(p.must_include@, |id: Seq<char>| !ids_contain(faces, id));
    let excluded = first_where(p.must_exclude@, |id: Seq<char>| ids_contain(faces, id));
    let stranger = first_where(faces, |id: Seq<char>| !roster_allows(p, id));
    if missing is Some {
        skipped_outcome(DecisionReason::PeopleMustIncludeMissing { missing_id: p.must_include@[missing->0] })
    } else if p.must_include_any_of@.len() != 0 && !(exists|j: int|
        0 <= j < p.must_include_any_of@.len() && ids_contain(faces, #[trigger] p.must_include_any_of@[j]@)) {
        skipped_outcome(DecisionReason::PeopleMustIncludeAnyOfMissing)
    } else if excluded is Some {
        skipped_outcome(DecisionReason::PeopleMustExcludePresent { id: p.must_exclude@[excluded->0] })
    } else if p.must_exclude_other_identifiable && stranger is Some {
        skipped_outcome(DecisionReason::PeopleOtherIdentifiablePresent { id: faces[stranger->0] })
    } else {
        spec_people_yolo(p, asset)
    }
}

/// The outcome of a legacy spec: media, date, location, people, stopping at
/// the first predicate that does not match.
pub open spec fn spec_evaluate_match(spec: MatchSpec, asset: AssetSnapshot, within_radius: bool) -> PredicateOutcome {
    let media = match spec.media {
        Some(m) => spec_eval_media(m, asset),
        None => matched_outcome(),
    };
    let date = match spec.date {
        Some(d) => spec_eval_date(d, asset),
        None => matched_outcome(),
    };
    let location = match spec.location {
        Some(_) => spec_eval_location(asset, within_radius),
        None => matched_outcome(),
    };
    let people = match spec.people {
        Some(p) => spec_eval_people(p, asset),
        None => matched_outcome(),
    };
    if !media.matched {
        media
    } else if !date.matched {
        date
    } else if !location.matched {
        location
    } else if !people.matched {
        people
    } else {
        matched_outcome()
    }
}

// ---------------------------------------------------------------------------
// Evaluators.
// ---------------------------------------------------------------------------

/// Whether `ids` holds `id`.
pub fn contains_id(ids: &Vec<String>, id: &String) -> (r: bool)
    ensures
        r == ids_contain(ids@, id@),
{
    let mut i: usize = 0;
    while i < ids.len()
        invariant
            i <= ids.len(),
            forall|j: int| 0 <= j < i ==> ids@[j]@ != id@,
        decreases ids.len() - i,
    {
        if ids[i] == *id {
            return true;
        }
        i += 1;
    }
    false
}

/// Inclusive bounds; both optional. An asset without a timestamp skips.
pub fn eval_date(p: &DatePredicate, asset: &AssetSnapshot) -> (o: PredicateOutcome)
    ensures
        o == spec_eval_date(*p, *asset),
{
    let taken_at = match asset.taken_at {
        Some(t) => t,
        None => return PredicateOutcome::skipped(DecisionReason::DateOutOfRange),
    };
    if let Some(from) = p.from {
        if taken_at.is_before(&from) {
            return PredicateOutcome::skipped(DecisionReason::DateOutOfRange);
        }
    }
    if let Some(to) = p.to {
        if to.is_before(&taken_at) {
            return PredicateOutcome::skipped(DecisionReason::DateOutOfRange);
        }
    }
    PredicateOutcome::matched()
}

/// An empty type list means no media constraint.
pub fn eval_media(p: &MediaPredicate, asset: &AssetSnapshot) -> (o: PredicateOutcome)
    ensures
        o == spec_eval_media(*p, *asset),
{
    if p.types.len() == 0 {
        return PredicateOutcome::matched();
    }
    let asset_mt = match asset.asset_type {
        AssetType::Photo => MediaType::Photo,
        AssetType::Video => MediaType::Video,
    };
    let mut i: usize = 0;
    while i < p.types.len()
        invariant
            i <= p.types.len(),
            asset_mt == media_of(asset.asset_type),
            forall|j: int| 0 <= j < i ==> p.types@[j] != asset_mt,
        decreases p.types.len() - i,
    {
        if p.types[i] == asset_mt {
            return PredicateOutcome::matched();
        }
        i += 1;
    }
    PredicateOutcome::skipped(DecisionReason::MediaTypeMismatch)
}

/// Geo-fence outcome: no GPS skips with `LocationMissingGps`; otherwise the
/// asset matches iff it lies within the radius (`within_radius`, the
/// great-circle distance from `p.center` compared with `p.radius_km`,
/// boundary inclusive).
pub fn eval_location(p: &LocationPredicate, asset: &AssetSnapshot, within_radius: bool) -> (o: PredicateOutcome)
    ensures
        o == spec_eval_location(*asset, within_radius),
{
    match asset.gps {
        None => PredicateOutcome::skipped(DecisionReason::LocationMissingGps),
        Some(_) => if within_radius {
            PredicateOutcome::matched()
        } else {
            PredicateOutcome::skipped(DecisionReason::LocationOutOfRange)
        },
    }
}

/// The first must-include id missing from the faces, if any.
fn first_missing(required: &Vec<String>, faces: &Vec<String>) -> (r: Option<usize>)
    ensures
        r matches Some(k) ==> first_where(required@, |id: Seq<char>| !ids_contain(faces@, id)) == Some(k as int),
        r is None ==> first_where(required@, |id: Seq<char>| !ids_contain(faces@, id)) is None,
{
    let ghost pred = |id: Seq<char>| !ids_contain(faces@, id);
    let mut i: usize = 0;
    while i < required.len()
        invariant
            i <= required.len(),
            pred == (|id: Seq<char>| !ids_contain(faces@, id)),
            forall|j: int| 0 <= j < i ==> !pred(#[trigger] required@[j]@),
        decreases required.len() - i,
    {
        if !contains_id(faces, &required[i]) {
            proof {
                lemma_first_where_at(required@, pred, i as int);
            }
            return Some(i);
        }
        i += 1;
    }
    proof {
        lemma_first_where_none(required@, pred);
    }
    None
}

/// The first must-exclude id present among the faces, if any.
fn first_present(excluded: &Vec<String>, faces: &Vec<String>) -> (r: Option<usize>)
    ensures
        r matches Some(k) ==> first_where(excluded@, |id: Seq<char>| ids_contain(faces@, id)) == Some(k as int),
        r is None ==> first_where(excluded@, |id: Seq<char>| ids_contain(faces@, id)) is None,
{
    let ghost pred = |id: Seq<char>| ids_contain(faces@, id);
    let mut i: usize = 0;
    while i < excluded.len()
        invariant
            i <= excluded.len(),
            pred == (|id: Seq<char>| ids_contain(faces@, id)),
            forall|j: int| 0 <= j < i ==> !pred(#[trigger] excluded@[j]@),
        decreases excluded.len() - i,
    {
        if contains_id(faces, &excluded[i]) {
            proof {
                lemma_first_where_at(excluded@, pred, i as int);
            }
            return Some(i);
        }
        i += 1;
    }
    proof {
        lemma_first_where_none(excluded@, pred);
    }
    None
}

/// The first face the roster does not allow, if any.
fn first_stranger(p: &PeoplePredicate, faces: &Vec<String>) -> (r: Option<usize>)
    ensures
        r matches Some(k) ==> first_where(faces@, |id: Seq<char>| !roster_allows(*p, id)) == Some(k as int),
        r is None ==> first_where(faces@, |id: Seq<char>| !roster_allows(*p, id)) is None,
{
    let ghost pred = |id: Seq<char>| !roster_allows(*p, id);
    let mut i: usize = 0;
    while i < faces.len()
        invariant
            i <= faces.len(),
            pred == (|id: Seq<char>| !roster_allows(*p, id)),
            forall|j: int| 0 <= j < i ==> !pred(#[trigger] faces@[j]@),
        decreases faces.len() - i,
    {
        let face = &faces[i];
        let allowed = contains_id(&p.must_include, face) || contains_id(&p.must_include_any_of, face)
            || contains_id(&p.may_include, face);
        if !allowed {
            proof {
                lemma_first_where_at(faces@, pred, i as int);
            }
            return Some(i);
        }
        i += 1;
    }
    proof {
        lemma_first_where_none(faces@, pred);
    }
    None
}

/// Whether some id of `candidates` is among the faces.
fn any_present(candidates: &Vec<String>, faces: &Vec<String>) -> (r: bool)
    ensures
        r == (exists|j: int| 0 <= j < candidates@.len() && ids_contain(faces@, #[trigger] candidates@[j]@)),
{
    let mut i: usize = 0;
    while i < candidates.len()
        invariant
            i <= candidates.len(),
            forall|j: int| 0 <= j < i ==> !ids_contain(faces@, #[trigger] candidates@[j]@),
        decreases candidates.len() - i,
    {
        if contains_id(faces, &candidates[i]) {
            return true;
        }
        i += 1;
    }
    false
}

/// Evaluates the identified-people sub-rules in order (must include, any
/// of, must exclude, no other identifiable person) and then the YOLO-gated
/// `no_unidentified_humans` sub-rule; the first failing one decides.
pub fn eval_people(p: &PeoplePredicate, asset: &AssetSnapshot) -> (o: PredicateOutcome)
    ensures
        o == spec_eval_people(*p, *asset),
{
    let faces = &asset.face_person_ids;
    if let Some(k) = first_missing(&p.must_include, faces) {
        return PredicateOutcome::skipped(DecisionReason::PeopleMustIncludeMissing {
            missing_id: p.must_include[k].clone(),
        });
    }
    if p.must_include_any_of.len() != 0 && !any_present(&p.must_include_any_of, faces) {
        return PredicateOutcome::skipped(DecisionReason::PeopleMustIncludeAnyOfMissing);
    }
    if let Some(k) = first_present(&p.must_exclude, faces) {
        return PredicateOutcome::skipped(DecisionReason::PeopleMustExcludePresent {
            id: p.must_exclude[k].clone(),
        });
    }
    if p.must_exclude_other_identifiable {
        if let Some(k) = first_stranger(p, faces) {
            return PredicateOutcome::skipped(DecisionReason::PeopleOtherIdentifiablePresent {
                id: faces[k].clone(),
            });
        }
    }
    if p.no_unidentified_humans {
        let yolo_count = match asset.yolo_person_count {
            Some(y) => y,
            None => return PredicateOutcome::skipped(DecisionReason::YoloUnimplemented),
        };
        let identified: u32 = if faces.len() <= 0xffff_ffffusize {
            faces.len() as u32
        } else {
            u32::MAX
        };
        if yolo_count > identified {
            return PredicateOutcome::skipped(DecisionReason::PeopleUnidentifiedHumanPresent {
                yolo_count,
                identified,
            });
        }
    }
    PredicateOutcome::matched()
}

/// Cheap-first dispatch: media, date, location, people. Absent predicates
/// place no constraint; an all-absent spec matches. `within_radius` is the
/// distance outcome for the location predicate (see [`eval_location`]).
pub fn evaluate_match(spec: &MatchSpec, asset: &AssetSnapshot, within_radius: bool) -> (o: PredicateOutcome)
    ensures
        o == spec_evaluate_match(*spec, *asset, within_radius),
{
    if let Some(media) = &spec.media {
        let outcome = eval_media(media, asset);
        if !outcome.matched {
            return outcome;
        }
    }
    if let Some(date) = &spec.date {
        let outcome = eval_date(date, asset);
        if !outcome.matched {
            return outcome;
        }
    }
    if let Some(location) = &spec.location {
        let outcome = eval_location(location, asset, within_radius);
        if !outcome.matched {
            return outcome;
        }
    }
    if let Some(people) = &spec.people {
        let outcome = eval_people(people, asset);
        if !outcome.matched {
            return outcome;
        }
    }
    PredicateOutcome::matched()
}

// ---------------------------------------------------------------------------
// Lemmas about `first_where`.
// ---------------------------------------------------------------------------

/// An index that satisfies `pred`, with no earlier one, is the first.
pub proof fn lemma_first_where_at(s: Seq<String>, pred: spec_fn(Seq<char>) -> bool, i: int)
    requires
        0 <= i < s.len(),
        pred(s[i]@),
        forall|j: int| 0 <= j < i ==> !pred(#[trigger] s[j]@),
    ensures
        first_where(s, pred) == Some(i),
{
    assert(0 <= i < s.len() && pred(s[i]@) && (forall|j: int| 0 <= j < i ==> !pred(#[trigger] s[j]@)));
    let k = choose|k: int| 0 <= k < s.len() && pred(#[trigger] s[k]@) && (forall|j: int| 0 <= j < k ==> !pred(#[trigger] s[j]@));
    if k < i {
        assert(!pred(s[k]@));
    }
    if k > i {
        assert(!pred(s[i]@));
    }
}

/// No index satisfying `pred` means there is no first one.
pub proof fn lemma_first_where_none(s: Seq<String>, pred: spec_fn(Seq<char>) -> bool)
    requires
        forall|j: int| 0 <= j < s.len() ==> !pred(#[trigger] s[j]@),
    ensures
        first_where(s, pred) is None,
{
}

} // verus!
