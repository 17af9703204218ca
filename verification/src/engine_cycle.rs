//! The decisions of one matching pass of a rule over indexed assets: how an
//! index row becomes an engine snapshot, when the person-count inference
//! must run, which assets go to the album, what each outcome is recorded
//! as, and how a failed pass is labelled.

use vstd::prelude::*;
use vstd::string::StringExecFns;

use crate::predicate::{AssetSnapshot, AssetType, DecisionReason, PredicateOutcome, reason_slug};
use crate::activity::{ActivityKind, ActivityKindV};
use crate::immich::ImmichAlbumSummary;
use crate::schema::{FloatBits, TargetAlbum, Timestamp};
use crate::text::str_eq;

verus! {

broadcast use vstd::std_specs::vec::group_vec_axioms;

/// Why a matching pass failed; the slug is what the run row records.
#[derive(Debug, Clone, PartialEq)]
pub enum CycleError {
    RuleNotFound(String),
    NoApiKey(String),
    DecryptFailed,
    InvalidBaseUrl(String),
    BadParsedPredicates(String),
    ManagedAlbumNameMissing(String),
    Immich(String),
    Yolo(String),
    Io(String),
    Db(String),
    Decisions(String),
}

/// The recorded label of a failure: a fixed slug, or a slug and the detail.
pub open spec fn cycle_slug(e: CycleError) -> Seq<char> {
    match e {
        CycleError::RuleNotFound(_) => "rule_not_found"@,
        CycleError::NoApiKey(_) => "no_api_key"@,
        CycleError::DecryptFailed => "decrypt_failed"@,
        CycleError::InvalidBaseUrl(_) => "invalid_base_url"@,
        CycleError::BadParsedPredicates(_) => "bad_parsed_predicates"@,
        CycleError::Immich(d) => "immich_unreachable: "@ + d@,
        CycleError::Yolo(d) => "yolo_failed: "@ + d@,
        CycleError::Io(d) => "io_error: "@ + d@,
        CycleError::Db(d) => "db_error: "@ + d@,
        CycleError::Decisions(d) => "db_error: "@ + d@,
        CycleError::ManagedAlbumNameMissing(_) => "managed_album_name_missing"@,
    }
}

fn labelled(prefix: &str, detail: &String) -> (s: String)
    ensures
        s@ == prefix@ + detail@,
{
    let mut s = String::from_str(prefix);
    s.append(detail.as_str());
    s
}

impl CycleError {
    /// Label recorded in the run's `error_message`.
    pub fn slug(&self) -> (s: String)
        ensures
            s@ == cycle_slug(*self),
    {
        match self {
            CycleError::RuleNotFound(_) => String::from_str("rule_not_found"),
            CycleError::NoApiKey(_) => String::from_str("no_api_key"),
            CycleError::DecryptFailed => String::from_str("decrypt_failed"),
            CycleError::InvalidBaseUrl(_) => String::from_str("invalid_base_url"),
            CycleError::BadParsedPredicates(_) => String::from_str("bad_parsed_predicates"),
            CycleError::Immich(d) => labelled("immich_unreachable: ", d),
            CycleError::Yolo(d) => labelled("yolo_failed: ", d),
            CycleError::Io(d) => labelled("io_error: ", d),
            CycleError::Db(d) => labelled("db_error: ", d),
            CycleError::Decisions(d) => labelled("db_error: ", d),
            CycleError::ManagedAlbumNameMissing(_) => String::from_str("managed_album_name_missing"),
        }
    }
}

/// Whether a pass logs a line per asset, or only the album summary.
#[derive(Debug, Clone, Copy, PartialEq, Eq, Structural)]
pub enum EventVerbosity {
    Verbose,
    SummaryOnly,
}

impl EventVerbosity {
    /// Per-asset `Matched` / `Skipped` lines are logged.
    pub fn emits_per_asset(self) -> (r: bool)
        ensures
            r == (self == EventVerbosity::Verbose),
    {
        match self {
            EventVerbosity::Verbose => true,
            EventVerbosity::SummaryOnly => false,
        }
    }
}

/// Summary of a recorded run.
#[derive(Debug, Clone, PartialEq, Eq)]
pub struct RunOutcome {
    pub run_id: String,
    pub evaluated: i64,
    pub added: i64,
    pub skipped: i64,
}

/// Outcome counts of one pass.
#[derive(Debug, Clone, Copy, Default, PartialEq, Eq)]
pub struct MatchCounts {
    pub evaluated: i64,
    pub added: i64,
    pub skipped: i64,
}

/// One row of the asset index, in the engine's terms.
#[derive(Debug, Clone, PartialEq)]
pub struct IndexedAsset {
    pub asset_id: String,
    pub filename: String,
    pub asset_type: AssetType,
    /// Unix seconds at which the asset was taken.
    pub taken_at: Option<i64>,
    pub gps: Option<(FloatBits, FloatBits)>,
    pub person_ids: Vec<String>,
}

/// The asset kind of the index's `media_type` text: `video` is a video,
/// anything else is handled as a photo.
pub fn asset_type_from_media(media_type: &str) -> (t: AssetType)
    ensures
        t == (if media_type@ == "video"@ {
            AssetType::Video
        } else {
            AssetType::Photo
        }),
{
    if str_eq(media_type, "video") {
        AssetType::Video
    } else {
        AssetType::Photo
    }
}

/// The instant `secs` seconds after the Unix epoch, in UTC.
pub open spec fn epoch_instant(secs: i64) -> Timestamp {
    Timestamp { secs, nanos: 0, offset_secs: 0 }
}

/// The engine snapshot of an index row; the person count is not known yet.
pub fn snapshot_from_index(asset: &IndexedAsset) -> (s: AssetSnapshot)
    ensures
        s.id == asset.asset_id,
        s.asset_type == asset.asset_type,
        s.taken_at == (match asset.taken_at {
            Some(t) => Some(epoch_instant(t)),
            None => None,
        }),
        s.gps == asset.gps,
        s.face_person_ids@ == asset.person_ids@,
        s.yolo_person_count is None,
{
    let taken_at = match asset.taken_at {
        Some(t) => Some(Timestamp { secs: t, nanos: 0, offset_secs: 0 }),
        None => None,
    };
    AssetSnapshot {
        id: asset.asset_id.clone(),
        asset_type: asset.asset_type,
        taken_at,
        gps: asset.gps,
        face_person_ids: crate::engine_cycle::copy_ids(&asset.person_ids),
        yolo_person_count: None,
    }
}

/// A copy of a list of ids.
pub fn copy_ids(v: &Vec<String>) -> (out: Vec<String>)
    ensures
        out@ == v@,
{
    let mut out: Vec<String> = Vec::new();
    let mut i: usize = 0;
    while i < v.len()
        invariant
            i <= v.len(),
            out@ == v@.take(i as int),
        decreases v.len() - i,
    {
        out.push(v[i].clone());
        assert(out@ =~= v@.take(i + 1));
        i += 1;
    }
    assert(v@.take(v.len() as int) =~= v@);
    out
}

/// Whether a second evaluation with the inferred person count is needed:
/// only for a tree that can ask for the count, when the first evaluation
/// stopped for want of it.
pub fn needs_person_count(tree_requires_yolo: bool, first: &PredicateOutcome) -> (r: bool)
    ensures
        r == (tree_requires_yolo && first.reason == DecisionReason::YoloUnimplemented),
{
    tree_requires_yolo && matches!(first.reason, DecisionReason::YoloUnimplemented)
}

/// The recorded `(decision, reason)` columns of a outcome: `added` or
/// `skipped`, and the reason slug.
pub fn decision_columns(outcome: &PredicateOutcome) -> (c: (&'static str, &'static str))
    ensures
        c.0@ == (if outcome.matched {
            "added"@
        } else {
            "skipped"@
        }),
        c.1@ == reason_slug(outcome.reason),
{
    let decision = if outcome.matched {
        "added"
    } else {
        "skipped"
    };
    (decision, outcome.reason.slug())
}

/// The ids of the assets whose outcome is a match, in order.
pub open spec fn matched_ids_of(assets: Seq<IndexedAsset>, outcomes: Seq<PredicateOutcome>) -> Seq<Seq<char>>
    decreases assets.len(),
{
    if assets.len() == 0 || outcomes.len() != assets.len() {
        Seq::empty()
    } else {
        let front = matched_ids_of(assets.drop_last(), outcomes.drop_last());
        if outcomes.last().matched {
            front.push(assets.last().asset_id@)
        } else {
            front
        }
    }
}

/// The ids of the matched assets (`outcomes[i]` is the outcome on
/// `assets[i]`), in order.
pub fn matched_ids(assets: &Vec<IndexedAsset>, outcomes: &Vec<PredicateOutcome>) -> (out: Vec<String>)
    requires
        assets.len() == outcomes.len(),
    ensures
        out@.map_values(|s: String| s@) == matched_ids_of(assets@, outcomes@),
{
    let mut out: Vec<String> = Vec::new();
    let mut i: usize = 0;
    while i < assets.len()
        invariant
            i <= assets.len(),
            assets.len() == outcomes.len(),
            out@.map_values(|s: String| s@) == matched_ids_of(assets@.take(i as int), outcomes@.take(i as int)),
        decreases assets.len() - i,
    {
        assert(assets@.take(i + 1).drop_last() =~= assets@.take(i as int));
        assert(outcomes@.take(i + 1).drop_last() =~= outcomes@.take(i as int));
        if outcomes[i].matched {
            out.push(assets[i].asset_id.clone());
        }
        assert(out@.map_values(|s: String| s@) =~= matched_ids_of(assets@.take(i + 1), outcomes@.take(i + 1)));
        i += 1;
    }
    assert(assets@.take(assets.len() as int) =~= assets@);
    assert(outcomes@.take(outcomes.len() as int) =~= outcomes@);
    out
}

/// Number of matches among `outcomes`.
pub open spec fn match_count(outcomes: Seq<PredicateOutcome>) -> int
    decreases outcomes.len(),
{
    if outcomes.len() == 0 {
        0
    } else {
        match_count(outcomes.drop_last()) + if outcomes.last().matched {
            1int
        } else {
            0int
        }
    }
}

/// `match_count` lies between 0 and the number of outcomes.
pub proof fn lemma_match_count_bounds(outcomes: Seq<PredicateOutcome>)
    ensures
        0 <= match_count(outcomes) <= outcomes.len(),
    decreases outcomes.len(),
{
    if outcomes.len() > 0 {
        lemma_match_count_bounds(outcomes.drop_last());
    }
}

/// Counts the outcomes of a pass: every outcome is evaluated, and is either
/// added or skipped.
pub fn tally(outcomes: &Vec<PredicateOutcome>) -> (c: MatchCounts)
    requires
        outcomes.len() <= i64::MAX,
    ensures
        c.evaluated == outcomes.len(),
        c.added == match_count(outcomes@),
        c.skipped == outcomes.len() - match_count(outcomes@),
        c.evaluated == c.added + c.skipped,
{
    let mut counts = MatchCounts { evaluated: 0, added: 0, skipped: 0 };
    let mut i: usize = 0;
    while i < outcomes.len()
        invariant
            i <= outcomes.len(),
            outcomes.len() <= i64::MAX,
            counts.evaluated == i,
            counts.added == match_count(outcomes@.take(i as int)),
            counts.skipped == i - match_count(outcomes@.take(i as int)),
        decreases outcomes.len() - i,
    {
        assert(outcomes@.take(i + 1).drop_last() =~= outcomes@.take(i as int));
        proof {
            lemma_match_count_bounds(outcomes@.take(i as int));
        }
        counts.evaluated = counts.evaluated + 1;
        if outcomes[i].matched {
            counts.added = counts.added + 1;
        } else {
            counts.skipped = counts.skipped + 1;
        }
        i += 1;
    }
    assert(outcomes@.take(outcomes.len() as int) =~= outcomes@);
    counts
}

/// Whether the album must be read at all: not when nothing matched and the
/// rule never filed anything (nothing to add, nothing that could have been
/// removed).
pub fn album_fill_needed(matched_count: usize, prior_added_count: usize) -> (r: bool)
    ensures
        r == !(matched_count == 0 && prior_added_count == 0),
{
    !(matched_count == 0 && prior_added_count == 0)
}

/// The managed album's name from its stored column, when set and non-empty.
pub fn managed_name_from_column(column: &Option<String>) -> (r: Option<String>)
    ensures
        r == (match *column {
            Some(n) => if n@.len() > 0 {
                Some(n)
            } else {
                None
            },
            None => None,
        }),
{
    match column {
        Some(n) => {
            if n.as_str().is_empty() {
                None
            } else {
                Some(n.clone())
            }
        },
        None => None,
    }
}

/// The managed album's name from a rule's target, when it is a managed
/// album with a non-empty name.
pub fn managed_name_from_target(target: &TargetAlbum) -> (r: Option<String>)
    ensures
        r == (match *target {
            TargetAlbum::Managed { name, .. } => if name@.len() > 0 {
                Some(name)
            } else {
                None
            },
            TargetAlbum::Existing { .. } => None,
        }),
{
    match target {
        TargetAlbum::Managed { name, .. } => {
            if name.as_str().is_empty() {
                None
            } else {
                Some(name.clone())
            }
        },
        TargetAlbum::Existing { .. } => None,
    }
}

/// Where a pass files its matches, before any Immich call.
#[derive(Debug, Clone, PartialEq, Eq)]
pub enum TargetStep {
    /// The album is known.
    Album(String),
    /// No album: the pass records decisions only.
    NoAlbum,
    /// A managed album not resolved yet: find it by name, or create it.
    FindManaged,
}

/// The first step of resolving a rule's album from its stored columns: a
/// stored album id is used as is; otherwise a managed rule must find (or
/// create) its album, and any other rule has none.
pub fn target_step(target_album_id: &str, target_album_strategy: &str) -> (s: TargetStep)
    ensures
        target_album_id@.len() > 0 ==> (s matches TargetStep::Album(id) && id@ == target_album_id@),
        target_album_id@.len() == 0 && target_album_strategy@ == "managed"@ ==> s == TargetStep::FindManaged,
        target_album_id@.len() == 0 && target_album_strategy@ != "managed"@ ==> s == TargetStep::NoAlbum,
{
    if !target_album_id.is_empty() {
        return TargetStep::Album(target_album_id.to_owned());
    }
    if str_eq(target_album_strategy, "managed") {
        TargetStep::FindManaged
    } else {
        TargetStep::NoAlbum
    }
}

/// `album` can hold a managed rule's matches under `name`: same name, and
/// the owner may write to it.
pub open spec fn fits_managed(album: ImmichAlbumSummary, name: Seq<char>) -> bool {
    album.name@ == name && album.is_writable
}

/// The id of the first album the owner may write to that is named `name`;
/// none means the album must be created.
pub fn find_managed_album(albums: &Vec<ImmichAlbumSummary>, name: &str) -> (r: Option<String>)
    ensures
        match r {
            Some(id) => exists|i: int|
                0 <= i < albums@.len() && fits_managed(#[trigger] albums@[i], name@) && albums@[i].id == id
                    && forall|j: int| 0 <= j < i ==> !fits_managed(#[trigger] albums@[j], name@),
            None => forall|i: int| 0 <= i < albums@.len() ==> !fits_managed(#[trigger] albums@[i], name@),
        },
{
    let mut i: usize = 0;
    while i < albums.len()
        invariant
            i <= albums@.len(),
            forall|j: int| 0 <= j < i ==> !fits_managed(#[trigger] albums@[j], name@),
        decreases albums@.len() - i,
    {
        let a = &albums[i];
        if a.is_writable && str_eq(a.name.as_str(), name) {
            let id = a.id.clone();
            assert(fits_managed(albums@[i as int], name@));
            return Some(id);
        }
        i += 1;
    }
    None
}

// ---------------------------------------------------------------------------
// One matching pass.
// ---------------------------------------------------------------------------

/// The recorded decision on one asset.
#[derive(Debug, Clone, PartialEq, Eq)]
pub struct DecisionCols {
    pub asset_id: String,
    /// `added` or `skipped`.
    pub decision: &'static str,
    /// The reason slug.
    pub reason: &'static str,
}

/// What a pass records and publishes, once every candidate was evaluated.
#[derive(Debug, Clone, PartialEq)]
pub struct MatchPassPlan {
    pub counts: MatchCounts,
    /// One decision per candidate, in candidate order.
    pub decisions: Vec<DecisionCols>,
    /// The matched ids, in candidate order: what the album should hold.
    pub matched_ids: Vec<String>,
    /// The per-asset live-log events, when the pass is verbose.
    pub events: Vec<ActivityKind>,
}

/// The per-asset event of a pass of rule `(rule_id, rule_name)` on `a`.
pub open spec fn pass_event(
    rule_id: Seq<char>,
    rule_name: Seq<char>,
    a: IndexedAsset,
    o: PredicateOutcome,
) -> ActivityKindV {
    if o.matched {
        ActivityKindV::Matched { rule_id, rule_name, asset_id: a.asset_id@, filename: Some(a.filename@) }
    } else {
        ActivityKindV::Skipped {
            rule_id,
            rule_name,
            asset_id: a.asset_id@,
            filename: Some(a.filename@),
            reason: reason_slug(o.reason),
        }
    }
}

/// `d` records outcome `o` on asset `a`.
pub open spec fn records(d: DecisionCols, a: IndexedAsset, o: PredicateOutcome) -> bool {
    &&& d.asset_id@ == a.asset_id@
    &&& d.decision@ == (if o.matched {
        "added"@
    } else {
        "skipped"@
    })
    &&& d.reason@ == reason_slug(o.reason)
}

/// Plans the writes of a pass of rule `(rule_id, rule_name)` over
/// `candidates`, where `outcomes[i]` is the outcome on `candidates[i]`: the
/// counts, one decision per candidate (`added` exactly when it matched,
/// with the reason slug), the matched ids in order, and a `matched` or
/// `skipped` event per asset exactly when the verbosity asks for them.
pub fn plan_match_pass(
    rule_id: &str,
    rule_name: &str,
    candidates: &Vec<IndexedAsset>,
    outcomes: &Vec<PredicateOutcome>,
    verbosity: EventVerbosity,
) -> (p: MatchPassPlan)
    requires
        candidates.len() == outcomes.len(),
        outcomes.len() <= i64::MAX,
    ensures
        p.counts.evaluated == outcomes.len(),
        p.counts.added == match_count(outcomes@),
        p.counts.skipped == outcomes.len() - match_count(outcomes@),
        p.decisions@.len() == candidates@.len(),
        forall|i: int| 0 <= i < candidates@.len() ==> records(#[trigger] p.decisions@[i], candidates@[i], outcomes@[i]),
        p.matched_ids@.map_values(|s: String| s@) == matched_ids_of(candidates@, outcomes@),
        verbosity == EventVerbosity::Verbose ==> p.events@.len() == candidates@.len() && forall|i: int|
            0 <= i < candidates@.len() ==> (#[trigger] p.events@[i])@ == pass_event(
                rule_id@,
                rule_name@,
                candidates@[i],
                outcomes@[i],
            ),
        verbosity != EventVerbosity::Verbose ==> p.events@.len() == 0,
{
    let counts = tally(outcomes);
    let ids = matched_ids(candidates, outcomes);
    let verbose = verbosity.emits_per_asset();
    let mut decisions: Vec<DecisionCols> = Vec::new();
    let mut events: Vec<ActivityKind> = Vec::new();
    let mut i: usize = 0;
    while i < candidates.len()
        invariant
            i <= candidates@.len(),
            candidates.len() == outcomes.len(),
            verbose == (verbosity == EventVerbosity::Verbose),
            decisions@.len() == i,
            forall|j: int| 0 <= j < i ==> records(#[trigger] decisions@[j], candidates@[j], outcomes@[j]),
            verbose ==> events@.len() == i,
            !verbose ==> events@.len() == 0,
            verbose ==> forall|j: int|
                0 <= j < i ==> (#[trigger] events@[j])@ == pass_event(rule_id@, rule_name@, candidates@[j], outcomes@[j]),
        decreases candidates@.len() - i,
    {
        let a = &candidates[i];
        let o = &outcomes[i];
        let (decision, reason) = decision_columns(o);
        decisions.push(DecisionCols { asset_id: a.asset_id.clone(), decision, reason });
        if verbose {
            let kind = if o.matched {
                ActivityKind::Matched {
                    rule_id: rule_id.to_owned(),
                    rule_name: rule_name.to_owned(),
                    asset_id: a.asset_id.clone(),
                    filename: Some(a.filename.clone()),
                }
            } else {
                ActivityKind::Skipped {
                    rule_id: rule_id.to_owned(),
                    rule_name: rule_name.to_owned(),
                    asset_id: a.asset_id.clone(),
                    filename: Some(a.filename.clone()),
                    reason: reason.to_owned(),
                }
            };
            events.push(kind);
        }
        i += 1;
    }
    MatchPassPlan { counts, decisions, matched_ids: ids, events }
}

/// The rule-level live-log event after a pass filed `filled` assets into
/// `album_id`: an `album_add` line exactly when something was filed.
pub fn album_add_event(rule_id: &str, rule_name: &str, album_id: &str, filled: usize) -> (e: Option<ActivityKind>)
    requires
        filled <= i64::MAX,
    ensures
        e is Some <==> filled > 0,
        e matches Some(k) ==> k@ == (ActivityKindV::AlbumAdd {
            rule_id: rule_id@,
            rule_name: rule_name@,
            album_id: album_id@,
            added_count: filled as i64,
        }),
{
    if filled == 0 {
        return None;
    }
    Some(ActivityKind::AlbumAdd {
        rule_id: rule_id.to_owned(),
        rule_name: rule_name.to_owned(),
        album_id: album_id.to_owned(),
        added_count: filled as i64,
    })
}

} // verus!
