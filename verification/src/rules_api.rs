//! The decisions of the rules API: request checks, the lifecycle status
//! strings, the stored columns of a rule, paging of the decision and run
//! listings, and the status and slug of each refusal.
//!
//! Every refusal is answered with a status and a stable slug; the HTTP layer
//! renders `{"error": slug, "detail": ...}`.

use vstd::prelude::*;

use crate::activity::copy_text;
use crate::schema::{Rule, RuleStatus, TargetAlbum, TargetAlbumKind};
use crate::text::{str_eq, trim_text, trimmed};
use crate::validator::{ValidationError, ValidationErrorV};

verus! {

broadcast use vstd::std_specs::vec::group_vec_axioms;

/// Poll cadence of a new rule that names none.
pub const DEFAULT_POLL_INTERVAL_SECONDS: i64 = 300;

/// Shortest poll cadence an operator may set (1 minute).
pub const MIN_POLL_INTERVAL_SECONDS: i64 = 60;

/// Longest poll cadence an operator may set (24 hours).
pub const MAX_POLL_INTERVAL_SECONDS: i64 = 86_400;

/// Page size of the decision listing when none is asked for.
pub const DECISIONS_DEFAULT_LIMIT: i64 = 25;

/// Largest page size of the decision listing.
pub const DECISIONS_MAX_LIMIT: i64 = 100;

/// Page size of the run listing when none is asked for.
pub const RUNS_DEFAULT_LIMIT: i64 = 20;

/// Largest page size of the run listing.
pub const RUNS_MAX_LIMIT: i64 = 100;

/// Body of `POST /api/v1/rules`.
#[derive(Debug, Clone, PartialEq)]
pub struct CreateRuleRequest {
    pub yaml_source: String,
    pub poll_interval_seconds: Option<i64>,
}

/// Body of `PATCH /api/v1/rules/:id`.
#[derive(Debug, Clone, PartialEq)]
pub struct UpdateRuleRequest {
    pub yaml_source: Option<String>,
    pub status: Option<String>,
    pub poll_interval_seconds: Option<i64>,
}

/// Query of the decision listing; `reason` is a comma-separated list of
/// reason slugs.
#[derive(Debug, Clone, PartialEq)]
pub struct DecisionsQuery {
    pub limit: Option<i64>,
    pub offset: Option<i64>,
    pub reason: Option<String>,
}

/// Query of the run listing.
#[derive(Debug, Clone, PartialEq)]
pub struct RunsQuery {
    pub limit: Option<i64>,
    pub offset: Option<i64>,
}

/// A rule as listed.
#[derive(Debug, Clone, PartialEq)]
pub struct RuleSummary {
    pub id: String,
    pub name: String,
    pub status: String,
    pub target_album_strategy: String,
    pub updated_at: i64,
}

/// A refused rules-API request.
#[derive(Debug, Clone, PartialEq)]
pub enum RuleApiError {
    /// `poll_interval_seconds` outside `[60, 86400]`.
    InvalidPollInterval { value: i64 },
    /// A patch that changes nothing.
    EmptyPatch,
    /// The id in the YAML is not the id in the path.
    IdMismatch { path_id: String, yaml_id: String },
    /// A status other than `active`, `paused` or `archived`.
    InvalidStatus { value: String },
    /// A page size outside `[1, max]`.
    LimitTooLarge { limit: i64, max: i64 },
    /// A negative offset.
    InvalidOffset,
}

impl RuleApiError {
    /// Stable slug of the refusal.
    pub fn slug(&self) -> (s: &'static str)
        ensures
            s@ == (match self {
                RuleApiError::InvalidPollInterval { .. } => "invalid_poll_interval"@,
                RuleApiError::EmptyPatch => "empty_patch"@,
                RuleApiError::IdMismatch { .. } => "id_mismatch"@,
                RuleApiError::InvalidStatus { .. } => "invalid_status"@,
                RuleApiError::LimitTooLarge { .. } => "limit_too_large"@,
                RuleApiError::InvalidOffset => "invalid_offset"@,
            }),
    {
        match self {
            RuleApiError::InvalidPollInterval { .. } => "invalid_poll_interval",
            RuleApiError::EmptyPatch => "empty_patch",
            RuleApiError::IdMismatch { .. } => "id_mismatch",
            RuleApiError::InvalidStatus { .. } => "invalid_status",
            RuleApiError::LimitTooLarge { .. } => "limit_too_large",
            RuleApiError::InvalidOffset => "invalid_offset",
        }
    }

    /// HTTP status of the refusal: every one is a bad request.
    pub fn status_code(&self) -> (c: u16)
        ensures
            c == 400,
    {
        400
    }
}

/// `value` is an allowed poll cadence.
pub open spec fn poll_interval_ok(value: i64) -> bool {
    MIN_POLL_INTERVAL_SECONDS <= value && value <= MAX_POLL_INTERVAL_SECONDS
}

/// Accepts a poll cadence in `[60, 86400]` seconds.
pub fn validate_poll_interval(value: i64) -> (r: Result<(), RuleApiError>)
    ensures
        r is Ok <==> poll_interval_ok(value),
        r matches Err(e) ==> e == (RuleApiError::InvalidPollInterval { value }),
{
    if !(MIN_POLL_INTERVAL_SECONDS <= value && value <= MAX_POLL_INTERVAL_SECONDS) {
        return Err(RuleApiError::InvalidPollInterval { value });
    }
    Ok(())
}

/// The poll cadence of a new rule: the requested one, or the default, once
/// checked.
pub fn create_poll_interval(requested: Option<i64>) -> (r: Result<i64, RuleApiError>)
    ensures
        ({
            let v = match requested {
                Some(v) => v,
                None => DEFAULT_POLL_INTERVAL_SECONDS,
            };
            &&& r is Ok <==> poll_interval_ok(v)
            &&& r matches Ok(x) ==> x == v
            &&& r matches Err(e) ==> e == (RuleApiError::InvalidPollInterval { value: v })
        }),
{
    let v = match requested {
        Some(v) => v,
        None => DEFAULT_POLL_INTERVAL_SECONDS,
    };
    match validate_poll_interval(v) {
        Ok(()) => Ok(v),
        Err(e) => Err(e),
    }
}

/// The lifecycle status written `s`, if any.
pub open spec fn status_named(s: Seq<char>) -> Option<RuleStatus> {
    if s == "active"@ {
        Some(RuleStatus::Active)
    } else if s == "paused"@ {
        Some(RuleStatus::Paused)
    } else if s == "archived"@ {
        Some(RuleStatus::Archived)
    } else {
        None
    }
}

/// Reads a lifecycle status: `active`, `paused` or `archived`.
pub fn parse_status_str(s: &str) -> (r: Option<RuleStatus>)
    ensures
        r == status_named(s@),
{
    if str_eq(s, "active") {
        Some(RuleStatus::Active)
    } else if str_eq(s, "paused") {
        Some(RuleStatus::Paused)
    } else if str_eq(s, "archived") {
        Some(RuleStatus::Archived)
    } else {
        None
    }
}

/// Reads a lifecycle status, refusing an unknown one.
pub fn require_status(s: &str) -> (r: Result<RuleStatus, RuleApiError>)
    ensures
        match status_named(s@) {
            Some(st) => r == Ok::<RuleStatus, RuleApiError>(st),
            None => r matches Err(RuleApiError::InvalidStatus { value }) && value@ == s@,
        },
{
    match parse_status_str(s) {
        Some(st) => Ok(st),
        None => Err(RuleApiError::InvalidStatus { value: s.to_owned() }),
    }
}

/// Checks a patch before anything is read: it must change something, and a
/// new poll cadence must be allowed.
pub fn check_patch(req: &UpdateRuleRequest) -> (r: Result<(), RuleApiError>)
    ensures
        req.yaml_source is None && req.status is None && req.poll_interval_seconds is None
            ==> r == Err::<(), RuleApiError>(RuleApiError::EmptyPatch),
        !(req.yaml_source is None && req.status is None && req.poll_interval_seconds is None) ==> match req.poll_interval_seconds {
            Some(v) => (r is Ok <==> poll_interval_ok(v)) && (r matches Err(e) ==> e
                == (RuleApiError::InvalidPollInterval { value: v })),
            None => r is Ok,
        },
{
    if req.yaml_source.is_none() && req.status.is_none() && req.poll_interval_seconds.is_none() {
        return Err(RuleApiError::EmptyPatch);
    }
    if let Some(v) = req.poll_interval_seconds {
        return validate_poll_interval(v);
    }
    Ok(())
}

/// Makes the path id the rule's id: a YAML id that differs from it is
/// refused, a missing one is filled in.
pub fn adopt_path_id(rule: &mut Rule, path_id: &str) -> (r: Result<(), RuleApiError>)
    ensures
        match old(rule).id {
            Some(yaml_id) => if yaml_id@ == path_id@ {
                &&& r is Ok
                &&& *final(rule) == *old(rule)
            } else {
                &&& r matches Err(RuleApiError::IdMismatch { path_id: p, yaml_id: y }) && p@ == path_id@ && y@ == yaml_id@
                &&& *final(rule) == *old(rule)
            },
            None => {
                &&& r is Ok
                &&& final(rule).id matches Some(id) && id@ == path_id@
                &&& final(rule).name == old(rule).name
                &&& final(rule).target_album == old(rule).target_album
                &&& final(rule).match_ == old(rule).match_
                &&& final(rule).status == old(rule).status
            },
        },
{
    match &rule.id {
        Some(yaml_id) => {
            if str_eq(yaml_id.as_str(), path_id) {
                Ok(())
            } else {
                Err(RuleApiError::IdMismatch { path_id: path_id.to_owned(), yaml_id: yaml_id.clone() })
            }
        },
        None => {
            rule.id = Some(path_id.to_owned());
            Ok(())
        },
    }
}

/// Gives a new rule without an id the server-minted `fresh_id`; an id the
/// author wrote is kept. Done before validation, so the slug check covers
/// both.
pub fn fill_missing_id(rule: &mut Rule, fresh_id: String)
    ensures
        final(rule).id == (match old(rule).id {
            Some(id) => Some(id),
            None => Some(fresh_id),
        }),
        final(rule).name == old(rule).name,
        final(rule).target_album == old(rule).target_album,
        final(rule).match_ == old(rule).match_,
        final(rule).status == old(rule).status,
{
    if rule.id.is_none() {
        rule.id = Some(fresh_id);
    }
}

/// The status a patch leaves on a re-parsed rule: the body's status wins
/// over the YAML's.
pub fn patched_status(yaml_status: RuleStatus, body_status: Option<&str>) -> (r: Result<RuleStatus, RuleApiError>)
    ensures
        match body_status {
            None => r == Ok::<RuleStatus, RuleApiError>(yaml_status),
            Some(s) => match status_named(s@) {
                Some(st) => r == Ok::<RuleStatus, RuleApiError>(st),
                None => r matches Err(RuleApiError::InvalidStatus { value }) && value@ == s@,
            },
        },
{
    match body_status {
        None => Ok(yaml_status),
        Some(s) => require_status(s),
    }
}

/// The stored columns of a rule's target and status.
#[derive(Debug, Clone, PartialEq)]
pub struct RuleColumns {
    /// `existing` or `managed`.
    pub target_album_strategy: &'static str,
    /// The existing album's id; empty for a managed album.
    pub target_album_id: String,
    /// The managed album's name; none for an existing album.
    pub managed_album_name: Option<String>,
    /// The lifecycle status as stored.
    pub status: &'static str,
}

/// Computes the stored columns of `rule`.
pub fn rule_columns(rule: &Rule) -> (c: RuleColumns)
    ensures
        c.target_album_strategy@ == (match rule.target_album {
            TargetAlbum::Existing { .. } => "existing"@,
            TargetAlbum::Managed { .. } => "managed"@,
        }),
        c.target_album_id@ == (match rule.target_album {
            TargetAlbum::Existing { album_id } => album_id@,
            TargetAlbum::Managed { .. } => Seq::<char>::empty(),
        }),
        c.managed_album_name == (match rule.target_album {
            TargetAlbum::Managed { name, .. } => Some(name),
            TargetAlbum::Existing { .. } => None,
        }),
        c.status@ == (match rule.status {
            RuleStatus::Active => "active"@,
            RuleStatus::Archived => "archived"@,
            RuleStatus::Paused => "paused"@,
        }),
{
    let strategy = rule.target_album.kind().as_str();
    let (album_id, managed_name) = match &rule.target_album {
        TargetAlbum::Existing { album_id } => (album_id.clone(), None),
        TargetAlbum::Managed { name, .. } => (String::new(), Some(name.clone())),
    };
    RuleColumns {
        target_album_strategy: strategy,
        target_album_id: album_id,
        managed_album_name: managed_name,
        status: rule.status.as_str(),
    }
}

/// The listed form of a rule just written with `columns` at `updated_at`.
pub fn rule_summary(id: String, name: String, columns: &RuleColumns, updated_at: i64) -> (s: RuleSummary)
    ensures
        s.id == id,
        s.name == name,
        s.status@ == columns.status@,
        s.target_album_strategy@ == columns.target_album_strategy@,
        s.updated_at == updated_at,
{
    RuleSummary {
        id,
        name,
        status: columns.status.to_owned(),
        target_album_strategy: columns.target_album_strategy.to_owned(),
        updated_at,
    }
}

/// The page a listing asks for: the limit defaults to `default_limit` and
/// must lie in `[1, max_limit]`; the offset defaults to 0 and must not be
/// negative.
pub fn page_window(limit: Option<i64>, offset: Option<i64>, default_limit: i64, max_limit: i64) -> (r: Result<(i64, i64), RuleApiError>)
    ensures
        ({
            let l = match limit {
                Some(v) => v,
                None => default_limit,
            };
            let o = match offset {
                Some(v) => v,
                None => 0,
            };
            &&& !(1 <= l && l <= max_limit) ==> r == Err::<(i64, i64), RuleApiError>(
                (RuleApiError::LimitTooLarge { limit: l, max: max_limit }),
            )
            &&& (1 <= l && l <= max_limit && o < 0) ==> r == Err::<(i64, i64), RuleApiError>(
                RuleApiError::InvalidOffset,
            )
            &&& (1 <= l && l <= max_limit && o >= 0) ==> r == Ok::<(i64, i64), RuleApiError>((l, o))
        }),
{
    let l = match limit {
        Some(v) => v,
        None => default_limit,
    };
    let o = match offset {
        Some(v) => v,
        None => 0,
    };
    if !(1 <= l && l <= max_limit) {
        return Err(RuleApiError::LimitTooLarge { limit: l, max: max_limit });
    }
    if o < 0 {
        return Err(RuleApiError::InvalidOffset);
    }
    Ok((l, o))
}

/// The pieces of `s` between commas, in order (`split(',')`).
pub open spec fn comma_pieces(s: Seq<char>) -> Seq<Seq<char>>
    decreases s.len(),
{
    if s.len() == 0 {
        seq![Seq::<char>::empty()]
    } else {
        let front = comma_pieces(s.drop_last());
        if s.last() == ',' {
            front.push(Seq::<char>::empty())
        } else {
            front.update(front.len() - 1, front.last().push(s.last()))
        }
    }
}

/// The reason filter of a decision listing: the comma-separated pieces,
/// trimmed, without the empty ones; no filter without the parameter.
pub open spec fn reason_filter(raw: Option<Seq<char>>) -> Seq<Seq<char>> {
    match raw {
        None => Seq::empty(),
        Some(s) => comma_pieces(s).map_values(|p: Seq<char>| trimmed(p)).filter(|p: Seq<char>| p.len() > 0),
    }
}

/// `comma_pieces` always yields at least one piece.
pub proof fn lemma_comma_pieces_nonempty(s: Seq<char>)
    ensures
        comma_pieces(s).len() >= 1,
    decreases s.len(),
{
    if s.len() > 0 {
        lemma_comma_pieces_nonempty(s.drop_last());
    }
}

/// Splits a reason filter on commas, trims each piece and drops the empty
/// ones.
pub fn parse_reason_filter(raw: Option<&str>) -> (out: Vec<String>)
    ensures
        out@.map_values(|s: String| s@) == reason_filter(match raw {
            Some(s) => Some(s@),
            None => None,
        }),
{
    match raw {
        None => {
            let out: Vec<String> = Vec::new();
            assert(out@.map_values(|s: String| s@) =~= Seq::<Seq<char>>::empty());
            out
        },
        Some(s) => split_and_trim(s),
    }
}

fn split_and_trim(s: &str) -> (out: Vec<String>)
    ensures
        out@.map_values(|x: String| x@) == comma_pieces(s@).map_values(|p: Seq<char>| trimmed(p)).filter(
            |p: Seq<char>| p.len() > 0,
        ),
{
    let cs = crate::text::chars_of(s);
    let n = cs.len();
    let ghost keep = |p: Seq<char>| p.len() > 0;
    let ghost trim_map = |p: Seq<char>| trimmed(p);
    let mut out: Vec<String> = Vec::new();
    let mut start: usize = 0;
    let mut i: usize = 0;
    proof {
        reveal_with_fuel(comma_pieces, 1);
        assert(s@.take(0) =~= Seq::<char>::empty());
        assert(comma_pieces(s@.take(0)).drop_last() =~= Seq::<Seq<char>>::empty());
        assert(out@.map_values(|x: String| x@) =~= Seq::<Seq<char>>::empty());
        assert(comma_pieces(s@.take(0)).drop_last().map_values(trim_map).filter(keep) =~= Seq::<Seq<char>>::empty()) by {
            reveal(Seq::filter);
        }
    }
    while i < n
        invariant
            cs@ == s@,
            n == cs.len(),
            start <= i <= n,
            keep == (|p: Seq<char>| p.len() > 0),
            trim_map == (|p: Seq<char>| trimmed(p)),
            comma_pieces(s@.take(i as int)).last() == s@.subrange(start as int, i as int),
            out@.map_values(|x: String| x@) == comma_pieces(s@.take(i as int)).drop_last().map_values(
                trim_map,
            ).filter(keep),
        decreases n - i,
    {
        let ghost pieces = comma_pieces(s@.take(i as int));
        proof {
            lemma_comma_pieces_nonempty(s@.take(i as int));
            assert(s@.take(i + 1).drop_last() =~= s@.take(i as int));
            assert(s@.take(i + 1).last() == cs@[i as int]);
        }
        if cs[i] == ',' {
            let piece = s.substring_char(start, i);
            let t = trim_text(piece);
            let ghost before = out@.map_values(|x: String| x@);
            if !t.is_empty() {
                out.push(t.to_owned());
            }
            proof {
                let next = comma_pieces(s@.take(i + 1));
                assert(next == pieces.push(Seq::<char>::empty()));
                assert(next.drop_last() =~= pieces);
                assert(pieces =~= pieces.drop_last().push(pieces.last()));
                reveal(Seq::filter);
                assert(pieces.map_values(trim_map) =~= pieces.drop_last().map_values(trim_map).push(
                    trimmed(pieces.last()),
                ));
                assert(pieces.map_values(trim_map).drop_last() =~= pieces.drop_last().map_values(trim_map));
                assert(out@.map_values(|x: String| x@) =~= pieces.map_values(trim_map).filter(keep));
                assert(next.last() =~= s@.subrange(i + 1, i + 1));
            }
            start = i + 1;
        } else {
            proof {
                let next = comma_pieces(s@.take(i + 1));
                assert(next == pieces.update(pieces.len() - 1, pieces.last().push(cs@[i as int])));
                assert(next.drop_last() =~= pieces.drop_last());
                assert(next.last() =~= s@.subrange(start as int, i + 1));
            }
        }
        i += 1;
    }
    let piece = s.substring_char(start, n);
    let t = trim_text(piece);
    if !t.is_empty() {
        out.push(t.to_owned());
    }
    proof {
        let pieces = comma_pieces(s@.take(n as int));
        assert(s@.take(n as int) =~= s@);
        lemma_comma_pieces_nonempty(s@);
        assert(pieces =~= pieces.drop_last().push(pieces.last()));
        reveal(Seq::filter);
        assert(pieces.map_values(trim_map) =~= pieces.drop_last().map_values(trim_map).push(trimmed(pieces.last())));
        assert(pieces.map_values(trim_map).drop_last() =~= pieces.drop_last().map_values(trim_map));
        assert(out@.map_values(|x: String| x@) =~= pieces.map_values(trim_map).filter(keep));
    }
    out
}

/// HTTP status of a semantic validation failure: 502 for a resolver
/// failure (retryable), 400 for a fault in the rule.
pub fn validation_error_status(e: &ValidationError) -> (c: u16)
    ensures
        c == (if e@ is Resolver {
            502u16
        } else {
            400u16
        }),
{
    match e {
        ValidationError::Resolver(_) => 502,
        _ => 400,
    }
}


// ---------------------------------------------------------------------------
// Listings: stored rows and the pages answered from them.
// ---------------------------------------------------------------------------

/// The latest stored outcome of a rule on one asset.
#[derive(Debug, Clone, PartialEq, Eq)]
pub struct DecisionRow {
    pub rule_id: String,
    pub asset_id: String,
    /// `matched` or `skipped`.
    pub decision: String,
    /// Reason slug of the outcome.
    pub reason: String,
    pub run_id: Option<String>,
    pub decided_at: i64,
}

/// One stored run of a rule.
#[derive(Debug, Clone, PartialEq, Eq)]
pub struct RuleRunRow {
    pub id: String,
    pub rule_id: String,
    pub started_at: i64,
    pub finished_at: Option<i64>,
    pub assets_evaluated: i64,
    pub assets_added: i64,
    pub assets_skipped: i64,
    pub error_message: Option<String>,
}

/// A decision as listed: the row without its rule id.
#[derive(Debug, Clone, PartialEq, Eq)]
pub struct DecisionItem {
    pub asset_id: String,
    pub decision: String,
    pub reason: String,
    pub run_id: Option<String>,
    pub decided_at: i64,
}

/// One page of a rule's decisions.
#[derive(Debug, Clone, PartialEq, Eq)]
pub struct DecisionsResponse {
    pub decisions: Vec<DecisionItem>,
    /// Number of decisions that pass the filter, over all pages.
    pub total: i64,
    pub limit: i64,
    pub offset: i64,
}

/// A run as listed: the row without its rule id.
#[derive(Debug, Clone, PartialEq, Eq)]
pub struct RunItem {
    pub id: String,
    pub started_at: i64,
    pub finished_at: Option<i64>,
    pub assets_evaluated: i64,
    pub assets_added: i64,
    pub assets_skipped: i64,
    pub error_message: Option<String>,
}

/// One page of a rule's runs.
#[derive(Debug, Clone, PartialEq, Eq)]
pub struct RunsResponse {
    pub runs: Vec<RunItem>,
    pub total: i64,
    pub limit: i64,
    pub offset: i64,
}

/// A rule in full, as stored.
#[derive(Debug, Clone, PartialEq, Eq)]
pub struct RuleDetail {
    pub id: String,
    pub name: String,
    pub yaml_source: String,
    pub status: String,
    pub target_album_strategy: String,
    pub target_album_id: String,
    pub poll_interval_seconds: i64,
    pub created_at: i64,
    pub updated_at: i64,
}

/// The caller's rules, most recently updated first.
#[derive(Debug, Clone, PartialEq)]
pub struct ListRulesResponse {
    pub rules: Vec<RuleSummary>,
}

/// The listed form of a decision row.
pub open spec fn decision_item_of(row: DecisionRow) -> DecisionItem {
    DecisionItem {
        asset_id: row.asset_id,
        decision: row.decision,
        reason: row.reason,
        run_id: row.run_id,
        decided_at: row.decided_at,
    }
}

/// The listed form of a run row.
pub open spec fn run_item_of(row: RuleRunRow) -> RunItem {
    RunItem {
        id: row.id,
        started_at: row.started_at,
        finished_at: row.finished_at,
        assets_evaluated: row.assets_evaluated,
        assets_added: row.assets_added,
        assets_skipped: row.assets_skipped,
        error_message: row.error_message,
    }
}

/// Lists a decision row: every field but the rule id, unchanged.
pub fn decision_item(row: &DecisionRow) -> (item: DecisionItem)
    ensures
        item == decision_item_of(*row),
{
    DecisionItem {
        asset_id: row.asset_id.clone(),
        decision: row.decision.clone(),
        reason: row.reason.clone(),
        run_id: copy_text(&row.run_id),
        decided_at: row.decided_at,
    }
}

/// Lists a run row: every field but the rule id, unchanged.
pub fn run_item(row: &RuleRunRow) -> (item: RunItem)
    ensures
        item == run_item_of(*row),
{
    RunItem {
        id: row.id.clone(),
        started_at: row.started_at,
        finished_at: row.finished_at,
        assets_evaluated: row.assets_evaluated,
        assets_added: row.assets_added,
        assets_skipped: row.assets_skipped,
        error_message: copy_text(&row.error_message),
    }
}

/// The page answered for `rows`, in their order, with the filtered total
/// and the window that was asked for.
pub fn decisions_response(rows: &Vec<DecisionRow>, total: i64, limit: i64, offset: i64) -> (r: DecisionsResponse)
    ensures
        r.decisions@ == rows@.map_values(|row: DecisionRow| decision_item_of(row)),
        r.total == total,
        r.limit == limit,
        r.offset == offset,
{
    let mut items: Vec<DecisionItem> = Vec::new();
    let mut i: usize = 0;
    while i < rows.len()
        invariant
            i <= rows@.len(),
            items@ == rows@.take(i as int).map_values(|row: DecisionRow| decision_item_of(row)),
        decreases rows@.len() - i,
    {
        items.push(decision_item(&rows[i]));
        proof {
            assert(rows@.take(i + 1).drop_last() =~= rows@.take(i as int));
        }
        i += 1;
        proof {
            assert(items@ =~= rows@.take(i as int).map_values(|row: DecisionRow| decision_item_of(row)));
        }
    }
    proof {
        assert(rows@.take(rows@.len() as int) =~= rows@);
    }
    DecisionsResponse { decisions: items, total, limit, offset }
}

/// The page answered for `rows`, in their order, with the total and the
/// window that was asked for.
pub fn runs_response(rows: &Vec<RuleRunRow>, total: i64, limit: i64, offset: i64) -> (r: RunsResponse)
    ensures
        r.runs@ == rows@.map_values(|row: RuleRunRow| run_item_of(row)),
        r.total == total,
        r.limit == limit,
        r.offset == offset,
{
    let mut items: Vec<RunItem> = Vec::new();
    let mut i: usize = 0;
    while i < rows.len()
        invariant
            i <= rows@.len(),
            items@ == rows@.take(i as int).map_values(|row: RuleRunRow| run_item_of(row)),
        decreases rows@.len() - i,
    {
        items.push(run_item(&rows[i]));
        proof {
            assert(rows@.take(i + 1).drop_last() =~= rows@.take(i as int));
        }
        i += 1;
        proof {
            assert(items@ =~= rows@.take(i as int).map_values(|row: RuleRunRow| run_item_of(row)));
        }
    }
    proof {
        assert(rows@.take(rows@.len() as int) =~= rows@);
    }
    RunsResponse { runs: items, total, limit, offset }
}

} // verus!
