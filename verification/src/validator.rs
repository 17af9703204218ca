//! Semantic validation of rules and match trees.
//!
//! Checks run first-error-wins, cheap in-memory checks first:
//!
//! - the rule `id`, when present, is a slug (`^[a-z0-9][a-z0-9-]{0,63}$`);
//! - the match tree is not empty;
//! - tree structure: depth at most [`MAX_TREE_DEPTH`], every group has at
//!   least two children, no `not` directly wraps a `not`;
//! - `person.mode = includes` appears only as the direct child of a `not`;
//! - leaf parameters: non-empty person id and media types, a date range with
//!   at least one bound and `from <= to`, latitude in `[-90, 90]`, longitude
//!   in `[-180, 180]`, radius in `(0, 20000]`;
//! - every referenced person id belongs to the owner's Immich account;
//! - an existing target album is writable by the owner.
//!
//! The last two checks need the owner's Immich data. The caller fetches it
//! when [`begin_rule_validation`] or [`resume_with_known_persons`] asks for
//! it and hands the answer back; the decisions stay here.

use vstd::prelude::*;

use crate::match_expr::{
    lemma_view_seq, tree_depth, max_depth, tree_person_ids, tree_is_empty, view_seq, ExprV, LeafV,
    MatchExpr, MatchLeaf, PersonMode, MAX_TREE_DEPTH,
};
use crate::schema::{float_key, instant_lt, FloatBits, Rule, TargetAlbum, Timestamp};
use crate::predicate::{contains_id, ids_contain};
use crate::text::chars_of;

verus! {

broadcast use vstd::std_specs::vec::group_vec_axioms;

/// Failure of the resolver that supplies the owner's Immich data: "could not
/// tell", as opposed to "wrong".
#[derive(Debug, Clone, PartialEq)]
pub enum ResolverError {
    /// The owner has not stored an Immich API key.
    NoApiKey,
    /// The stored key ciphertext does not decrypt under the current master key.
    DecryptFailed,
    /// Transport or upstream failure, with its description.
    Upstream(String),
}

/// Semantic validation outcome; each variant has a stable slug.
#[derive(Debug, Clone, PartialEq)]
pub enum ValidationError {
    EmptyMatch,
    InvalidRadius(FloatBits),
    InvalidDateRange { from: Timestamp, to: Timestamp },
    InvalidId(String),
    ForeignPersonId { id: String },
    UnwritableAlbum { album_id: String },
    MatchTreeTooDeep { depth: usize },
    RedundantGroup,
    DoubleNot,
    EmptyDateRange,
    InvalidLatitude(FloatBits),
    InvalidLongitude(FloatBits),
    EmptyPersonId,
    EmptyMediaTypes,
    IncludesOutsideNot,
    Resolver(ResolverError),
}

/// Mathematical view of a [`ResolverError`].
pub enum ResolverErrorV {
    NoApiKey,
    DecryptFailed,
    Upstream(Seq<char>),
}

/// Mathematical view of a [`ValidationError`].
pub enum ValidationErrorV {
    EmptyMatch,
    InvalidRadius(FloatBits),
    InvalidDateRange { from: Timestamp, to: Timestamp },
    InvalidId(Seq<char>),
    ForeignPersonId { id: Seq<char> },
    UnwritableAlbum { album_id: Seq<char> },
    MatchTreeTooDeep { depth: int },
    RedundantGroup,
    DoubleNot,
    EmptyDateRange,
    InvalidLatitude(FloatBits),
    InvalidLongitude(FloatBits),
    EmptyPersonId,
    EmptyMediaTypes,
    IncludesOutsideNot,
    Resolver(ResolverErrorV),
}

impl View for ResolverError {
    type V = ResolverErrorV;

    open spec fn view(&self) -> ResolverErrorV {
        match self {
            ResolverError::NoApiKey => ResolverErrorV::NoApiKey,
            ResolverError::DecryptFailed => ResolverErrorV::DecryptFailed,
            ResolverError::Upstream(s) => ResolverErrorV::Upstream(s@),
        }
    }
}

impl View for ValidationError {
    type V = ValidationErrorV;

    open spec fn view(&self) -> ValidationErrorV {
        match self {
            ValidationError::EmptyMatch => ValidationErrorV::EmptyMatch,
            ValidationError::InvalidRadius(r) => ValidationErrorV::InvalidRadius(*r),
            ValidationError::InvalidDateRange { from, to } => ValidationErrorV::InvalidDateRange {
                from: *from,
                to: *to,
            },
            ValidationError::InvalidId(s) => ValidationErrorV::InvalidId(s@),
            ValidationError::ForeignPersonId { id } => ValidationErrorV::ForeignPersonId { id: id@ },
            ValidationError::UnwritableAlbum { album_id } => ValidationErrorV::UnwritableAlbum {
                album_id: album_id@,
            },
            ValidationError::MatchTreeTooDeep { depth } => ValidationErrorV::MatchTreeTooDeep {
                depth: *depth as int,
            },
            ValidationError::RedundantGroup => ValidationErrorV::RedundantGroup,
            ValidationError::DoubleNot => ValidationErrorV::DoubleNot,
            ValidationError::EmptyDateRange => ValidationErrorV::EmptyDateRange,
            ValidationError::InvalidLatitude(x) => ValidationErrorV::InvalidLatitude(*x),
            ValidationError::InvalidLongitude(x) => ValidationErrorV::InvalidLongitude(*x),
            ValidationError::EmptyPersonId => ValidationErrorV::EmptyPersonId,
            ValidationError::EmptyMediaTypes => ValidationErrorV::EmptyMediaTypes,
            ValidationError::IncludesOutsideNot => ValidationErrorV::IncludesOutsideNot,
            ValidationError::Resolver(e) => ValidationErrorV::Resolver(e@),
        }
    }
}

/// The error of a check result, if any.
pub open spec fn error_of(r: Result<(), ValidationError>) -> Option<ValidationErrorV> {
    match r {
        Ok(_) => None,
        Err(e) => Some(e@),
    }
}

/// The stable API slug of each error: the variant name in snake case.
pub open spec fn error_slug(e: ValidationErrorV) -> Seq<char> {
    match e {
        ValidationErrorV::EmptyMatch => "empty_match"@,
        ValidationErrorV::InvalidRadius(_) => "invalid_radius"@,
        ValidationErrorV::InvalidDateRange { .. } => "invalid_date_range"@,
        ValidationErrorV::InvalidId(_) => "invalid_id"@,
        ValidationErrorV::ForeignPersonId { .. } => "foreign_person_id"@,
        ValidationErrorV::UnwritableAlbum { .. } => "unwritable_album"@,
        ValidationErrorV::MatchTreeTooDeep { .. } => "match_tree_too_deep"@,
        ValidationErrorV::RedundantGroup => "redundant_group"@,
        ValidationErrorV::DoubleNot => "double_not"@,
        ValidationErrorV::EmptyDateRange => "empty_date_range"@,
        ValidationErrorV::InvalidLatitude(_) => "invalid_latitude"@,
        ValidationErrorV::InvalidLongitude(_) => "invalid_longitude"@,
        ValidationErrorV::EmptyPersonId => "empty_person_id"@,
        ValidationErrorV::EmptyMediaTypes => "empty_media_types"@,
        ValidationErrorV::IncludesOutsideNot => "includes_outside_not"@,
        ValidationErrorV::Resolver(_) => "resolver_error"@,
    }
}

impl ValidationError {
    /// Stable machine-readable slug for the API `error` field.
    pub fn slug(&self) -> (s: &'static str)
        ensures
            s@ == error_slug(self@),
    {
        match self {
            ValidationError::EmptyMatch => "empty_match",
            ValidationError::InvalidRadius(_) => "invalid_radius",
            ValidationError::InvalidDateRange { .. } => "invalid_date_range",
            ValidationError::InvalidId(_) => "invalid_id",
            ValidationError::ForeignPersonId { .. } => "foreign_person_id",
            ValidationError::UnwritableAlbum { .. } => "unwritable_album",
            ValidationError::MatchTreeTooDeep { .. } => "match_tree_too_deep",
            ValidationError::RedundantGroup => "redundant_group",
            ValidationError::DoubleNot => "double_not",
            ValidationError::EmptyDateRange => "empty_date_range",
            ValidationError::InvalidLatitude(_) => "invalid_latitude",
            ValidationError::InvalidLongitude(_) => "invalid_longitude",
            ValidationError::EmptyPersonId => "empty_person_id",
            ValidationError::EmptyMediaTypes => "empty_media_types",
            ValidationError::IncludesOutsideNot => "includes_outside_not",
            ValidationError::Resolver(_) => "resolver_error",
        }
    }
}

// ---------------------------------------------------------------------------
// Rule id slugs.
// ---------------------------------------------------------------------------

/// A character allowed first in a slug: `[a-z0-9]`.
pub open spec fn slug_head_char(c: char) -> bool {
    ('a' <= c && c <= 'z') || ('0' <= c && c <= '9')
}

/// A character allowed after the first: `[a-z0-9-]`.
pub open spec fn slug_tail_char(c: char) -> bool {
    slug_head_char(c) || c == '-'
}

/// `s` matches `^[a-z0-9][a-z0-9-]{0,63}$`.
pub open spec fn slug_ok(s: Seq<char>) -> bool {
    &&& 1 <= s.len() <= 64
    &&& slug_head_char(s[0])
    &&& forall|i: int| 1 <= i < s.len() ==> #[trigger] slug_tail_char(s[i])
}

fn is_slug_head(c: char) -> (r: bool)
    ensures
        r == slug_head_char(c),
{
    ('a' <= c && c <= 'z') || ('0' <= c && c <= '9')
}

/// Whether `s` matches `^[a-z0-9][a-z0-9-]{0,63}$`.
pub fn is_valid_slug(s: &str) -> (r: bool)
    ensures
        r == slug_ok(s@),
{
    let cs = chars_of(s);
    let n = cs.len();
    if n == 0 || n > 64 {
        return false;
    }
    if !is_slug_head(cs[0]) {
        assert(!slug_head_char(s@[0]));
        return false;
    }
    let mut i: usize = 1;
    while i < n
        invariant
            cs@ == s@,
            n == cs@.len(),
            1 <= i <= n,
            forall|j: int| 1 <= j < i ==> #[trigger] slug_tail_char(cs@[j]),
        decreases n - i,
    {
        let c = cs[i];
        if !(is_slug_head(c) || c == '-') {
            assert(!slug_tail_char(s@[i as int]));
            return false;
        }
        i += 1;
    }
    true
}

// ---------------------------------------------------------------------------
// Leaf parameters.
// ---------------------------------------------------------------------------

/// [`crate::schema::float_key`] of 90.0.
pub const LATITUDE_LIMIT_KEY: i64 = 0x4056_8000_0000_0000;

/// [`crate::schema::float_key`] of 180.0.
pub const LONGITUDE_LIMIT_KEY: i64 = 0x4066_8000_0000_0000;

/// [`crate::schema::float_key`] of 20000.0, the largest radius in km.
pub const RADIUS_LIMIT_KEY: i64 = 0x40D3_8800_0000_0000;

/// `x` lies in `[-limit, limit]`, for the key `limit` of a positive bound.
pub open spec fn within_symmetric(x: FloatBits, limit: int) -> bool {
    -limit <= float_key(x.bits) && float_key(x.bits) <= limit
}

/// The first parameter error of a leaf, if any.
pub open spec fn leaf_error(l: LeafV) -> Option<ValidationErrorV> {
    match l {
        LeafV::Person { person_id, .. } => if person_id.len() == 0 {
            Some(ValidationErrorV::EmptyPersonId)
        } else {
            None
        },
        LeafV::DateRange { from, to } => if from is None && to is None {
            Some(ValidationErrorV::EmptyDateRange)
        } else if from is Some && to is Some && instant_lt(to->0, from->0) {
            Some(ValidationErrorV::InvalidDateRange { from: from->0, to: to->0 })
        } else {
            None
        },
        LeafV::Location { center, radius_km } => if !within_symmetric(center[0], LATITUDE_LIMIT_KEY as int) {
            Some(ValidationErrorV::InvalidLatitude(center[0]))
        } else if !within_symmetric(center[1], LONGITUDE_LIMIT_KEY as int) {
            Some(ValidationErrorV::InvalidLongitude(center[1]))
        } else if !(0 < float_key(radius_km.bits) && float_key(radius_km.bits) <= RADIUS_LIMIT_KEY as int) {
            Some(ValidationErrorV::InvalidRadius(radius_km))
        } else {
            None
        },
        LeafV::MediaType { types } => if types.len() == 0 {
            Some(ValidationErrorV::EmptyMediaTypes)
        } else {
            None
        },
        LeafV::PeopleCount { .. } => None,
        LeafV::FaceRecognition { .. } => None,
    }
}

/// Checks the parameters of one leaf.
pub fn validate_leaf(leaf: &MatchLeaf) -> (r: Result<(), ValidationError>)
    ensures
        error_of(r) == leaf_error(leaf@),
{
    match leaf {
        MatchLeaf::Person { person_id, .. } => {
            if person_id.as_str().is_empty() {
                return Err(ValidationError::EmptyPersonId);
            }
            Ok(())
        },
        MatchLeaf::PeopleCount { .. } => Ok(()),
        MatchLeaf::FaceRecognition { .. } => Ok(()),
        MatchLeaf::DateRange { from, to } => {
            if from.is_none() && to.is_none() {
                return Err(ValidationError::EmptyDateRange);
            }
            if let (Some(f), Some(t)) = (from, to) {
                if t.is_before(f) {
                    return Err(ValidationError::InvalidDateRange { from: *f, to: *t });
                }
            }
            Ok(())
        },
        MatchLeaf::Location { center, radius_km } => {
            let lat = center[0];
            let lng = center[1];
            let lat_key = lat.key();
            if !(-LATITUDE_LIMIT_KEY <= lat_key && lat_key <= LATITUDE_LIMIT_KEY) {
                return Err(ValidationError::InvalidLatitude(lat));
            }
            let lng_key = lng.key();
            if !(-LONGITUDE_LIMIT_KEY <= lng_key && lng_key <= LONGITUDE_LIMIT_KEY) {
                return Err(ValidationError::InvalidLongitude(lng));
            }
            let r_key = radius_km.key();
            if !(0 < r_key && r_key <= RADIUS_LIMIT_KEY) {
                return Err(ValidationError::InvalidRadius(*radius_km));
            }
            Ok(())
        },
        MatchLeaf::MediaType { types } => {
            if types.len() == 0 {
                return Err(ValidationError::EmptyMediaTypes);
            }
            Ok(())
        },
    }
}

// ---------------------------------------------------------------------------
// Tree checks.
// ---------------------------------------------------------------------------

/// The first structural error of `e`, found depth-first, when `e` sits at
/// nesting level `level` (the root is level 1).
pub open spec fn structure_error(e: ExprV, level: int) -> Option<ValidationErrorV>
    decreases e,
{
    if level > MAX_TREE_DEPTH as int {
        Some(ValidationErrorV::MatchTreeTooDeep { depth: level })
    } else {
        match e {
            ExprV::And(c) => if c.len() == 0 {
                Some(ValidationErrorV::EmptyMatch)
            } else if c.len() == 1 {
                Some(ValidationErrorV::RedundantGroup)
            } else {
                children_structure_error(c, level + 1)
            },
            ExprV::Or(c) => if c.len() == 0 {
                Some(ValidationErrorV::EmptyMatch)
            } else if c.len() == 1 {
                Some(ValidationErrorV::RedundantGroup)
            } else {
                children_structure_error(c, level + 1)
            },
            ExprV::Not(c) => if *c is Not {
                Some(ValidationErrorV::DoubleNot)
            } else {
                structure_error(*c, level + 1)
            },
            ExprV::Leaf(_) => None,
        }
    }
}

/// The first structural error among the trees of `s`, in order, all at `level`.
pub open spec fn children_structure_error(s: Seq<ExprV>, level: int) -> Option<ValidationErrorV>
    decreases s,
{
    if s.len() == 0 {
        None
    } else {
        match children_structure_error(s.drop_last(), level) {
            Some(err) => Some(err),
            None => structure_error(s.last(), level),
        }
    }
}

/// Some `person` leaf with mode `includes` is not the direct child of a
/// `not` (`inside_not`: `e` itself is that direct child).
pub open spec fn includes_misplaced(e: ExprV, inside_not: bool) -> bool
    decreases e,
{
    match e {
        ExprV::And(c) => any_includes_misplaced(c),
        ExprV::Or(c) => any_includes_misplaced(c),
        ExprV::Not(c) => includes_misplaced(*c, true),
        ExprV::Leaf(LeafV::Person { mode, .. }) => mode == PersonMode::Includes && !inside_not,
        ExprV::Leaf(_) => false,
    }
}

/// Some tree of `s`, as a group member, holds a misplaced `includes`.
pub open spec fn any_includes_misplaced(s: Seq<ExprV>) -> bool
    decreases s,
{
    if s.len() == 0 {
        false
    } else {
        any_includes_misplaced(s.drop_last()) || includes_misplaced(s.last(), false)
    }
}

/// The first leaf parameter error of `e`, found depth-first.
pub open spec fn leaves_error(e: ExprV) -> Option<ValidationErrorV>
    decreases e,
{
    match e {
        ExprV::And(c) => children_leaves_error(c),
        ExprV::Or(c) => children_leaves_error(c),
        ExprV::Not(c) => leaves_error(*c),
        ExprV::Leaf(l) => leaf_error(l),
    }
}

/// The first leaf parameter error among the trees of `s`, in order.
pub open spec fn children_leaves_error(s: Seq<ExprV>) -> Option<ValidationErrorV>
    decreases s,
{
    if s.len() == 0 {
        None
    } else {
        match children_leaves_error(s.drop_last()) {
            Some(err) => Some(err),
            None => leaves_error(s.last()),
        }
    }
}

/// The first error of the in-memory tree checks: structure, then the
/// placement of `includes`, then leaf parameters.
pub open spec fn tree_local_error(e: ExprV) -> Option<ValidationErrorV> {
    match structure_error(e, 1) {
        Some(err) => Some(err),
        None => if includes_misplaced(e, false) {
            Some(ValidationErrorV::IncludesOutsideNot)
        } else {
            leaves_error(e)
        },
    }
}

fn validate_tree_structure(expr: &MatchExpr, level: usize) -> (r: Result<(), ValidationError>)
    ensures
        error_of(r) == structure_error(expr@, level as int),
    decreases expr,
{
    if level > MAX_TREE_DEPTH {
        return Err(ValidationError::MatchTreeTooDeep { depth: level });
    }
    match expr {
        MatchExpr::And(children) | MatchExpr::Or(children) => {
            proof {
                lemma_view_seq(children@);
            }
            if children.len() == 0 {
                return Err(ValidationError::EmptyMatch);
            }
            if children.len() == 1 {
                return Err(ValidationError::RedundantGroup);
            }
            let ghost vs = view_seq(children@);
            let mut i: usize = 0;
            while i < children.len()
                invariant
                    (*expr matches MatchExpr::And(c) && c == *children) || (*expr matches MatchExpr::Or(c) && c == *children),
                    i <= children.len(),
                    level <= MAX_TREE_DEPTH,
                    children.len() >= 2,
                    vs == view_seq(children@),
                    vs.len() == children@.len(),
                    forall|j: int| 0 <= j < children@.len() ==> #[trigger] vs[j] == children@[j]@,
                    children_structure_error(vs.take(i as int), level + 1) is None,
                decreases children.len() - i,
            {
                assert(vs.take(i + 1).drop_last() =~= vs.take(i as int));
                proof {
                    vstd::std_specs::vec::axiom_vec_index_decreases(*children, i as int);
                    assert(decreases_to!(*expr => *children));
                }
                let r = validate_tree_structure(&children[i], level + 1);
                if r.is_err() {
                    proof {
                        lemma_children_structure_prefix(vs, i + 1, level + 1);
                    }
                    return r;
                }
                i += 1;
            }
            proof {
                assert(vs.take(children.len() as int) =~= vs);
            }
            Ok(())
        },
        MatchExpr::Not(child) => {
            if let MatchExpr::Not(_) = &**child {
                assert((**child)@ is Not);
                return Err(ValidationError::DoubleNot);
            }
            validate_tree_structure(child, level + 1)
        },
        MatchExpr::Leaf(_) => Ok(()),
    }
}

fn validate_includes_scope(expr: &MatchExpr, inside_not: bool) -> (r: Result<(), ValidationError>)
    ensures
        error_of(r) == (if includes_misplaced(expr@, inside_not) {
            Some(ValidationErrorV::IncludesOutsideNot)
        } else {
            None
        }),
    decreases expr,
{
    match expr {
        MatchExpr::And(children) | MatchExpr::Or(children) => {
            proof {
                lemma_view_seq(children@);
            }
            let ghost vs = view_seq(children@);
            let mut i: usize = 0;
            while i < children.len()
                invariant
                    (*expr matches MatchExpr::And(c) && c == *children) || (*expr matches MatchExpr::Or(c) && c == *children),
                    i <= children.len(),
                    vs == view_seq(children@),
                    vs.len() == children@.len(),
                    forall|j: int| 0 <= j < children@.len() ==> #[trigger] vs[j] == children@[j]@,
                    !any_includes_misplaced(vs.take(i as int)),
                decreases children.len() - i,
            {
                assert(vs.take(i + 1).drop_last() =~= vs.take(i as int));
                proof {
                    vstd::std_specs::vec::axiom_vec_index_decreases(*children, i as int);
                    assert(decreases_to!(*expr => *children));
                }
                let r = validate_includes_scope(&children[i], false);
                if r.is_err() {
                    proof {
                        lemma_any_includes_prefix(vs, i + 1);
                    }
                    return r;
                }
                i += 1;
            }
            proof {
                assert(vs.take(children.len() as int) =~= vs);
            }
            Ok(())
        },
        MatchExpr::Not(child) => validate_includes_scope(child, true),
        MatchExpr::Leaf(MatchLeaf::Person { mode: PersonMode::Includes, .. }) => {
            if inside_not {
                Ok(())
            } else {
                Err(ValidationError::IncludesOutsideNot)
            }
        },
        MatchExpr::Leaf(_) => Ok(()),
    }
}

fn validate_tree_leaves(expr: &MatchExpr) -> (r: Result<(), ValidationError>)
    ensures
        error_of(r) == leaves_error(expr@),
    decreases expr,
{
    match expr {
        MatchExpr::And(children) | MatchExpr::Or(children) => {
            proof {
                lemma_view_seq(children@);
            }
            let ghost vs = view_seq(children@);
            let mut i: usize = 0;
            while i < children.len()
                invariant
                    (*expr matches MatchExpr::And(c) && c == *children) || (*expr matches MatchExpr::Or(c) && c == *children),
                    i <= children.len(),
                    vs == view_seq(children@),
                    vs.len() == children@.len(),
                    forall|j: int| 0 <= j < children@.len() ==> #[trigger] vs[j] == children@[j]@,
                    children_leaves_error(vs.take(i as int)) is None,
                decreases children.len() - i,
            {
                assert(vs.take(i + 1).drop_last() =~= vs.take(i as int));
                proof {
                    vstd::std_specs::vec::axiom_vec_index_decreases(*children, i as int);
                    assert(decreases_to!(*expr => *children));
                }
                let r = validate_tree_leaves(&children[i]);
                if r.is_err() {
                    proof {
                        lemma_children_leaves_prefix(vs, i + 1);
                    }
                    return r;
                }
                i += 1;
            }
            proof {
                assert(vs.take(children.len() as int) =~= vs);
            }
            Ok(())
        },
        MatchExpr::Not(child) => validate_tree_leaves(child),
        MatchExpr::Leaf(leaf) => validate_leaf(leaf),
    }
}

/// Runs the in-memory checks of a match tree: structure, `includes`
/// placement, leaf parameters, in that order; the first error wins.
pub fn validate_match_expr_local(expr: &MatchExpr) -> (r: Result<(), ValidationError>)
    ensures
        error_of(r) == tree_local_error(expr@),
{
    let structure = validate_tree_structure(expr, 1);
    if structure.is_err() {
        return structure;
    }
    let scope = validate_includes_scope(expr, false);
    if scope.is_err() {
        return scope;
    }
    validate_tree_leaves(expr)
}

// ---------------------------------------------------------------------------
// Prefix lemmas: a first error found in a prefix is the first error overall.
// ---------------------------------------------------------------------------

/// A structural error in the first `n` trees is the first of the sequence.
pub proof fn lemma_children_structure_prefix(s: Seq<ExprV>, n: int, level: int)
    requires
        0 <= n <= s.len(),
        children_structure_error(s.take(n), level) is Some,
    ensures
        children_structure_error(s, level) == children_structure_error(s.take(n), level),
    decreases s.len(),
{
    if n == s.len() {
        assert(s.take(n) =~= s);
    } else {
        assert(s.drop_last().take(n) =~= s.take(n));
        lemma_children_structure_prefix(s.drop_last(), n, level);
    }
}

/// A misplaced `includes` in the first `n` trees is one of the sequence.
pub proof fn lemma_any_includes_prefix(s: Seq<ExprV>, n: int)
    requires
        0 <= n <= s.len(),
        any_includes_misplaced(s.take(n)),
    ensures
        any_includes_misplaced(s),
    decreases s.len(),
{
    if n == s.len() {
        assert(s.take(n) =~= s);
    } else {
        assert(s.drop_last().take(n) =~= s.take(n));
        lemma_any_includes_prefix(s.drop_last(), n);
    }
}

/// A leaf error in the first `n` trees is the first of the sequence.
pub proof fn lemma_children_leaves_prefix(s: Seq<ExprV>, n: int)
    requires
        0 <= n <= s.len(),
        children_leaves_error(s.take(n)) is Some,
    ensures
        children_leaves_error(s) == children_leaves_error(s.take(n)),
    decreases s.len(),
{
    if n == s.len() {
        assert(s.take(n) =~= s);
    } else {
        assert(s.drop_last().take(n) =~= s.take(n));
        lemma_children_leaves_prefix(s.drop_last(), n);
    }
}

// ---------------------------------------------------------------------------
// Person ownership.
// ---------------------------------------------------------------------------

/// The first of `ids` that `known` lacks, if any.
pub open spec fn first_unknown(ids: Seq<Seq<char>>, known: Seq<String>) -> Option<Seq<char>>
    decreases ids.len(),
{
    if ids.len() == 0 {
        None
    } else {
        match first_unknown(ids.drop_last(), known) {
            Some(id) => Some(id),
            None => if ids_contain(known, ids.last()) {
                None
            } else {
                Some(ids.last())
            },
        }
    }
}

/// The ownership error of `ids` against the owner's `known` ids.
pub open spec fn ownership_error(ids: Seq<Seq<char>>, known: Seq<String>) -> Option<ValidationErrorV> {
    match first_unknown(ids, known) {
        Some(id) => Some(ValidationErrorV::ForeignPersonId { id }),
        None => None,
    }
}

/// Checks that every id of `referenced` is one of the owner's `known`
/// person ids; the first foreign one is reported.
pub fn check_person_ownership(referenced: &Vec<String>, known: &Vec<String>) -> (r: Result<(), ValidationError>)
    ensures
        error_of(r) == ownership_error(referenced@.map_values(|s: String| s@), known@),
{
    let ghost ids = referenced@.map_values(|s: String| s@);
    let mut i: usize = 0;
    while i < referenced.len()
        invariant
            i <= referenced.len(),
            ids == referenced@.map_values(|s: String| s@),
            first_unknown(ids.take(i as int), known@) is None,
        decreases referenced.len() - i,
    {
        assert(ids.take(i + 1).drop_last() =~= ids.take(i as int));
        assert(ids.take(i + 1).last() == referenced@[i as int]@);
        if !contains_id(known, &referenced[i]) {
            proof {
                lemma_first_unknown_prefix(ids, i + 1, known@);
            }
            return Err(ValidationError::ForeignPersonId { id: referenced[i].clone() });
        }
        i += 1;
    }
    proof {
        assert(ids.take(referenced.len() as int) =~= ids);
    }
    Ok(())
}

/// An unknown id among the first `n` is the first unknown id overall.
pub proof fn lemma_first_unknown_prefix(ids: Seq<Seq<char>>, n: int, known: Seq<String>)
    requires
        0 <= n <= ids.len(),
        first_unknown(ids.take(n), known) is Some,
    ensures
        first_unknown(ids, known) == first_unknown(ids.take(n), known),
    decreases ids.len(),
{
    if n == ids.len() {
        assert(ids.take(n) =~= ids);
    } else {
        assert(ids.drop_last().take(n) =~= ids.take(n));
        lemma_first_unknown_prefix(ids.drop_last(), n, known);
    }
}

// ---------------------------------------------------------------------------
// Rule validation, step by step.
// ---------------------------------------------------------------------------

/// What rule validation needs next from the owner's Immich data, or its
/// outcome.
#[derive(Debug, PartialEq)]
pub enum ValidationStep {
    /// Validation is over.
    Done(Result<(), ValidationError>),
    /// The owner's known person ids are needed: resume with
    /// [`resume_with_known_persons`].
    NeedKnownPersonIds,
    /// Whether the owner may write to this album is needed: resume with
    /// [`resume_with_album_writable`].
    NeedAlbumWritable { album_id: String },
}

/// The first error of the in-memory checks of a rule: the id slug, an empty
/// tree, then the tree checks.
pub open spec fn rule_local_error(rule: Rule) -> Option<ValidationErrorV> {
    if rule.id is Some && !slug_ok(rule.id->0@) {
        Some(ValidationErrorV::InvalidId(rule.id->0@))
    } else if tree_is_empty(rule.match_@) {
        Some(ValidationErrorV::EmptyMatch)
    } else {
        tree_local_error(rule.match_@)
    }
}

/// `step` ends validation with the error `e`.
pub open spec fn fails_with(step: ValidationStep, e: ValidationErrorV) -> bool {
    step matches ValidationStep::Done(r) && error_of(r) == Some(e)
}

/// `step` is what follows once the person ids are settled: the album check
/// for an existing target album, success for a managed one.
pub open spec fn album_stage(rule: Rule, step: ValidationStep) -> bool {
    match rule.target_album {
        TargetAlbum::Existing { album_id } => step == ValidationStep::NeedAlbumWritable { album_id },
        TargetAlbum::Managed { .. } => step == ValidationStep::Done(Ok(())),
    }
}

/// The outcome of the album check, given the resolver's answer.
pub open spec fn album_error(rule: Rule, writable: Result<bool, ResolverErrorV>) -> Option<ValidationErrorV> {
    match rule.target_album {
        TargetAlbum::Existing { album_id } => match writable {
            Err(e) => Some(ValidationErrorV::Resolver(e)),
            Ok(true) => None,
            Ok(false) => Some(ValidationErrorV::UnwritableAlbum { album_id: album_id@ }),
        },
        TargetAlbum::Managed { .. } => None,
    }
}

/// The whole of rule validation, given what the resolver answers: the
/// in-memory checks, then (when the tree names people) person ownership,
/// then (for an existing target album) writability. A question is asked
/// only when the checks before it passed.
pub open spec fn rule_error(
    rule: Rule,
    known: Result<Seq<String>, ResolverErrorV>,
    writable: Result<bool, ResolverErrorV>,
) -> Option<ValidationErrorV> {
    match rule_local_error(rule) {
        Some(e) => Some(e),
        None => {
            let ids = tree_person_ids(rule.match_@);
            let persons = if ids.len() == 0 {
                None
            } else {
                match known {
                    Err(e) => Some(ValidationErrorV::Resolver(e)),
                    Ok(k) => ownership_error(ids, k),
                }
            };
            match persons {
                Some(e) => Some(e),
                None => album_error(rule, writable),
            }
        },
    }
}

fn album_step(rule: &Rule) -> (s: ValidationStep)
    ensures
        album_stage(*rule, s),
{
    match &rule.target_album {
        TargetAlbum::Existing { album_id } => ValidationStep::NeedAlbumWritable { album_id: album_id.clone() },
        TargetAlbum::Managed { .. } => ValidationStep::Done(Ok(())),
    }
}

/// Starts validating `rule`: runs the in-memory checks and says what the
/// resolver must answer next.
pub fn begin_rule_validation(rule: &Rule) -> (s: ValidationStep)
    ensures
        match rule_local_error(*rule) {
            Some(e) => fails_with(s, e),
            None => if tree_person_ids(rule.match_@).len() > 0 {
                s == ValidationStep::NeedKnownPersonIds
            } else {
                album_stage(*rule, s)
            },
        },
{
    if let Some(id) = &rule.id {
        if !is_valid_slug(id.as_str()) {
            return ValidationStep::Done(Err(ValidationError::InvalidId(id.clone())));
        }
    }
    if rule.match_.is_empty() {
        return ValidationStep::Done(Err(ValidationError::EmptyMatch));
    }
    let local = validate_match_expr_local(&rule.match_);
    if local.is_err() {
        return ValidationStep::Done(local);
    }
    let referenced = rule.match_.referenced_person_ids();
    if referenced.len() > 0 {
        return ValidationStep::NeedKnownPersonIds;
    }
    album_step(rule)
}

/// Resumes after [`ValidationStep::NeedKnownPersonIds`] with the owner's
/// known person ids (or the resolver's failure).
pub fn resume_with_known_persons(rule: &Rule, known: Result<Vec<String>, ResolverError>) -> (s: ValidationStep)
    ensures
        match known {
            Err(e) => fails_with(s, ValidationErrorV::Resolver(e@)),
            Ok(k) => match ownership_error(tree_person_ids(rule.match_@), k@) {
                Some(e) => fails_with(s, e),
                None => album_stage(*rule, s),
            },
        },
{
    match known {
        Err(e) => ValidationStep::Done(Err(ValidationError::Resolver(e))),
        Ok(k) => {
            let referenced = rule.match_.referenced_person_ids();
            let owned = check_person_ownership(&referenced, &k);
            if owned.is_err() {
                return ValidationStep::Done(owned);
            }
            album_step(rule)
        },
    }
}

/// Resumes after [`ValidationStep::NeedAlbumWritable`] with whether the
/// owner may write to the album (or the resolver's failure); this is the
/// last check.
pub fn resume_with_album_writable(rule: &Rule, writable: Result<bool, ResolverError>) -> (r: Result<(), ValidationError>)
    ensures
        error_of(r) == album_error(*rule, match writable {
            Ok(b) => Ok(b),
            Err(e) => Err(e@),
        }),
{
    match &rule.target_album {
        TargetAlbum::Existing { album_id } => match writable {
            Err(e) => Err(ValidationError::Resolver(e)),
            Ok(true) => Ok(()),
            Ok(false) => Err(ValidationError::UnwritableAlbum { album_id: album_id.clone() }),
        },
        TargetAlbum::Managed { .. } => Ok(()),
    }
}

// ---------------------------------------------------------------------------
// What a passing validation guarantees.
// ---------------------------------------------------------------------------

/// A tree without structural errors at nesting level `level` reaches no
/// deeper than [`MAX_TREE_DEPTH`].
pub proof fn lemma_structure_bounds_depth(e: ExprV, level: int)
    requires
        1 <= level,
        structure_error(e, level) is None,
    ensures
        level - 1 + tree_depth(e) <= MAX_TREE_DEPTH,
    decreases e,
{
    match e {
        ExprV::And(c) => lemma_children_bound_depth(c, level + 1),
        ExprV::Or(c) => lemma_children_bound_depth(c, level + 1),
        ExprV::Not(c) => lemma_structure_bounds_depth(*c, level + 1),
        ExprV::Leaf(_) => {},
    }
}

/// Group members without structural errors at `level` reach no deeper than
/// [`MAX_TREE_DEPTH`].
pub proof fn lemma_children_bound_depth(s: Seq<ExprV>, level: int)
    requires
        2 <= level <= MAX_TREE_DEPTH + 1,
        children_structure_error(s, level) is None,
    ensures
        level - 1 + max_depth(s) <= MAX_TREE_DEPTH,
    decreases s,
{
    if s.len() > 0 {
        lemma_children_bound_depth(s.drop_last(), level);
        lemma_structure_bounds_depth(s.last(), level);
    }
}

/// No unknown id is found exactly when every id is known.
pub proof fn lemma_first_unknown_none(ids: Seq<Seq<char>>, known: Seq<String>)
    ensures
        first_unknown(ids, known) is None <==> (forall|i: int| 0 <= i < ids.len() ==> #[trigger] ids_contain(known, ids[i])),
    decreases ids.len(),
{
    if ids.len() > 0 {
        let front = ids.drop_last();
        lemma_first_unknown_none(front, known);
        if first_unknown(ids, known) is None {
            assert forall|i: int| 0 <= i < ids.len() implies #[trigger] ids_contain(known, ids[i]) by {
                if i < ids.len() - 1 {
                    assert(front[i] == ids[i]);
                }
            }
        } else if forall|i: int| 0 <= i < ids.len() ==> #[trigger] ids_contain(known, ids[i]) {
            assert forall|i: int| 0 <= i < front.len() implies #[trigger] ids_contain(known, front[i]) by {
                assert(front[i] == ids[i]);
            }
            assert(ids_contain(known, ids[ids.len() - 1]));
        }
    }
}

/// A rule that passes validation meets the validation rules: its id, if
/// any, is a slug; its tree has a leaf and nests at most [`MAX_TREE_DEPTH`]
/// deep; every person it names is one of the owner's; an existing target
/// album is writable by the owner.
pub proof fn lemma_valid_rule_meets_rules(rule: Rule, known: Seq<String>, writable: Result<bool, ResolverErrorV>)
    requires
        rule_error(rule, Ok(known), writable) is None,
    ensures
        rule.id matches Some(id) ==> slug_ok(id@),
        !tree_is_empty(rule.match_@),
        tree_depth(rule.match_@) <= MAX_TREE_DEPTH,
        forall|i: int| 0 <= i < tree_person_ids(rule.match_@).len()
            ==> #[trigger] ids_contain(known, tree_person_ids(rule.match_@)[i]),
        rule.target_album is Existing ==> writable == Ok::<bool, ResolverErrorV>(true),
{
    lemma_structure_bounds_depth(rule.match_@, 1);
    lemma_first_unknown_none(tree_person_ids(rule.match_@), known);
}

// ---------------------------------------------------------------------------
// Laws of the leaf and placement checks.
// ---------------------------------------------------------------------------

/// A location block passes its parameter check exactly when its latitude
/// lies in [-90, 90], its longitude in [-180, 180] and its radius in
/// (0, 20000] km (compared through float keys); the first bound broken
/// names the error, latitude first.
pub proof fn lemma_location_leaf_bounds(center: [FloatBits; 2], radius_km: FloatBits)
    ensures
        ({
            let lat = float_key(center[0].bits);
            let lng = float_key(center[1].bits);
            let r = float_key(radius_km.bits);
            let err = leaf_error(LeafV::Location { center, radius_km });
            &&& (lat < -(LATITUDE_LIMIT_KEY as int) || lat > LATITUDE_LIMIT_KEY as int) ==> err == Some(
                ValidationErrorV::InvalidLatitude(center[0]),
            )
            &&& (-(LATITUDE_LIMIT_KEY as int) <= lat <= LATITUDE_LIMIT_KEY as int && (lng < -(LONGITUDE_LIMIT_KEY as int)
                || lng > LONGITUDE_LIMIT_KEY as int)) ==> err == Some(ValidationErrorV::InvalidLongitude(center[1]))
            &&& (-(LATITUDE_LIMIT_KEY as int) <= lat <= LATITUDE_LIMIT_KEY as int && -(LONGITUDE_LIMIT_KEY as int) <= lng
                <= LONGITUDE_LIMIT_KEY as int && (r <= 0 || r > RADIUS_LIMIT_KEY as int)) ==> err == Some(
                ValidationErrorV::InvalidRadius(radius_km),
            )
            &&& err is None <==> (-(LATITUDE_LIMIT_KEY as int) <= lat <= LATITUDE_LIMIT_KEY as int && -(
            LONGITUDE_LIMIT_KEY as int) <= lng <= LONGITUDE_LIMIT_KEY as int && 0 < r <= RADIUS_LIMIT_KEY as int)
        }),
{
}

/// `x` occurs in tree `e` (as `e` itself or inside one of its groups).
pub open spec fn subtree(e: ExprV, x: ExprV) -> bool
    decreases e,
{
    e == x || match e {
        ExprV::And(c) => subtree_in(c, x),
        ExprV::Or(c) => subtree_in(c, x),
        ExprV::Not(c) => subtree(*c, x),
        ExprV::Leaf(_) => false,
    }
}

/// `x` occurs in one of the trees of `s`.
pub open spec fn subtree_in(s: Seq<ExprV>, x: ExprV) -> bool
    decreases s,
{
    s.len() > 0 && (subtree_in(s.drop_last(), x) || subtree(s.last(), x))
}

/// A `person` leaf in `includes` mode.
pub open spec fn is_includes_leaf(e: ExprV) -> bool {
    e matches ExprV::Leaf(LeafV::Person { mode, .. }) && mode == PersonMode::Includes
}

/// The members of a group, none for a `not` or a leaf.
pub open spec fn members(e: ExprV) -> Seq<ExprV> {
    match e {
        ExprV::And(c) => c,
        ExprV::Or(c) => c,
        _ => Seq::empty(),
    }
}

/// `x` occurs in some tree of `s` exactly when it occurs in one of them.
proof fn lemma_subtree_in_index(s: Seq<ExprV>, x: ExprV)
    ensures
        subtree_in(s, x) <==> exists|i: int| 0 <= i < s.len() && #[trigger] subtree(s[i], x),
    decreases s.len(),
{
    if s.len() > 0 {
        lemma_subtree_in_index(s.drop_last(), x);
        if subtree_in(s.drop_last(), x) {
            let i = choose|i: int| 0 <= i < s.drop_last().len() && #[trigger] subtree(s.drop_last()[i], x);
            assert(s.drop_last()[i] == s[i]);
            assert(subtree(s[i], x));
        }
        if subtree(s.last(), x) {
            assert(subtree(s[s.len() - 1], x));
        }
        if exists|i: int| 0 <= i < s.len() && #[trigger] subtree(s[i], x) {
            let i = choose|i: int| 0 <= i < s.len() && #[trigger] subtree(s[i], x);
            if i < s.len() - 1 {
                assert(s.drop_last()[i] == s[i]);
                assert(subtree(s.drop_last()[i], x));
            }
        }
    }
}

/// A group member holding a misplaced `includes` makes the group hold one.
proof fn lemma_any_includes_at(s: Seq<ExprV>, i: int)
    requires
        0 <= i < s.len(),
        includes_misplaced(s[i], false),
    ensures
        any_includes_misplaced(s),
    decreases s.len(),
{
    if i < s.len() - 1 {
        assert(s.drop_last()[i] == s[i]);
        lemma_any_includes_at(s.drop_last(), i);
    }
}

/// A group whose members hold no misplaced `includes` holds none.
proof fn lemma_any_includes_witness(s: Seq<ExprV>) -> (i: int)
    requires
        any_includes_misplaced(s),
    ensures
        0 <= i < s.len(),
        includes_misplaced(s[i], false),
    decreases s.len(),
{
    if any_includes_misplaced(s.drop_last()) {
        let j = lemma_any_includes_witness(s.drop_last());
        assert(s.drop_last()[j] == s[j]);
        j
    } else {
        s.len() - 1
    }
}

/// An `includes` leaf that is a member of a group (an `and` or an `or`)
/// anywhere in the tree is misplaced, whatever stands above the group: the
/// placement check rejects the tree.
pub proof fn lemma_includes_in_group_rejected(e: ExprV, g: ExprV, i: int, inside_not: bool)
    requires
        subtree(e, g),
        g is And || g is Or,
        0 <= i < members(g).len(),
        is_includes_leaf(members(g)[i]),
    ensures
        includes_misplaced(e, inside_not),
    decreases e,
{
    if e == g {
        assert(includes_misplaced(members(g)[i], false));
        lemma_any_includes_at(members(g), i);
    } else {
        match e {
            ExprV::And(c) => {
                lemma_subtree_in_index(c, g);
                let j = choose|j: int| 0 <= j < c.len() && #[trigger] subtree(c[j], g);
                lemma_includes_in_group_rejected(c[j], g, i, false);
                lemma_any_includes_at(c, j);
            },
            ExprV::Or(c) => {
                lemma_subtree_in_index(c, g);
                let j = choose|j: int| 0 <= j < c.len() && #[trigger] subtree(c[j], g);
                lemma_includes_in_group_rejected(c[j], g, i, false);
                lemma_any_includes_at(c, j);
            },
            ExprV::Not(c) => {
                lemma_includes_in_group_rejected(*c, g, i, true);
            },
            ExprV::Leaf(_) => {},
        }
    }
}

/// An `includes` leaf at the root of the tree is misplaced.
pub proof fn lemma_includes_at_root_rejected(e: ExprV)
    requires
        is_includes_leaf(e),
    ensures
        includes_misplaced(e, false),
{
}

/// An `includes` leaf as the direct child of a `not` is in place, whatever
/// person it names.
pub proof fn lemma_not_includes_accepted(person_id: Seq<char>, inside_not: bool)
    ensures
        !includes_misplaced(
            ExprV::Not(Box::new(ExprV::Leaf(LeafV::Person { mode: PersonMode::Includes, person_id }))),
            inside_not,
        ),
{
    let leaf = ExprV::Leaf(LeafV::Person { mode: PersonMode::Includes, person_id });
    assert(!includes_misplaced(leaf, true));
}

/// A tree the placement check rejects holds an `includes` leaf somewhere.
pub proof fn lemma_rejected_has_includes(e: ExprV, inside_not: bool) -> (x: ExprV)
    requires
        includes_misplaced(e, inside_not),
    ensures
        subtree(e, x),
        is_includes_leaf(x),
    decreases e,
{
    match e {
        ExprV::And(c) => {
            let j = lemma_any_includes_witness(c);
            let x = lemma_rejected_has_includes(c[j], false);
            lemma_subtree_in_index(c, x);
            x
        },
        ExprV::Or(c) => {
            let j = lemma_any_includes_witness(c);
            let x = lemma_rejected_has_includes(c[j], false);
            lemma_subtree_in_index(c, x);
            x
        },
        ExprV::Not(c) => {
            let x = lemma_rejected_has_includes(*c, true);
            x
        },
        ExprV::Leaf(_) => e,
    }
}

/// Some member with a leaf error gives the members a leaf error.
proof fn lemma_children_leaves_error_at(s: Seq<ExprV>, i: int)
    requires
        0 <= i < s.len(),
        leaves_error(s[i]) is Some,
    ensures
        children_leaves_error(s) is Some,
    decreases s.len(),
{
    if i < s.len() - 1 {
        assert(s.drop_last()[i] == s[i]);
        lemma_children_leaves_error_at(s.drop_last(), i);
    }
}

/// A leaf with a parameter error anywhere in the tree gives the tree a
/// leaf error.
proof fn lemma_bad_leaf_spoils_tree(e: ExprV, l: LeafV)
    requires
        subtree(e, ExprV::Leaf(l)),
        leaf_error(l) is Some,
    ensures
        leaves_error(e) is Some,
    decreases e,
{
    if e != ExprV::Leaf(l) {
        match e {
            ExprV::And(c) => {
                lemma_subtree_in_index(c, ExprV::Leaf(l));
                let j = choose|j: int| 0 <= j < c.len() && #[trigger] subtree(c[j], ExprV::Leaf(l));
                lemma_bad_leaf_spoils_tree(c[j], l);
                lemma_children_leaves_error_at(c, j);
            },
            ExprV::Or(c) => {
                lemma_subtree_in_index(c, ExprV::Leaf(l));
                let j = choose|j: int| 0 <= j < c.len() && #[trigger] subtree(c[j], ExprV::Leaf(l));
                lemma_bad_leaf_spoils_tree(c[j], l);
                lemma_children_leaves_error_at(c, j);
            },
            ExprV::Not(c) => lemma_bad_leaf_spoils_tree(*c, l),
            ExprV::Leaf(_) => {},
        }
    }
}

/// A tree that passes the in-memory checks has every leaf's parameters
/// valid: in particular every location block's latitude lies in [-90, 90].
pub proof fn lemma_accepted_tree_has_valid_leaves(e: ExprV, l: LeafV)
    requires
        tree_local_error(e) is None,
        subtree(e, ExprV::Leaf(l)),
    ensures
        leaf_error(l) is None,
        l matches LeafV::Location { center, .. } ==> -(LATITUDE_LIMIT_KEY as int) <= float_key(center[0].bits)
            <= LATITUDE_LIMIT_KEY as int,
{
    if leaf_error(l) is Some {
        lemma_bad_leaf_spoils_tree(e, l);
    }
    if let LeafV::Location { center, radius_km } = l {
        lemma_location_leaf_bounds(center, radius_km);
    }
}

/// A well-structured tree with an `includes` leaf as a member of some group
/// fails the in-memory checks with `IncludesOutsideNot`.
pub proof fn lemma_tree_with_grouped_includes_rejected(e: ExprV, g: ExprV, i: int)
    requires
        structure_error(e, 1) is None,
        subtree(e, g),
        g is And || g is Or,
        0 <= i < members(g).len(),
        is_includes_leaf(members(g)[i]),
    ensures
        tree_local_error(e) == Some(ValidationErrorV::IncludesOutsideNot),
{
    lemma_includes_in_group_rejected(e, g, i, false);
}

} // verus!
