//! Evaluation of a match tree on one asset.
//!
//! Groups evaluate their children in order: an `and` stops at its first
//! child that does not match and reports that child's reason; an `or`
//! matches as soon as one child matches and otherwise reports
//! `tree_short_circuit_or`; a `not` matches exactly when its child does
//! not, reporting `not_branch_satisfied` otherwise. Leaves are the
//! predicates of the flat rule shape, one block each. The people a
//! `face_recognition` block accepts are every person the tree names.
//!
//! Whether the asset lies inside a location block's circle is a
//! floating-point question answered by the caller: it passes the circles
//! that contain the asset.

use vstd::prelude::*;

use crate::album_sync::{id_views, lemma_id_views_contains};
use crate::match_expr::{count_holds, tree_person_ids, MatchExpr, MatchLeaf, PersonMode};
use crate::predicate::{
    contains_id, eval_date, eval_media, first_where, identified_count, ids_contain, lemma_first_where_at,
    lemma_first_where_none, matched_outcome, skipped_outcome, spec_eval_date, spec_eval_location, spec_eval_media,
    AssetSnapshot, DecisionReason, PredicateOutcome,
};
use crate::schema::{DatePredicate, FloatBits, MediaPredicate};

verus! {

broadcast use vstd::std_specs::vec::group_vec_axioms;

/// The circle of a `location` block: centre latitude and longitude and the
/// radius in km, as binary64 bit patterns.
#[derive(Debug, Clone, Copy, PartialEq, Eq, Structural)]
pub struct Area {
    pub lat: FloatBits,
    pub lng: FloatBits,
    pub radius_km: FloatBits,
}

/// The circle of a location block with `center` and `radius_km`.
pub open spec fn area_of(center: [FloatBits; 2], radius_km: FloatBits) -> Area {
    Area { lat: center[0], lng: center[1], radius_km }
}

/// The outcome of one leaf. `inside` lists the circles that contain the
/// asset; `roster` is every person the tree names.
pub open spec fn leaf_outcome(l: MatchLeaf, a: AssetSnapshot, inside: Seq<Area>, roster: Seq<Seq<char>>) -> PredicateOutcome {
    let faces = a.face_person_ids@;
    match l {
        MatchLeaf::Person { mode, person_id } => {
            let present = ids_contain(faces, person_id@);
            match mode {
                PersonMode::MayInclude => matched_outcome(),
                PersonMode::MustExclude => if present {
                    skipped_outcome(DecisionReason::PeopleMustExcludePresent { id: person_id })
                } else {
                    matched_outcome()
                },
                _ => if present {
                    matched_outcome()
                } else {
                    skipped_outcome(DecisionReason::PeopleMustIncludeMissing { missing_id: person_id })
                },
            }
        },
        MatchLeaf::PeopleCount { op, value } => match a.yolo_person_count {
            None => skipped_outcome(DecisionReason::YoloUnimplemented),
            Some(y) => if count_holds(op, y, value) {
                matched_outcome()
            } else {
                skipped_outcome(DecisionReason::PeopleCountMismatch { op, target: value, observed: y })
            },
        },
        MatchLeaf::FaceRecognition { allow_unrecognized, yolo_count_check } => {
            let stranger = first_where(faces, |id: Seq<char>| !roster.contains(id));
            if !allow_unrecognized && stranger is Some {
                skipped_outcome(DecisionReason::PeopleOtherIdentifiablePresent { id: faces[stranger->0] })
            } else if !yolo_count_check {
                matched_outcome()
            } else {
                match a.yolo_person_count {
                    None => skipped_outcome(DecisionReason::YoloUnimplemented),
                    Some(y) => if y > identified_count(faces) {
                        skipped_outcome(DecisionReason::PeopleUnidentifiedHumanPresent {
                            yolo_count: y,
                            identified: identified_count(faces),
                        })
                    } else {
                        matched_outcome()
                    },
                }
            }
        },
        MatchLeaf::DateRange { from, to } => spec_eval_date(DatePredicate { from, to }, a),
        MatchLeaf::Location { center, radius_km } => spec_eval_location(a, inside.contains(area_of(center, radius_km))),
        MatchLeaf::MediaType { types } => spec_eval_media(MediaPredicate { types }, a),
    }
}

/// The outcome of a tree.
pub open spec fn tree_outcome(e: MatchExpr, a: AssetSnapshot, inside: Seq<Area>, roster: Seq<Seq<char>>) -> PredicateOutcome
    decreases e,
{
    match e {
        MatchExpr::And(c) => and_outcome(c@, a, inside, roster),
        MatchExpr::Or(c) => or_outcome(c@, a, inside, roster),
        MatchExpr::Not(c) => if tree_outcome(*c, a, inside, roster).matched {
            skipped_outcome(DecisionReason::NotBranchSatisfied)
        } else {
            matched_outcome()
        },
        MatchExpr::Leaf(l) => leaf_outcome(l, a, inside, roster),
    }
}

/// An `and` over `s`: the first child that does not match decides.
pub open spec fn and_outcome(s: Seq<MatchExpr>, a: AssetSnapshot, inside: Seq<Area>, roster: Seq<Seq<char>>) -> PredicateOutcome
    decreases s,
{
    if s.len() == 0 {
        matched_outcome()
    } else {
        let front = and_outcome(s.drop_last(), a, inside, roster);
        if !front.matched {
            front
        } else {
            tree_outcome(s.last(), a, inside, roster)
        }
    }
}

/// An `or` over `s`: a match if some child matches.
pub open spec fn or_outcome(s: Seq<MatchExpr>, a: AssetSnapshot, inside: Seq<Area>, roster: Seq<Seq<char>>) -> PredicateOutcome
    decreases s,
{
    if s.len() == 0 {
        skipped_outcome(DecisionReason::TreeShortCircuitOr)
    } else if or_outcome(s.drop_last(), a, inside, roster).matched || tree_outcome(s.last(), a, inside, roster).matched {
        matched_outcome()
    } else {
        skipped_outcome(DecisionReason::TreeShortCircuitOr)
    }
}

/// The outcome of rule tree `e` on asset `a`, given the circles that
/// contain it.
pub open spec fn expr_outcome(e: MatchExpr, a: AssetSnapshot, inside: Seq<Area>) -> PredicateOutcome {
    tree_outcome(e, a, inside, tree_person_ids(e@))
}

/// Taking one more element of a sequence appends that element.
proof fn lemma_take_last<T>(s: Seq<T>, i: int)
    requires
        0 <= i < s.len(),
    ensures
        s.take(i + 1).drop_last() =~= s.take(i),
        s.take(i + 1).last() == s[i],
{
}

/// Whether `inside` lists `x`.
fn area_listed(inside: &Vec<Area>, x: Area) -> (r: bool)
    ensures
        r == inside@.contains(x),
{
    let mut i: usize = 0;
    while i < inside.len()
        invariant
            i <= inside@.len(),
            forall|j: int| 0 <= j < i ==> inside@[j] != x,
        decreases inside@.len() - i,
    {
        if inside[i] == x {
            assert(inside@[i as int] == x);
            return true;
        }
        i += 1;
    }
    false
}

/// The first face that `roster` does not name, if any.
fn first_unnamed(faces: &Vec<String>, roster: &Vec<String>) -> (r: Option<usize>)
    ensures
        r matches Some(k) ==> first_where(faces@, |id: Seq<char>| !id_views(roster@).contains(id)) == Some(k as int),
        r is None ==> first_where(faces@, |id: Seq<char>| !id_views(roster@).contains(id)) is None,
{
    let ghost pred = |id: Seq<char>| !id_views(roster@).contains(id);
    let mut i: usize = 0;
    while i < faces.len()
        invariant
            i <= faces.len(),
            pred == (|id: Seq<char>| !id_views(roster@).contains(id)),
            forall|j: int| 0 <= j < i ==> !pred(#[trigger] faces@[j]@),
        decreases faces.len() - i,
    {
        let named = contains_id(roster, &faces[i]);
        proof {
            lemma_id_views_contains(roster@, faces@[i as int]@);
        }
        if !named {
            proof {
                lemma_first_where_at(faces@, pred, i as int);
            }
            return Some(i);
        }
        i += 1;
    }
    proof {
        lemma_first_where_none(faces@, pred);
    }
    None
}

/// Evaluates one leaf.
fn eval_leaf(l: &MatchLeaf, a: &AssetSnapshot, inside: &Vec<Area>, roster: &Vec<String>) -> (o: PredicateOutcome)
    ensures
        o == leaf_outcome(*l, *a, inside@, id_views(roster@)),
{
    let faces = &a.face_person_ids;
    match l {
        MatchLeaf::Person { mode, person_id } => {
            let present = contains_id(faces, person_id);
            match mode {
                PersonMode::MayInclude => PredicateOutcome::matched(),
                PersonMode::MustExclude => if present {
                    PredicateOutcome::skipped(DecisionReason::PeopleMustExcludePresent { id: person_id.clone() })
                } else {
                    PredicateOutcome::matched()
                },
                _ => if present {
                    PredicateOutcome::matched()
                } else {
                    PredicateOutcome::skipped(DecisionReason::PeopleMustIncludeMissing { missing_id: person_id.clone() })
                },
            }
        },
        MatchLeaf::PeopleCount { op, value } => match a.yolo_person_count {
            None => PredicateOutcome::skipped(DecisionReason::YoloUnimplemented),
            Some(y) => if op.compare(y, *value) {
                PredicateOutcome::matched()
            } else {
                PredicateOutcome::skipped(DecisionReason::PeopleCountMismatch { op: *op, target: *value, observed: y })
            },
        },
        MatchLeaf::FaceRecognition { allow_unrecognized, yolo_count_check } => {
            let stranger = first_unnamed(faces, roster);
            if !*allow_unrecognized && stranger.is_some() {
                let k = stranger.unwrap();
                return PredicateOutcome::skipped(DecisionReason::PeopleOtherIdentifiablePresent { id: faces[k].clone() });
            }
            if !*yolo_count_check {
                return PredicateOutcome::matched();
            }
            let identified: u32 = if faces.len() <= 0xffff_ffff {
                faces.len() as u32
            } else {
                0xffff_ffff
            };
            match a.yolo_person_count {
                None => PredicateOutcome::skipped(DecisionReason::YoloUnimplemented),
                Some(y) => if y > identified {
                    PredicateOutcome::skipped(DecisionReason::PeopleUnidentifiedHumanPresent {
                        yolo_count: y,
                        identified,
                    })
                } else {
                    PredicateOutcome::matched()
                },
            }
        },
        MatchLeaf::DateRange { from, to } => eval_date(&DatePredicate { from: *from, to: *to }, a),
        MatchLeaf::Location { center, radius_km } => {
            let x = Area { lat: center[0], lng: center[1], radius_km: *radius_km };
            let within = area_listed(inside, x);
            match a.gps {
                None => PredicateOutcome::skipped(DecisionReason::LocationMissingGps),
                Some(_) => if within {
                    PredicateOutcome::matched()
                } else {
                    PredicateOutcome::skipped(DecisionReason::LocationOutOfRange)
                },
            }
        },
        MatchLeaf::MediaType { types } => {
            let p = MediaPredicate { types: crate::match_expr::copy_media_types(types) };
            eval_media(&p, a)
        },
    }
}

/// Evaluates a tree with the roster given.
fn eval_tree(e: &MatchExpr, a: &AssetSnapshot, inside: &Vec<Area>, roster: &Vec<String>) -> (o: PredicateOutcome)
    ensures
        o == tree_outcome(*e, *a, inside@, id_views(roster@)),
    decreases e,
{
    let ghost ro = id_views(roster@);
    match e {
        MatchExpr::And(children) => {
            let mut i: usize = 0;
            while i < children.len()
                invariant
                    *e matches MatchExpr::And(c) && c == *children,
                    i <= children.len(),
                    ro == id_views(roster@),
                    and_outcome(children@.take(i as int), *a, inside@, ro) == matched_outcome(),
                decreases children.len() - i,
            {
                proof {
                    lemma_take_last(children@, i as int);
                    vstd::std_specs::vec::axiom_vec_index_decreases(*children, i as int);
                    assert(decreases_to!(*e => *children));
                }
                let o = eval_tree(&children[i], a, inside, roster);
                if !o.matched {
                    proof {
                        assert(and_outcome(children@.take(i + 1), *a, inside@, ro) == o);
                        lemma_and_stops(children@, *a, inside@, ro, i as int + 1);
                    }
                    return o;
                }
                proof {
                    lemma_matched_canonical(children@[i as int], *a, inside@, ro);
                }
                i += 1;
            }
            proof {
                assert(children@.take(children.len() as int) =~= children@);
            }
            PredicateOutcome::matched()
        },
        MatchExpr::Or(children) => {
            let mut i: usize = 0;
            while i < children.len()
                invariant
                    *e matches MatchExpr::Or(c) && c == *children,
                    i <= children.len(),
                    ro == id_views(roster@),
                    !or_outcome(children@.take(i as int), *a, inside@, ro).matched,
                decreases children.len() - i,
            {
                proof {
                    lemma_take_last(children@, i as int);
                    vstd::std_specs::vec::axiom_vec_index_decreases(*children, i as int);
                    assert(decreases_to!(*e => *children));
                }
                let o = eval_tree(&children[i], a, inside, roster);
                if o.matched {
                    proof {
                        assert(or_outcome(children@.take(i + 1), *a, inside@, ro).matched);
                        lemma_or_stays(children@, *a, inside@, ro, i as int + 1);
                    }
                    return PredicateOutcome::matched();
                }
                i += 1;
            }
            proof {
                assert(children@.take(children.len() as int) =~= children@);
            }
            PredicateOutcome::skipped(DecisionReason::TreeShortCircuitOr)
        },
        MatchExpr::Not(child) => {
            let o = eval_tree(child, a, inside, roster);
            if o.matched {
                PredicateOutcome::skipped(DecisionReason::NotBranchSatisfied)
            } else {
                PredicateOutcome::matched()
            }
        },
        MatchExpr::Leaf(l) => eval_leaf(l, a, inside, roster),
    }
}

/// A tree that matches reports the plain `matched` outcome.
proof fn lemma_matched_canonical(e: MatchExpr, a: AssetSnapshot, inside: Seq<Area>, roster: Seq<Seq<char>>)
    ensures
        tree_outcome(e, a, inside, roster).matched ==> tree_outcome(e, a, inside, roster) == matched_outcome(),
    decreases e,
{
    match e {
        MatchExpr::And(c) => {
            lemma_and_canonical(c@, a, inside, roster);
            assert(tree_outcome(e, a, inside, roster) == and_outcome(c@, a, inside, roster));
        },
        MatchExpr::Or(c) => {
            assert(tree_outcome(e, a, inside, roster) == or_outcome(c@, a, inside, roster));
        },
        _ => {},
    }
}

/// An `and` that matches reports the plain `matched` outcome.
proof fn lemma_and_canonical(s: Seq<MatchExpr>, a: AssetSnapshot, inside: Seq<Area>, roster: Seq<Seq<char>>)
    ensures
        and_outcome(s, a, inside, roster).matched ==> and_outcome(s, a, inside, roster) == matched_outcome(),
    decreases s,
{
    if s.len() > 0 {
        lemma_and_canonical(s.drop_last(), a, inside, roster);
        lemma_matched_canonical(s.last(), a, inside, roster);
    }
}

/// Once a prefix of an `and` fails, the whole `and` reports that failure.
proof fn lemma_and_stops(s: Seq<MatchExpr>, a: AssetSnapshot, inside: Seq<Area>, roster: Seq<Seq<char>>, k: int)
    requires
        0 <= k <= s.len(),
        !and_outcome(s.take(k), a, inside, roster).matched,
    ensures
        and_outcome(s, a, inside, roster) == and_outcome(s.take(k), a, inside, roster),
    decreases s.len() - k,
{
    if k < s.len() {
        lemma_take_last(s, k);
        lemma_and_stops(s, a, inside, roster, k + 1);
    } else {
        assert(s.take(k) =~= s);
    }
}

/// Once a prefix of an `or` matches, the whole `or` matches.
proof fn lemma_or_stays(s: Seq<MatchExpr>, a: AssetSnapshot, inside: Seq<Area>, roster: Seq<Seq<char>>, k: int)
    requires
        0 <= k <= s.len(),
        or_outcome(s.take(k), a, inside, roster).matched,
    ensures
        or_outcome(s, a, inside, roster).matched,
    decreases s.len() - k,
{
    if k < s.len() {
        lemma_take_last(s, k);
        lemma_or_stays(s, a, inside, roster, k + 1);
    } else {
        assert(s.take(k) =~= s);
    }
}

/// Evaluates rule tree `e` on asset `a`; `inside` lists the circles of the
/// tree's location blocks that contain the asset.
pub fn evaluate_expr(e: &MatchExpr, a: &AssetSnapshot, inside: &Vec<Area>) -> (o: PredicateOutcome)
    ensures
        o == expr_outcome(*e, *a, inside@),
{
    let roster = e.referenced_person_ids();
    eval_tree(e, a, inside, &roster)
}


/// The circles of the tree's location blocks, in traversal order.
pub open spec fn tree_areas(e: MatchExpr) -> Seq<Area>
    decreases e,
{
    match e {
        MatchExpr::And(c) => seq_areas(c@),
        MatchExpr::Or(c) => seq_areas(c@),
        MatchExpr::Not(c) => tree_areas(*c),
        MatchExpr::Leaf(MatchLeaf::Location { center, radius_km }) => seq![area_of(center, radius_km)],
        MatchExpr::Leaf(_) => Seq::empty(),
    }
}

/// The circles of the trees of `s`, concatenated in order.
pub open spec fn seq_areas(s: Seq<MatchExpr>) -> Seq<Area>
    decreases s,
{
    if s.len() == 0 {
        Seq::empty()
    } else {
        seq_areas(s.drop_last()) + tree_areas(s.last())
    }
}

/// Appends the circles of `e` to `out`.
fn collect_areas(e: &MatchExpr, out: &mut Vec<Area>)
    ensures
        final(out)@ == old(out)@ + tree_areas(*e),
    decreases e,
{
    let ghost start = old(out)@;
    match e {
        MatchExpr::And(children) | MatchExpr::Or(children) => {
            let mut i: usize = 0;
            while i < children.len()
                invariant
                    (*e matches MatchExpr::And(c) && c == *children) || (*e matches MatchExpr::Or(c) && c == *children),
                    i <= children.len(),
                    out@ == start + seq_areas(children@.take(i as int)),
                decreases children.len() - i,
            {
                proof {
                    lemma_take_last(children@, i as int);
                    vstd::std_specs::vec::axiom_vec_index_decreases(*children, i as int);
                    assert(decreases_to!(*e => *children));
                }
                collect_areas(&children[i], out);
                proof {
                    assert(start + seq_areas(children@.take(i as int)) + tree_areas(children@[i as int])
                        =~= start + seq_areas(children@.take(i + 1)));
                }
                i += 1;
            }
            proof {
                assert(children@.take(children.len() as int) =~= children@);
            }
        },
        MatchExpr::Not(child) => collect_areas(child, out),
        MatchExpr::Leaf(MatchLeaf::Location { center, radius_km }) => {
            out.push(Area { lat: center[0], lng: center[1], radius_km: *radius_km });
            proof {
                assert(out@ =~= start + seq![area_of(*center, *radius_km)]);
            }
        },
        MatchExpr::Leaf(_) => {
            proof {
                assert(out@ =~= start + Seq::<Area>::empty());
            }
        },
    }
}

/// The circles of the location blocks of `e`, in traversal order: the
/// circles a caller tests the asset against before [`evaluate_expr`].
pub fn location_areas(e: &MatchExpr) -> (out: Vec<Area>)
    ensures
        out@ == tree_areas(*e),
{
    let mut out: Vec<Area> = Vec::new();
    collect_areas(e, &mut out);
    proof {
        assert(out@ =~= Seq::<Area>::empty() + tree_areas(*e));
    }
    out
}

/// A `not` over a `person` block in `includes` mode and a `person` block in
/// `must_exclude` mode reach the same verdict on every asset; only the
/// reason they report on a skip differs.
pub proof fn lemma_not_includes_is_must_exclude(
    person_id: String,
    a: AssetSnapshot,
    inside: Seq<Area>,
    roster: Seq<Seq<char>>,
)
    ensures
        tree_outcome(
            MatchExpr::Not(Box::new(MatchExpr::Leaf(MatchLeaf::Person { mode: PersonMode::Includes, person_id }))),
            a,
            inside,
            roster,
        ).matched == tree_outcome(
            MatchExpr::Leaf(MatchLeaf::Person { mode: PersonMode::MustExclude, person_id }),
            a,
            inside,
            roster,
        ).matched,
{
    let inner = MatchExpr::Leaf(MatchLeaf::Person { mode: PersonMode::Includes, person_id });
    assert(tree_outcome(inner, a, inside, roster) == leaf_outcome(
        MatchLeaf::Person { mode: PersonMode::Includes, person_id },
        a,
        inside,
        roster,
    ));
}

/// `x` occurs in tree `e` (as `e` itself or inside one of its groups).
pub open spec fn occurs_in(e: MatchExpr, x: MatchExpr) -> bool
    decreases e,
{
    e == x || match e {
        MatchExpr::And(c) => occurs_in_any(c@, x),
        MatchExpr::Or(c) => occurs_in_any(c@, x),
        MatchExpr::Not(c) => occurs_in(*c, x),
        MatchExpr::Leaf(_) => false,
    }
}

/// `x` occurs in one of the trees of `s`.
pub open spec fn occurs_in_any(s: Seq<MatchExpr>, x: MatchExpr) -> bool
    decreases s,
{
    s.len() > 0 && (occurs_in_any(s.drop_last(), x) || occurs_in(s.last(), x))
}

/// Membership in a concatenation of circle lists.
proof fn lemma_areas_concat_contains(x: Seq<Area>, y: Seq<Area>, v: Area)
    ensures
        (x + y).contains(v) == (x.contains(v) || y.contains(v)),
{
    if x.contains(v) {
        let i = choose|i: int| 0 <= i < x.len() && x[i] == v;
        assert((x + y)[i] == v);
    }
    if y.contains(v) {
        let j = choose|j: int| 0 <= j < y.len() && y[j] == v;
        assert((x + y)[x.len() + j] == v);
    }
    if (x + y).contains(v) {
        let k = choose|k: int| 0 <= k < (x + y).len() && (x + y)[k] == v;
        if k < x.len() {
            assert(x[k] == v);
        } else {
            assert(y[k - x.len()] == v);
        }
    }
}

/// Every location block of the tree, at any depth and under any group, has
/// its circle among the tree's circles, so [`location_areas`] lists it.
pub proof fn lemma_location_leaf_listed(e: MatchExpr, center: [FloatBits; 2], radius_km: FloatBits)
    requires
        occurs_in(e, MatchExpr::Leaf(MatchLeaf::Location { center, radius_km })),
    ensures
        tree_areas(e).contains(area_of(center, radius_km)),
    decreases e,
{
    let leaf = MatchExpr::Leaf(MatchLeaf::Location { center, radius_km });
    if e == leaf {
        assert(tree_areas(e) =~= seq![area_of(center, radius_km)]);
        assert(tree_areas(e)[0] == area_of(center, radius_km));
    } else {
        match e {
            MatchExpr::And(c) => {
                lemma_seq_location_listed(c@, center, radius_km);
            },
            MatchExpr::Or(c) => {
                lemma_seq_location_listed(c@, center, radius_km);
            },
            MatchExpr::Not(c) => {
                lemma_location_leaf_listed(*c, center, radius_km);
            },
            MatchExpr::Leaf(_) => {},
        }
    }
}

/// A location block in one of the trees of `s` has its circle among their
/// circles.
proof fn lemma_seq_location_listed(s: Seq<MatchExpr>, center: [FloatBits; 2], radius_km: FloatBits)
    requires
        occurs_in_any(s, MatchExpr::Leaf(MatchLeaf::Location { center, radius_km })),
    ensures
        seq_areas(s).contains(area_of(center, radius_km)),
    decreases s,
{
    let leaf = MatchExpr::Leaf(MatchLeaf::Location { center, radius_km });
    lemma_areas_concat_contains(seq_areas(s.drop_last()), tree_areas(s.last()), area_of(center, radius_km));
    if occurs_in_any(s.drop_last(), leaf) {
        lemma_seq_location_listed(s.drop_last(), center, radius_km);
    } else {
        lemma_location_leaf_listed(s.last(), center, radius_km);
    }
}

/// Every circle the tree lists is that of one of its location blocks.
pub proof fn lemma_listed_area_is_a_leaf(e: MatchExpr, x: Area) -> (leaf: ([FloatBits; 2], FloatBits))
    requires
        tree_areas(e).contains(x),
    ensures
        occurs_in(e, MatchExpr::Leaf(MatchLeaf::Location { center: leaf.0, radius_km: leaf.1 })),
        x == area_of(leaf.0, leaf.1),
    decreases e,
{
    match e {
        MatchExpr::And(c) => lemma_seq_listed_area_is_a_leaf(c@, x),
        MatchExpr::Or(c) => lemma_seq_listed_area_is_a_leaf(c@, x),
        MatchExpr::Not(c) => lemma_listed_area_is_a_leaf(*c, x),
        MatchExpr::Leaf(MatchLeaf::Location { center, radius_km }) => {
            assert(tree_areas(e) =~= seq![area_of(center, radius_km)]);
            (center, radius_km)
        },
        MatchExpr::Leaf(_) => {
            assert(tree_areas(e) =~= Seq::<Area>::empty());
            (arbitrary(), arbitrary())
        },
    }
}

proof fn lemma_seq_listed_area_is_a_leaf(s: Seq<MatchExpr>, x: Area) -> (leaf: ([FloatBits; 2], FloatBits))
    requires
        seq_areas(s).contains(x),
    ensures
        occurs_in_any(s, MatchExpr::Leaf(MatchLeaf::Location { center: leaf.0, radius_km: leaf.1 })),
        x == area_of(leaf.0, leaf.1),
    decreases s,
{
    if s.len() == 0 {
        assert(seq_areas(s) =~= Seq::<Area>::empty());
        (arbitrary(), arbitrary())
    } else {
        lemma_areas_concat_contains(seq_areas(s.drop_last()), tree_areas(s.last()), x);
        if seq_areas(s.drop_last()).contains(x) {
            lemma_seq_listed_area_is_a_leaf(s.drop_last(), x)
        } else {
            lemma_listed_area_is_a_leaf(s.last(), x)
        }
    }
}

} // verus!
