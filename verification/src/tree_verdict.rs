//! The verdict of a match tree (match or not) read off its view, and the
//! agreement of a legacy flat rule with the tree it converts to: the tree
//! matches an asset exactly when the flat rule does.

use vstd::prelude::*;

use crate::album_sync::{id_views, lemma_id_views_contains};
use crate::match_expr::{
    count_holds, legacy_children, legacy_date_part, legacy_location_part, legacy_media_part, legacy_people_children,
    legacy_people_part, legacy_tree, person_leaf, person_leaves, seq_person_ids, tree_person_ids, view_seq, ExprV,
    LeafV, MatchExpr, MatchLeaf, PersonMode,
};
use crate::predicate::{
    first_where, identified_count, ids_contain, media_of, reason_slug, roster_allows, spec_eval_date, spec_eval_people,
    spec_evaluate_match, spec_people_yolo,
    AssetSnapshot, DecisionReason,
};
use crate::schema::{DatePredicate, MatchSpec, PeoplePredicate};
use crate::tree_eval::{and_outcome, area_of, expr_outcome, leaf_outcome, or_outcome, tree_outcome, Area};

verus! {

/// Whether leaf `l` matches asset `a`; `inside` lists the circles that
/// contain the asset, `roster` the people the tree names.
pub open spec fn leaf_matches(l: LeafV, a: AssetSnapshot, inside: Seq<Area>, roster: Seq<Seq<char>>) -> bool {
    let faces = a.face_person_ids@;
    match l {
        LeafV::Person { mode, person_id } => match mode {
            PersonMode::MayInclude => true,
            PersonMode::MustExclude => !ids_contain(faces, person_id),
            _ => ids_contain(faces, person_id),
        },
        LeafV::PeopleCount { op, value } => a.yolo_person_count matches Some(y) && count_holds(op, y, value),
        LeafV::FaceRecognition { allow_unrecognized, yolo_count_check } => {
            &&& (allow_unrecognized || !(exists|k: int| 0 <= k < faces.len() && !roster.contains(#[trigger] faces[k]@)))
            &&& (!yolo_count_check || (a.yolo_person_count matches Some(y) && y <= identified_count(faces)))
        },
        LeafV::DateRange { from, to } => spec_eval_date(DatePredicate { from, to }, a).matched,
        LeafV::Location { center, radius_km } => a.gps is Some && inside.contains(area_of(center, radius_km)),
        LeafV::MediaType { types } => types.len() == 0 || types.contains(media_of(a.asset_type)),
    }
}

/// Whether tree `e` matches asset `a`.
pub open spec fn tree_matches(e: ExprV, a: AssetSnapshot, inside: Seq<Area>, roster: Seq<Seq<char>>) -> bool
    decreases e,
{
    match e {
        ExprV::And(c) => all_match(c, a, inside, roster),
        ExprV::Or(c) => any_match(c, a, inside, roster),
        ExprV::Not(c) => !tree_matches(*c, a, inside, roster),
        ExprV::Leaf(l) => leaf_matches(l, a, inside, roster),
    }
}

/// Every tree of `s` matches.
pub open spec fn all_match(s: Seq<ExprV>, a: AssetSnapshot, inside: Seq<Area>, roster: Seq<Seq<char>>) -> bool
    decreases s,
{
    if s.len() == 0 {
        true
    } else {
        all_match(s.drop_last(), a, inside, roster) && tree_matches(s.last(), a, inside, roster)
    }
}

/// Some tree of `s` matches.
pub open spec fn any_match(s: Seq<ExprV>, a: AssetSnapshot, inside: Seq<Area>, roster: Seq<Seq<char>>) -> bool
    decreases s,
{
    if s.len() == 0 {
        false
    } else {
        any_match(s.drop_last(), a, inside, roster) || tree_matches(s.last(), a, inside, roster)
    }
}

/// The location circle a legacy flat rule asks about holds the asset.
pub open spec fn legacy_within(spec: MatchSpec, inside: Seq<Area>) -> bool {
    match spec.location {
        Some(l) => inside.contains(area_of(l.center, l.radius_km)),
        None => false,
    }
}

// ---------------------------------------------------------------------------
// Helper lemmas.
// ---------------------------------------------------------------------------

/// A first index satisfying `pred` exists exactly when some index does.
proof fn lemma_first_where_some(s: Seq<String>, pred: spec_fn(Seq<char>) -> bool)
    ensures
        first_where(s, pred) is Some <==> exists|k: int| 0 <= k < s.len() && pred(#[trigger] s[k]@),
{
    if exists|k: int| 0 <= k < s.len() && pred(#[trigger] s[k]@) {
        let k = choose|k: int| 0 <= k < s.len() && pred(#[trigger] s[k]@);
        lemma_least_witness(s, pred, k);
    }
}

/// Below a witness there is a least one.
proof fn lemma_least_witness(s: Seq<String>, pred: spec_fn(Seq<char>) -> bool, k: int)
    requires
        0 <= k < s.len(),
        pred(s[k]@),
    ensures
        exists|m: int| 0 <= m < s.len() && pred(#[trigger] s[m]@) && (forall|j: int| 0 <= j < m ==> !pred(#[trigger] s[j]@)),
    decreases k,
{
    if exists|j: int| 0 <= j < k && pred(#[trigger] s[j]@) {
        let j = choose|j: int| 0 <= j < k && pred(#[trigger] s[j]@);
        lemma_least_witness(s, pred, j);
    } else {
        assert(forall|j: int| 0 <= j < k ==> !pred(#[trigger] s[j]@));
    }
}

/// Membership in a concatenation.
proof fn lemma_concat_contains(x: Seq<Seq<char>>, y: Seq<Seq<char>>, v: Seq<char>)
    ensures
        (x + y).contains(v) == (x.contains(v) || y.contains(v)),
{
    if x.contains(v) {
        let i = choose|i: int| 0 <= i < x.len() && x[i] == v;
        assert((x + y)[i] == v);
    }
    if y.contains(v) {
        let j = choose|j: int| 0 <= j < y.len() && y[j] == v;
        assert((x + y)[x.len() + j] == v);
    }
    if (x + y).contains(v) {
        let k = choose|k: int| 0 <= k < (x + y).len() && (x + y)[k] == v;
        if k < x.len() {
            assert(x[k] == v);
        } else {
            assert(y[k - x.len()] == v);
        }
    }
}

/// `all_match` of a concatenation.
proof fn lemma_all_match_concat(x: Seq<ExprV>, y: Seq<ExprV>, a: AssetSnapshot, inside: Seq<Area>, roster: Seq<Seq<char>>)
    ensures
        all_match(x + y, a, inside, roster) == (all_match(x, a, inside, roster) && all_match(y, a, inside, roster)),
    decreases y.len(),
{
    if y.len() == 0 {
        assert(x + y =~= x);
    } else {
        assert((x + y).drop_last() =~= x + y.drop_last());
        assert((x + y).last() == y.last());
        lemma_all_match_concat(x, y.drop_last(), a, inside, roster);
    }
}

/// `all_match` is every element matching.
proof fn lemma_all_match_forall(s: Seq<ExprV>, a: AssetSnapshot, inside: Seq<Area>, roster: Seq<Seq<char>>)
    ensures
        all_match(s, a, inside, roster) == (forall|i: int| 0 <= i < s.len() ==> #[trigger] tree_matches(s[i], a, inside, roster)),
    decreases s.len(),
{
    if s.len() > 0 {
        lemma_all_match_forall(s.drop_last(), a, inside, roster);
        if all_match(s, a, inside, roster) {
            assert forall|i: int| 0 <= i < s.len() implies #[trigger] tree_matches(s[i], a, inside, roster) by {
                if i < s.len() - 1 {
                    assert(s.drop_last()[i] == s[i]);
                }
            }
        }
        if forall|i: int| 0 <= i < s.len() ==> #[trigger] tree_matches(s[i], a, inside, roster) {
            assert forall|i: int| 0 <= i < s.drop_last().len() implies #[trigger] tree_matches(s.drop_last()[i], a, inside, roster) by {
                assert(s.drop_last()[i] == s[i]);
            }
            assert(tree_matches(s[s.len() - 1], a, inside, roster));
        }
    }
}

/// `any_match` is some element matching.
proof fn lemma_any_match_exists(s: Seq<ExprV>, a: AssetSnapshot, inside: Seq<Area>, roster: Seq<Seq<char>>)
    ensures
        any_match(s, a, inside, roster) == (exists|i: int| 0 <= i < s.len() && #[trigger] tree_matches(s[i], a, inside, roster)),
    decreases s.len(),
{
    if s.len() > 0 {
        lemma_any_match_exists(s.drop_last(), a, inside, roster);
        if any_match(s.drop_last(), a, inside, roster) {
            let i = choose|i: int| 0 <= i < s.drop_last().len() && #[trigger] tree_matches(s.drop_last()[i], a, inside, roster);
            assert(s.drop_last()[i] == s[i]);
            assert(tree_matches(s[i], a, inside, roster));
        }
        if tree_matches(s.last(), a, inside, roster) {
            assert(tree_matches(s[s.len() - 1], a, inside, roster));
        }
        if exists|i: int| 0 <= i < s.len() && #[trigger] tree_matches(s[i], a, inside, roster) {
            let i = choose|i: int| 0 <= i < s.len() && #[trigger] tree_matches(s[i], a, inside, roster);
            if i < s.len() - 1 {
                assert(s.drop_last()[i] == s[i]);
                assert(tree_matches(s.drop_last()[i], a, inside, roster));
            }
        }
    }
}

/// The person ids of a concatenation.
proof fn lemma_seq_person_ids_concat(x: Seq<ExprV>, y: Seq<ExprV>)
    ensures
        seq_person_ids(x + y) == seq_person_ids(x) + seq_person_ids(y),
    decreases y.len(),
{
    if y.len() == 0 {
        assert(x + y =~= x);
        assert(seq_person_ids(x) + seq_person_ids(y) =~= seq_person_ids(x));
    } else {
        assert((x + y).drop_last() =~= x + y.drop_last());
        assert((x + y).last() == y.last());
        lemma_seq_person_ids_concat(x, y.drop_last());
        assert(seq_person_ids(x) + seq_person_ids(y.drop_last()) + tree_person_ids(y.last())
            =~= seq_person_ids(x) + (seq_person_ids(y.drop_last()) + tree_person_ids(y.last())));
    }
}

/// The person ids of a run of person leaves are their ids.
proof fn lemma_person_leaves_ids(mode: PersonMode, ids: Seq<String>)
    ensures
        seq_person_ids(person_leaves(mode, ids)) == id_views(ids),
    decreases ids.len(),
{
    if ids.len() > 0 {
        lemma_person_leaves_ids(mode, ids.drop_last());
        let pl = person_leaves(mode, ids);
        assert(pl.drop_last() =~= person_leaves(mode, ids.drop_last()));
        assert(pl.last() == person_leaf(mode, ids.last()@));
        assert(tree_person_ids(pl.last()) == seq![ids.last()@]);
        assert(seq_person_ids(pl) == seq_person_ids(pl.drop_last()) + tree_person_ids(pl.last()));
        assert(id_views(ids) =~= id_views(ids.drop_last()) + seq![ids.last()@]);
    } else {
        assert(id_views(ids) =~= Seq::<Seq<char>>::empty());
    }
}

/// A run of person leaves matches when each of its leaves does.
proof fn lemma_person_leaves_match(
    mode: PersonMode,
    ids: Seq<String>,
    a: AssetSnapshot,
    inside: Seq<Area>,
    roster: Seq<Seq<char>>,
)
    ensures
        all_match(person_leaves(mode, ids), a, inside, roster) == (forall|j: int|
            0 <= j < ids.len() ==> leaf_matches(
                LeafV::Person { mode, person_id: #[trigger] ids[j]@ },
                a,
                inside,
                roster,
            )),
{
    let s = person_leaves(mode, ids);
    lemma_all_match_forall(s, a, inside, roster);
    assert forall|j: int| 0 <= j < ids.len() implies s[j] == person_leaf(mode, ids[j]@) by {}
    if all_match(s, a, inside, roster) {
        assert forall|j: int| 0 <= j < ids.len() implies leaf_matches(
            LeafV::Person { mode, person_id: #[trigger] ids[j]@ },
            a,
            inside,
            roster,
        ) by {
            assert(tree_matches(s[j], a, inside, roster));
        }
    }
    if forall|j: int|
        0 <= j < ids.len() ==> leaf_matches(LeafV::Person { mode, person_id: #[trigger] ids[j]@ }, a, inside, roster) {
        assert forall|i: int| 0 <= i < s.len() implies #[trigger] tree_matches(s[i], a, inside, roster) by {
            assert(leaf_matches(LeafV::Person { mode, person_id: ids[i]@ }, a, inside, roster));
        }
    }
}

/// A run of person leaves has a match when one of its leaves does.
proof fn lemma_person_leaves_any(
    mode: PersonMode,
    ids: Seq<String>,
    a: AssetSnapshot,
    inside: Seq<Area>,
    roster: Seq<Seq<char>>,
)
    ensures
        any_match(person_leaves(mode, ids), a, inside, roster) == (exists|j: int|
            0 <= j < ids.len() && leaf_matches(
                LeafV::Person { mode, person_id: #[trigger] ids[j]@ },
                a,
                inside,
                roster,
            )),
{
    let s = person_leaves(mode, ids);
    lemma_any_match_exists(s, a, inside, roster);
    if any_match(s, a, inside, roster) {
        let i = choose|i: int| 0 <= i < s.len() && #[trigger] tree_matches(s[i], a, inside, roster);
        assert(s[i] == person_leaf(mode, ids[i]@));
        assert(leaf_matches(LeafV::Person { mode, person_id: ids[i]@ }, a, inside, roster));
    }
    if exists|j: int|
        0 <= j < ids.len() && leaf_matches(LeafV::Person { mode, person_id: #[trigger] ids[j]@ }, a, inside, roster) {
        let j = choose|j: int|
            0 <= j < ids.len() && leaf_matches(LeafV::Person { mode, person_id: #[trigger] ids[j]@ }, a, inside, roster);
        assert(s[j] == person_leaf(mode, ids[j]@));
        assert(tree_matches(s[j], a, inside, roster));
    }
}

// ---------------------------------------------------------------------------
// The verdict of an outcome.
// ---------------------------------------------------------------------------

/// A leaf's outcome matches exactly when its view does.
pub proof fn lemma_leaf_verdict(l: MatchLeaf, a: AssetSnapshot, inside: Seq<Area>, roster: Seq<Seq<char>>)
    ensures
        leaf_outcome(l, a, inside, roster).matched == leaf_matches(l@, a, inside, roster),
{
    if let MatchLeaf::FaceRecognition { .. } = l {
        lemma_first_where_some(a.face_person_ids@, |id: Seq<char>| !roster.contains(id));
    }
}

/// A tree's outcome matches exactly when its view does.
pub proof fn lemma_tree_verdict(e: MatchExpr, a: AssetSnapshot, inside: Seq<Area>, roster: Seq<Seq<char>>)
    ensures
        tree_outcome(e, a, inside, roster).matched == tree_matches(e@, a, inside, roster),
    decreases e,
{
    match e {
        MatchExpr::And(c) => {
            lemma_and_verdict(c@, a, inside, roster);
            assert(tree_outcome(e, a, inside, roster) == and_outcome(c@, a, inside, roster));
        },
        MatchExpr::Or(c) => {
            lemma_or_verdict(c@, a, inside, roster);
            assert(tree_outcome(e, a, inside, roster) == or_outcome(c@, a, inside, roster));
        },
        MatchExpr::Not(c) => {
            lemma_tree_verdict(*c, a, inside, roster);
        },
        MatchExpr::Leaf(l) => {
            lemma_leaf_verdict(l, a, inside, roster);
        },
    }
}

/// An `and` over `s` matches exactly when every view does.
proof fn lemma_and_verdict(s: Seq<MatchExpr>, a: AssetSnapshot, inside: Seq<Area>, roster: Seq<Seq<char>>)
    ensures
        and_outcome(s, a, inside, roster).matched == all_match(view_seq(s), a, inside, roster),
    decreases s,
{
    if s.len() > 0 {
        lemma_and_verdict(s.drop_last(), a, inside, roster);
        lemma_tree_verdict(s.last(), a, inside, roster);
        assert(view_seq(s).drop_last() =~= view_seq(s.drop_last()));
    }
}

/// An `or` over `s` matches exactly when some view does.
proof fn lemma_or_verdict(s: Seq<MatchExpr>, a: AssetSnapshot, inside: Seq<Area>, roster: Seq<Seq<char>>)
    ensures
        or_outcome(s, a, inside, roster).matched == any_match(view_seq(s), a, inside, roster),
    decreases s,
{
    if s.len() > 0 {
        lemma_or_verdict(s.drop_last(), a, inside, roster);
        lemma_tree_verdict(s.last(), a, inside, roster);
        assert(view_seq(s).drop_last() =~= view_seq(s.drop_last()));
    }
}

// ---------------------------------------------------------------------------
// A legacy flat rule and its tree.
// ---------------------------------------------------------------------------

/// A one-tree sequence matches when its tree does.
proof fn lemma_all_match_single(x: ExprV, a: AssetSnapshot, inside: Seq<Area>, roster: Seq<Seq<char>>)
    ensures
        all_match(seq![x], a, inside, roster) == tree_matches(x, a, inside, roster),
{
    let e = Seq::<ExprV>::empty();
    assert(all_match(e, a, inside, roster));
    assert(seq![x].drop_last() =~= e);
    assert(seq![x].last() == x);
    assert(all_match(seq![x], a, inside, roster) == (all_match(seq![x].drop_last(), a, inside, roster)
        && tree_matches(seq![x].last(), a, inside, roster)));
}

/// The people of a one-tree sequence are its tree's.
proof fn lemma_person_ids_single(x: ExprV)
    ensures
        seq_person_ids(seq![x]) == tree_person_ids(x),
{
    let e = Seq::<ExprV>::empty();
    assert(seq_person_ids(e) == Seq::<Seq<char>>::empty());
    assert(seq![x].drop_last() =~= e);
    assert(seq![x].last() == x);
    assert(seq_person_ids(seq![x]) == seq_person_ids(seq![x].drop_last()) + tree_person_ids(seq![x].last()));
    assert(Seq::<Seq<char>>::empty() + tree_person_ids(x) =~= tree_person_ids(x));
}

/// The part of the people blocks that the any-of alternatives become.
spec fn any_of_part(p: PeoplePredicate) -> Seq<ExprV> {
    let any_of = person_leaves(PersonMode::MustInclude, p.must_include_any_of@);
    if any_of.len() == 0 {
        Seq::empty()
    } else if any_of.len() == 1 {
        any_of
    } else {
        seq![ExprV::Or(any_of)]
    }
}

/// The part of the people blocks that the roster and count checks become.
spec fn face_part(p: PeoplePredicate) -> Seq<ExprV> {
    if p.must_exclude_other_identifiable || p.no_unidentified_humans {
        seq![ExprV::Leaf(LeafV::FaceRecognition {
            allow_unrecognized: !p.must_exclude_other_identifiable,
            yolo_count_check: p.no_unidentified_humans,
        })]
    } else {
        Seq::empty()
    }
}

/// The people blocks, part by part.
proof fn lemma_people_parts(p: PeoplePredicate)
    ensures
        legacy_people_children(p) == person_leaves(PersonMode::MustInclude, p.must_include@) + any_of_part(p)
            + person_leaves(PersonMode::MayInclude, p.may_include@) + person_leaves(PersonMode::MustExclude, p.must_exclude@)
            + face_part(p),
{
}

/// The people the people blocks name: every id of the four lists.
proof fn lemma_people_roster(p: PeoplePredicate, f: Seq<char>)
    ensures
        seq_person_ids(legacy_people_children(p)).contains(f) == (roster_allows(p, f) || ids_contain(p.must_exclude@, f)),
{
    let mi = person_leaves(PersonMode::MustInclude, p.must_include@);
    let may = person_leaves(PersonMode::MayInclude, p.may_include@);
    let me = person_leaves(PersonMode::MustExclude, p.must_exclude@);
    let any = any_of_part(p);
    let fr = face_part(p);
    lemma_people_parts(p);
    lemma_seq_person_ids_concat(mi, any);
    lemma_seq_person_ids_concat(mi + any, may);
    lemma_seq_person_ids_concat(mi + any + may, me);
    lemma_seq_person_ids_concat(mi + any + may + me, fr);
    lemma_person_leaves_ids(PersonMode::MustInclude, p.must_include@);
    lemma_person_leaves_ids(PersonMode::MayInclude, p.may_include@);
    lemma_person_leaves_ids(PersonMode::MustExclude, p.must_exclude@);
    lemma_person_leaves_ids(PersonMode::MustInclude, p.must_include_any_of@);
    let leaves = person_leaves(PersonMode::MustInclude, p.must_include_any_of@);
    if leaves.len() >= 2 {
        lemma_person_ids_single(ExprV::Or(leaves));
    }
    assert(seq_person_ids(any) == id_views(p.must_include_any_of@)) by {
        if leaves.len() == 0 {
            assert(id_views(p.must_include_any_of@) =~= Seq::<Seq<char>>::empty());
        }
    }
    if p.must_exclude_other_identifiable || p.no_unidentified_humans {
        lemma_person_ids_single(fr[0]);
        assert(fr == seq![fr[0]]);
    }
    assert(seq_person_ids(fr) =~= Seq::<Seq<char>>::empty());
    let ids = id_views(p.must_include@) + id_views(p.must_include_any_of@) + id_views(p.may_include@) + id_views(
        p.must_exclude@,
    );
    assert(seq_person_ids(legacy_people_children(p)) =~= ids + Seq::<Seq<char>>::empty());
    assert(ids + Seq::<Seq<char>>::empty() =~= ids);
    lemma_concat_contains(id_views(p.must_include@), id_views(p.must_include_any_of@), f);
    lemma_concat_contains(id_views(p.must_include@) + id_views(p.must_include_any_of@), id_views(p.may_include@), f);
    lemma_concat_contains(
        id_views(p.must_include@) + id_views(p.must_include_any_of@) + id_views(p.may_include@),
        id_views(p.must_exclude@),
        f,
    );
    lemma_id_views_contains(p.must_include@, f);
    lemma_id_views_contains(p.must_include_any_of@, f);
    lemma_id_views_contains(p.may_include@, f);
    lemma_id_views_contains(p.must_exclude@, f);
}

/// The must-include leaves match exactly when no must-include person is
/// missing.
proof fn lemma_must_include_part(p: PeoplePredicate, a: AssetSnapshot, inside: Seq<Area>, roster: Seq<Seq<char>>)
    ensures
        all_match(person_leaves(PersonMode::MustInclude, p.must_include@), a, inside, roster) == first_where(
            p.must_include@,
            |id: Seq<char>| !ids_contain(a.face_person_ids@, id),
        ) is None,
{
    lemma_person_leaves_match(PersonMode::MustInclude, p.must_include@, a, inside, roster);
    lemma_first_where_some(p.must_include@, |id: Seq<char>| !ids_contain(a.face_person_ids@, id));
}

/// The any-of part matches exactly when the list is empty or one of its
/// people is present.
proof fn lemma_any_of_part(p: PeoplePredicate, a: AssetSnapshot, inside: Seq<Area>, roster: Seq<Seq<char>>)
    ensures
        all_match(any_of_part(p), a, inside, roster) == (p.must_include_any_of@.len() == 0 || exists|j: int|
            0 <= j < p.must_include_any_of@.len() && ids_contain(a.face_person_ids@, #[trigger] p.must_include_any_of@[j]@)),
{
    let ids = p.must_include_any_of@;
    let leaves = person_leaves(PersonMode::MustInclude, ids);
    assert(leaves.len() == ids.len());
    if ids.len() == 0 {
        assert(all_match(Seq::<ExprV>::empty(), a, inside, roster));
    } else if ids.len() == 1 {
        lemma_person_leaves_match(PersonMode::MustInclude, ids, a, inside, roster);
        if ids_contain(a.face_person_ids@, ids[0]@) {
            assert forall|j: int| 0 <= j < ids.len() implies leaf_matches(
                LeafV::Person { mode: PersonMode::MustInclude, person_id: #[trigger] ids[j]@ },
                a,
                inside,
                roster,
            ) by {
                assert(j == 0);
            }
        }
    } else {
        lemma_all_match_single(ExprV::Or(leaves), a, inside, roster);
        lemma_person_leaves_any(PersonMode::MustInclude, ids, a, inside, roster);
    }
}

/// The may-include leaves always match.
proof fn lemma_may_include_part(p: PeoplePredicate, a: AssetSnapshot, inside: Seq<Area>, roster: Seq<Seq<char>>)
    ensures
        all_match(person_leaves(PersonMode::MayInclude, p.may_include@), a, inside, roster),
{
    lemma_person_leaves_match(PersonMode::MayInclude, p.may_include@, a, inside, roster);
}

/// The must-exclude leaves match exactly when no excluded person is present.
proof fn lemma_must_exclude_part(p: PeoplePredicate, a: AssetSnapshot, inside: Seq<Area>, roster: Seq<Seq<char>>)
    ensures
        all_match(person_leaves(PersonMode::MustExclude, p.must_exclude@), a, inside, roster) == first_where(
            p.must_exclude@,
            |id: Seq<char>| ids_contain(a.face_person_ids@, id),
        ) is None,
        all_match(person_leaves(PersonMode::MustExclude, p.must_exclude@), a, inside, roster) == (forall|j: int|
            0 <= j < p.must_exclude@.len() ==> !ids_contain(a.face_person_ids@, #[trigger] p.must_exclude@[j]@)),
{
    lemma_person_leaves_match(PersonMode::MustExclude, p.must_exclude@, a, inside, roster);
    lemma_first_where_some(p.must_exclude@, |id: Seq<char>| ids_contain(a.face_person_ids@, id));
}

/// With no excluded person present, the roster and count part matches
/// exactly when the flat rule's roster and count checks pass.
proof fn lemma_face_part(p: PeoplePredicate, a: AssetSnapshot, inside: Seq<Area>, roster: Seq<Seq<char>>)
    requires
        forall|f: Seq<char>| #[trigger] roster.contains(f) == (roster_allows(p, f) || ids_contain(p.must_exclude@, f)),
        forall|j: int| 0 <= j < p.must_exclude@.len() ==> !ids_contain(a.face_person_ids@, #[trigger] p.must_exclude@[j]@),
    ensures
        all_match(face_part(p), a, inside, roster) == (!(p.must_exclude_other_identifiable && first_where(
            a.face_person_ids@,
            |id: Seq<char>| !roster_allows(p, id),
        ) is Some) && spec_people_yolo(p, a).matched),
{
    let faces = a.face_person_ids@;
    lemma_first_where_some(faces, |id: Seq<char>| !roster_allows(p, id));
    assert forall|k: int| 0 <= k < faces.len() implies roster.contains(#[trigger] faces[k]@) == roster_allows(p, faces[k]@) by {
        if ids_contain(p.must_exclude@, faces[k]@) {
            let j = choose|j: int| 0 <= j < p.must_exclude@.len() && #[trigger] p.must_exclude@[j]@ == faces[k]@;
            assert(ids_contain(faces, p.must_exclude@[j]@));
        }
    }
    if p.must_exclude_other_identifiable || p.no_unidentified_humans {
        let fr = ExprV::Leaf(LeafV::FaceRecognition {
            allow_unrecognized: !p.must_exclude_other_identifiable,
            yolo_count_check: p.no_unidentified_humans,
        });
        lemma_all_match_single(fr, a, inside, roster);
    } else {
        assert(all_match(Seq::<ExprV>::empty(), a, inside, roster));
    }
}

/// The people blocks match exactly when the flat people predicate does,
/// given a roster of every person the blocks name.
proof fn lemma_people_verdict(p: PeoplePredicate, a: AssetSnapshot, inside: Seq<Area>, roster: Seq<Seq<char>>)
    requires
        forall|f: Seq<char>| #[trigger] roster.contains(f) == (roster_allows(p, f) || ids_contain(p.must_exclude@, f)),
    ensures
        all_match(legacy_people_children(p), a, inside, roster) == spec_eval_people(p, a).matched,
{
    let mi = person_leaves(PersonMode::MustInclude, p.must_include@);
    let may = person_leaves(PersonMode::MayInclude, p.may_include@);
    let me = person_leaves(PersonMode::MustExclude, p.must_exclude@);
    let any = any_of_part(p);
    let fr = face_part(p);
    lemma_people_parts(p);
    lemma_all_match_concat(mi, any, a, inside, roster);
    lemma_all_match_concat(mi + any, may, a, inside, roster);
    lemma_all_match_concat(mi + any + may, me, a, inside, roster);
    lemma_all_match_concat(mi + any + may + me, fr, a, inside, roster);
    lemma_must_include_part(p, a, inside, roster);
    lemma_any_of_part(p, a, inside, roster);
    lemma_may_include_part(p, a, inside, roster);
    lemma_must_exclude_part(p, a, inside, roster);
    if all_match(me, a, inside, roster) {
        lemma_face_part(p, a, inside, roster);
    }
}

/// The tree of a legacy rule matches as the and of its blocks, and names
/// the people its blocks name.
proof fn lemma_legacy_shape(spec: MatchSpec, a: AssetSnapshot, inside: Seq<Area>, roster: Seq<Seq<char>>)
    ensures
        tree_matches(legacy_tree(spec), a, inside, roster) == all_match(legacy_children(spec), a, inside, roster),
        tree_person_ids(legacy_tree(spec)) == seq_person_ids(legacy_children(spec)),
{
    let c = legacy_children(spec);
    if c.len() == 0 {
        assert(c =~= Seq::<ExprV>::empty());
    } else if c.len() == 1 {
        assert(c =~= seq![c[0]]);
        lemma_all_match_single(c[0], a, inside, roster);
        lemma_person_ids_single(c[0]);
    }
}

/// The people a legacy rule's tree names are those of its people blocks.
proof fn lemma_legacy_roster(spec: MatchSpec)
    ensures
        seq_person_ids(legacy_children(spec)) == seq_person_ids(legacy_people_part(spec)),
{
    let m = legacy_media_part(spec);
    let d = legacy_date_part(spec);
    let l = legacy_location_part(spec);
    let pp = legacy_people_part(spec);
    lemma_seq_person_ids_concat(m, d);
    lemma_seq_person_ids_concat(m + d, l);
    lemma_seq_person_ids_concat(m + d + l, pp);
    let e = Seq::<ExprV>::empty();
    assert(seq_person_ids(e) == Seq::<Seq<char>>::empty());
    if m.len() > 0 {
        lemma_person_ids_single(m[0]);
        assert(m == seq![m[0]]);
    } else {
        assert(m =~= e);
    }
    if d.len() > 0 {
        lemma_person_ids_single(d[0]);
        assert(d == seq![d[0]]);
    } else {
        assert(d =~= e);
    }
    if l.len() > 0 {
        lemma_person_ids_single(l[0]);
        assert(l == seq![l[0]]);
    } else {
        assert(l =~= e);
    }
    assert(seq_person_ids(m) + seq_person_ids(d) + seq_person_ids(l) + seq_person_ids(pp) =~= seq_person_ids(pp));
}

/// The blocks of a legacy rule all match exactly when the flat rule does.
proof fn lemma_legacy_children_verdict(spec: MatchSpec, a: AssetSnapshot, inside: Seq<Area>, roster: Seq<Seq<char>>)
    requires
        spec.people matches Some(p) ==> forall|f: Seq<char>| #[trigger] roster.contains(f) == (roster_allows(p, f)
            || ids_contain(p.must_exclude@, f)),
    ensures
        all_match(legacy_children(spec), a, inside, roster) == spec_evaluate_match(
            spec,
            a,
            legacy_within(spec, inside),
        ).matched,
{
    let m = legacy_media_part(spec);
    let d = legacy_date_part(spec);
    let l = legacy_location_part(spec);
    let pp = legacy_people_part(spec);
    lemma_all_match_concat(m, d, a, inside, roster);
    lemma_all_match_concat(m + d, l, a, inside, roster);
    lemma_all_match_concat(m + d + l, pp, a, inside, roster);
    let e = Seq::<ExprV>::empty();
    assert(all_match(e, a, inside, roster));
    if m.len() > 0 {
        lemma_all_match_single(m[0], a, inside, roster);
        assert(m == seq![m[0]]);
    } else {
        assert(m =~= e);
    }
    if d.len() > 0 {
        lemma_all_match_single(d[0], a, inside, roster);
        assert(d == seq![d[0]]);
    } else {
        assert(d =~= e);
    }
    if l.len() > 0 {
        lemma_all_match_single(l[0], a, inside, roster);
        assert(l == seq![l[0]]);
    } else {
        assert(l =~= e);
    }
    match spec.people {
        Some(p) => lemma_people_verdict(p, a, inside, roster),
        None => assert(pp =~= e),
    }
}

/// A legacy flat rule and the tree it converts to decide alike: the tree
/// matches an asset exactly when the flat rule does, the flat rule's
/// location block being answered by the same circles.
pub proof fn lemma_legacy_tree_agrees(spec: MatchSpec, e: MatchExpr, a: AssetSnapshot, inside: Seq<Area>)
    requires
        e@ == legacy_tree(spec),
    ensures
        expr_outcome(e, a, inside).matched == spec_evaluate_match(spec, a, legacy_within(spec, inside)).matched,
{
    let roster = tree_person_ids(e@);
    lemma_tree_verdict(e, a, inside, roster);
    lemma_legacy_shape(spec, a, inside, roster);
    lemma_legacy_roster(spec);
    if let Some(p) = spec.people {
        assert forall|f: Seq<char>| #[trigger] roster.contains(f) == (roster_allows(p, f) || ids_contain(p.must_exclude@, f)) by {
            lemma_people_roster(p, f);
        }
    }
    lemma_legacy_children_verdict(spec, a, inside, roster);
}

// ---------------------------------------------------------------------------
// The reason a tree reports.
// ---------------------------------------------------------------------------

/// The reason slug leaf `l` reports on asset `a`.
pub open spec fn leaf_slug(l: LeafV, a: AssetSnapshot, inside: Seq<Area>, roster: Seq<Seq<char>>) -> Seq<char> {
    let faces = a.face_person_ids@;
    match l {
        LeafV::Person { mode, person_id } => match mode {
            PersonMode::MayInclude => "matched"@,
            PersonMode::MustExclude => if ids_contain(faces, person_id) {
                "people_must_exclude_present"@
            } else {
                "matched"@
            },
            _ => if ids_contain(faces, person_id) {
                "matched"@
            } else {
                "people_must_include_missing"@
            },
        },
        LeafV::PeopleCount { op, value } => match a.yolo_person_count {
            None => "yolo_unimplemented"@,
            Some(y) => if count_holds(op, y, value) {
                "matched"@
            } else {
                "people_count_mismatch"@
            },
        },
        LeafV::FaceRecognition { allow_unrecognized, yolo_count_check } => {
            if !allow_unrecognized && exists|k: int| 0 <= k < faces.len() && !roster.contains(#[trigger] faces[k]@) {
                "people_other_identifiable_present"@
            } else if !yolo_count_check {
                "matched"@
            } else {
                match a.yolo_person_count {
                    None => "yolo_unimplemented"@,
                    Some(y) => if y > identified_count(faces) {
                        "people_unidentified_human_present"@
                    } else {
                        "matched"@
                    },
                }
            }
        },
        LeafV::DateRange { from, to } => reason_slug(spec_eval_date(DatePredicate { from, to }, a).reason),
        LeafV::Location { center, radius_km } => match a.gps {
            None => "location_missing_gps"@,
            Some(_) => if inside.contains(area_of(center, radius_km)) {
                "matched"@
            } else {
                "location_out_of_range"@
            },
        },
        LeafV::MediaType { types } => if types.len() == 0 || types.contains(media_of(a.asset_type)) {
            "matched"@
        } else {
            "media_type_mismatch"@
        },
    }
}

/// The reason slug tree `e` reports on asset `a`.
pub open spec fn tree_slug(e: ExprV, a: AssetSnapshot, inside: Seq<Area>, roster: Seq<Seq<char>>) -> Seq<char>
    decreases e,
{
    match e {
        ExprV::And(c) => and_slug(c, a, inside, roster),
        ExprV::Or(c) => if any_match(c, a, inside, roster) {
            "matched"@
        } else {
            "tree_short_circuit_or"@
        },
        ExprV::Not(c) => if tree_matches(*c, a, inside, roster) {
            "not_branch_satisfied"@
        } else {
            "matched"@
        },
        ExprV::Leaf(l) => leaf_slug(l, a, inside, roster),
    }
}

/// The reason slug an `and` over `s` reports: that of its first child
/// that does not match.
pub open spec fn and_slug(s: Seq<ExprV>, a: AssetSnapshot, inside: Seq<Area>, roster: Seq<Seq<char>>) -> Seq<char>
    decreases s,
{
    if s.len() == 0 {
        "matched"@
    } else if !all_match(s.drop_last(), a, inside, roster) {
        and_slug(s.drop_last(), a, inside, roster)
    } else {
        tree_slug(s.last(), a, inside, roster)
    }
}

/// A leaf's outcome reports the slug of its view.
pub proof fn lemma_leaf_slug(l: MatchLeaf, a: AssetSnapshot, inside: Seq<Area>, roster: Seq<Seq<char>>)
    ensures
        reason_slug(leaf_outcome(l, a, inside, roster).reason) == leaf_slug(l@, a, inside, roster),
{
    if let MatchLeaf::FaceRecognition { .. } = l {
        lemma_first_where_some(a.face_person_ids@, |id: Seq<char>| !roster.contains(id));
    }
}

/// A tree's outcome reports the slug of its view.
pub proof fn lemma_tree_slug(e: MatchExpr, a: AssetSnapshot, inside: Seq<Area>, roster: Seq<Seq<char>>)
    ensures
        reason_slug(tree_outcome(e, a, inside, roster).reason) == tree_slug(e@, a, inside, roster),
    decreases e,
{
    match e {
        MatchExpr::And(c) => {
            lemma_and_slug(c@, a, inside, roster);
            assert(tree_outcome(e, a, inside, roster) == and_outcome(c@, a, inside, roster));
        },
        MatchExpr::Or(c) => {
            lemma_or_verdict(c@, a, inside, roster);
            assert(tree_outcome(e, a, inside, roster) == or_outcome(c@, a, inside, roster));
        },
        MatchExpr::Not(c) => {
            lemma_tree_verdict(*c, a, inside, roster);
        },
        MatchExpr::Leaf(l) => {
            lemma_leaf_slug(l, a, inside, roster);
        },
    }
}

/// An `and` over `s` reports the slug of its view.
proof fn lemma_and_slug(s: Seq<MatchExpr>, a: AssetSnapshot, inside: Seq<Area>, roster: Seq<Seq<char>>)
    ensures
        reason_slug(and_outcome(s, a, inside, roster).reason) == and_slug(view_seq(s), a, inside, roster),
    decreases s,
{
    if s.len() > 0 {
        lemma_and_slug(s.drop_last(), a, inside, roster);
        lemma_and_verdict(s.drop_last(), a, inside, roster);
        lemma_tree_slug(s.last(), a, inside, roster);
        assert(view_seq(s).drop_last() =~= view_seq(s.drop_last()));
    }
}

/// A tree that matches reports `matched`.
proof fn lemma_tree_slug_matched(e: ExprV, a: AssetSnapshot, inside: Seq<Area>, roster: Seq<Seq<char>>)
    ensures
        tree_matches(e, a, inside, roster) ==> tree_slug(e, a, inside, roster) == "matched"@,
    decreases e,
{
    match e {
        ExprV::And(c) => lemma_and_slug_matched(c, a, inside, roster),
        _ => {},
    }
}

/// An `and` whose children all match reports `matched`.
proof fn lemma_and_slug_matched(s: Seq<ExprV>, a: AssetSnapshot, inside: Seq<Area>, roster: Seq<Seq<char>>)
    ensures
        all_match(s, a, inside, roster) ==> and_slug(s, a, inside, roster) == "matched"@,
    decreases s,
{
    if s.len() > 0 {
        lemma_and_slug_matched(s.drop_last(), a, inside, roster);
        lemma_tree_slug_matched(s.last(), a, inside, roster);
    }
}

/// The slug of an `and` over a concatenation: the first part's, unless
/// the first part matches.
proof fn lemma_and_slug_concat(x: Seq<ExprV>, y: Seq<ExprV>, a: AssetSnapshot, inside: Seq<Area>, roster: Seq<Seq<char>>)
    ensures
        and_slug(x + y, a, inside, roster) == (if !all_match(x, a, inside, roster) {
            and_slug(x, a, inside, roster)
        } else {
            and_slug(y, a, inside, roster)
        }),
    decreases y.len(),
{
    if y.len() == 0 {
        assert(x + y =~= x);
        lemma_and_slug_matched(x, a, inside, roster);
    } else {
        assert((x + y).drop_last() =~= x + y.drop_last());
        assert((x + y).last() == y.last());
        lemma_and_slug_concat(x, y.drop_last(), a, inside, roster);
        lemma_all_match_concat(x, y.drop_last(), a, inside, roster);
    }
}

/// A one-tree `and` reports its tree's slug.
proof fn lemma_and_slug_single(x: ExprV, a: AssetSnapshot, inside: Seq<Area>, roster: Seq<Seq<char>>)
    ensures
        and_slug(seq![x], a, inside, roster) == tree_slug(x, a, inside, roster),
{
    let e = Seq::<ExprV>::empty();
    assert(all_match(e, a, inside, roster));
    assert(seq![x].drop_last() =~= e);
    assert(seq![x].last() == x);
}

/// A run of must-include (or must-exclude) leaves reports its mode's slug
/// when one of them fails.
proof fn lemma_leaves_slug(
    mode: PersonMode,
    fail: Seq<char>,
    ids: Seq<String>,
    a: AssetSnapshot,
    inside: Seq<Area>,
    roster: Seq<Seq<char>>,
)
    requires
        (mode == PersonMode::MustInclude && fail == "people_must_include_missing"@) || (mode == PersonMode::MustExclude
            && fail == "people_must_exclude_present"@),
    ensures
        and_slug(person_leaves(mode, ids), a, inside, roster) == (if all_match(person_leaves(mode, ids), a, inside, roster) {
            "matched"@
        } else {
            fail
        }),
    decreases ids.len(),
{
    if ids.len() > 0 {
        let pl = person_leaves(mode, ids);
        lemma_leaves_slug(mode, fail, ids.drop_last(), a, inside, roster);
        assert(pl.drop_last() =~= person_leaves(mode, ids.drop_last()));
        let leaf = LeafV::Person { mode, person_id: ids.last()@ };
        assert(pl.last() == ExprV::Leaf(leaf));
        assert(and_slug(pl, a, inside, roster) == (if !all_match(pl.drop_last(), a, inside, roster) {
            and_slug(pl.drop_last(), a, inside, roster)
        } else {
            tree_slug(pl.last(), a, inside, roster)
        }));
        assert(tree_slug(ExprV::Leaf(leaf), a, inside, roster) == leaf_slug(leaf, a, inside, roster));
        assert(tree_matches(ExprV::Leaf(leaf), a, inside, roster) == leaf_matches(leaf, a, inside, roster));
    } else {
        let e = Seq::<ExprV>::empty();
        assert(person_leaves(mode, ids) =~= e);
        assert(all_match(e, a, inside, roster));
    }
}

/// The people blocks report the flat people predicate's slug, unless it
/// stops at the any-of check.
proof fn lemma_people_slug(p: PeoplePredicate, a: AssetSnapshot, inside: Seq<Area>, roster: Seq<Seq<char>>)
    requires
        forall|f: Seq<char>| #[trigger] roster.contains(f) == (roster_allows(p, f) || ids_contain(p.must_exclude@, f)),
        spec_eval_people(p, a).reason != DecisionReason::PeopleMustIncludeAnyOfMissing,
    ensures
        and_slug(legacy_people_children(p), a, inside, roster) == reason_slug(spec_eval_people(p, a).reason),
{
    let mi = person_leaves(PersonMode::MustInclude, p.must_include@);
    let may = person_leaves(PersonMode::MayInclude, p.may_include@);
    let me = person_leaves(PersonMode::MustExclude, p.must_exclude@);
    let any = any_of_part(p);
    let fr = face_part(p);
    lemma_people_parts(p);
    lemma_all_match_concat(mi, any, a, inside, roster);
    lemma_all_match_concat(mi + any, may, a, inside, roster);
    lemma_all_match_concat(mi + any + may, me, a, inside, roster);
    lemma_and_slug_concat(mi, any, a, inside, roster);
    lemma_and_slug_concat(mi + any, may, a, inside, roster);
    lemma_and_slug_concat(mi + any + may, me, a, inside, roster);
    lemma_and_slug_concat(mi + any + may + me, fr, a, inside, roster);
    lemma_must_include_part(p, a, inside, roster);
    lemma_any_of_part(p, a, inside, roster);
    lemma_may_include_part(p, a, inside, roster);
    lemma_must_exclude_part(p, a, inside, roster);
    lemma_leaves_slug(PersonMode::MustInclude, "people_must_include_missing"@, p.must_include@, a, inside, roster);
    lemma_leaves_slug(PersonMode::MustExclude, "people_must_exclude_present"@, p.must_exclude@, a, inside, roster);
    if all_match(me, a, inside, roster) {
        let faces = a.face_person_ids@;
        lemma_first_where_some(faces, |id: Seq<char>| !roster_allows(p, id));
        assert forall|k: int| 0 <= k < faces.len() implies roster.contains(#[trigger] faces[k]@) == roster_allows(
            p,
            faces[k]@,
        ) by {
            if ids_contain(p.must_exclude@, faces[k]@) {
                let j = choose|j: int| 0 <= j < p.must_exclude@.len() && #[trigger] p.must_exclude@[j]@ == faces[k]@;
                assert(ids_contain(faces, p.must_exclude@[j]@));
            }
        }
        if p.must_exclude_other_identifiable || p.no_unidentified_humans {
            let leaf = ExprV::Leaf(LeafV::FaceRecognition {
                allow_unrecognized: !p.must_exclude_other_identifiable,
                yolo_count_check: p.no_unidentified_humans,
            });
            lemma_and_slug_single(leaf, a, inside, roster);
        }
    }
}

/// The blocks of a legacy rule report the flat rule's slug, unless it stops
/// at the any-of check.
proof fn lemma_legacy_children_slug(spec: MatchSpec, a: AssetSnapshot, inside: Seq<Area>, roster: Seq<Seq<char>>)
    requires
        spec.people matches Some(p) ==> forall|f: Seq<char>| #[trigger] roster.contains(f) == (roster_allows(p, f)
            || ids_contain(p.must_exclude@, f)),
        spec_evaluate_match(spec, a, legacy_within(spec, inside)).reason != DecisionReason::PeopleMustIncludeAnyOfMissing,
    ensures
        and_slug(legacy_children(spec), a, inside, roster) == reason_slug(
            spec_evaluate_match(spec, a, legacy_within(spec, inside)).reason,
        ),
{
    let m = legacy_media_part(spec);
    let d = legacy_date_part(spec);
    let l = legacy_location_part(spec);
    let pp = legacy_people_part(spec);
    lemma_all_match_concat(m, d, a, inside, roster);
    lemma_all_match_concat(m + d, l, a, inside, roster);
    lemma_and_slug_concat(m, d, a, inside, roster);
    lemma_and_slug_concat(m + d, l, a, inside, roster);
    lemma_and_slug_concat(m + d + l, pp, a, inside, roster);
    let e = Seq::<ExprV>::empty();
    assert(all_match(e, a, inside, roster));
    assert(and_slug(e, a, inside, roster) == "matched"@);
    if m.len() > 0 {
        lemma_all_match_single(m[0], a, inside, roster);
        lemma_and_slug_single(m[0], a, inside, roster);
        assert(m == seq![m[0]]);
    } else {
        assert(m =~= e);
    }
    if d.len() > 0 {
        lemma_all_match_single(d[0], a, inside, roster);
        lemma_and_slug_single(d[0], a, inside, roster);
        assert(d == seq![d[0]]);
    } else {
        assert(d =~= e);
    }
    if l.len() > 0 {
        lemma_all_match_single(l[0], a, inside, roster);
        lemma_and_slug_single(l[0], a, inside, roster);
        assert(l == seq![l[0]]);
    } else {
        assert(l =~= e);
    }
    match spec.people {
        Some(p) => {
            lemma_people_verdict(p, a, inside, roster);
            if all_match(m + d + l, a, inside, roster) && !spec_eval_people(p, a).matched {
                lemma_people_slug(p, a, inside, roster);
            }
            if spec_eval_people(p, a).matched {
                lemma_and_slug_matched(pp, a, inside, roster);
            }
        },
        None => assert(pp =~= e),
    }
}

/// A legacy flat rule and the tree it converts to report the same reason
/// slug on every asset, except where the flat rule stops at its any-of
/// check, which the tree reports through its own any-of blocks.
pub proof fn lemma_legacy_tree_reports_alike(spec: MatchSpec, e: MatchExpr, a: AssetSnapshot, inside: Seq<Area>)
    requires
        e@ == legacy_tree(spec),
        spec_evaluate_match(spec, a, legacy_within(spec, inside)).reason != DecisionReason::PeopleMustIncludeAnyOfMissing,
    ensures
        reason_slug(expr_outcome(e, a, inside).reason) == reason_slug(
            spec_evaluate_match(spec, a, legacy_within(spec, inside)).reason,
        ),
{
    let roster = tree_person_ids(e@);
    let c = legacy_children(spec);
    lemma_tree_slug(e, a, inside, roster);
    lemma_legacy_roster(spec);
    lemma_legacy_shape(spec, a, inside, roster);
    if c.len() == 1 {
        assert(c =~= seq![c[0]]);
        lemma_and_slug_single(c[0], a, inside, roster);
    } else if c.len() == 0 {
        assert(c =~= Seq::<ExprV>::empty());
    }
    if let Some(p) = spec.people {
        assert forall|f: Seq<char>| #[trigger] roster.contains(f) == (roster_allows(p, f) || ids_contain(p.must_exclude@, f)) by {
            lemma_people_roster(p, f);
        }
    }
    lemma_legacy_children_slug(spec, a, inside, roster);
}

} // verus!
