//! Album-fill set math.
//!
//! Each pass decides which assets match a rule and reconciles that set with
//! the live album. Managed albums respect manual removals: an asset the rule
//! filed that the operator has since pulled out of the album is never added
//! again, even while it still matches. [`compute_album_plan`] returns what to
//! add, which filed assets were removed by hand, and the membership baseline
//! to record.
//!
//! Sets of asset ids are held as vectors; only membership matters, and a
//! vector may repeat an id.

use vstd::prelude::*;

use crate::predicate::{contains_id, ids_contain};
use crate::text::{lemma_seq_lt_total, lemma_seq_lt_transitive, seq_lt, str_less};

verus! {

broadcast use vstd::std_specs::vec::group_vec_axioms;

/// The reconciliation result of one album-fill pass.
#[derive(Debug, Clone, PartialEq, Eq)]
pub struct AlbumPlan {
    /// Matched assets to put into the album: not already there and not
    /// removed. In the order of the matches.
    pub to_add: Vec<String>,
    /// Assets the rule filed that are no longer in the album: the operator
    /// removed them. Sorted, each once.
    pub newly_removed: Vec<String>,
    /// Matched assets that are in the album after this pass (already there
    /// or just added), none of them removed. In the order of the matches.
    pub added_baseline: Vec<String>,
}

/// The ids of a vector of strings, as character sequences.
pub open spec fn id_views(v: Seq<String>) -> Seq<Seq<char>> {
    v.map_values(|s: String| s@)
}

/// Every element sorts strictly before the ones after it.
pub open spec fn strictly_ascending(s: Seq<Seq<char>>) -> bool {
    forall|i: int, j: int| 0 <= i < j < s.len() ==> seq_lt(#[trigger] s[i], #[trigger] s[j])
}

/// The rule filed `id` and the operator has since taken it out of the album.
pub open spec fn operator_removed(id: Seq<char>, in_album: Seq<Seq<char>>, prior_added: Seq<Seq<char>>) -> bool {
    prior_added.contains(id) && !in_album.contains(id)
}

/// `id` must never be (re-)added: removed before, or removed by hand now.
pub open spec fn blocked(
    id: Seq<char>,
    in_album: Seq<Seq<char>>,
    prior_added: Seq<Seq<char>>,
    removed: Seq<Seq<char>>,
) -> bool {
    removed.contains(id) || operator_removed(id, in_album, prior_added)
}

/// A matched `id` goes into the album this pass.
pub open spec fn should_add(
    id: Seq<char>,
    in_album: Seq<Seq<char>>,
    prior_added: Seq<Seq<char>>,
    removed: Seq<Seq<char>>,
) -> bool {
    !in_album.contains(id) && !blocked(id, in_album, prior_added, removed)
}

/// A matched `id` is in the album after this pass and stays managed.
pub open spec fn stays_managed(
    id: Seq<char>,
    in_album: Seq<Seq<char>>,
    prior_added: Seq<Seq<char>>,
    removed: Seq<Seq<char>>,
) -> bool {
    !blocked(id, in_album, prior_added, removed) && (in_album.contains(id) || should_add(
        id,
        in_album,
        prior_added,
        removed,
    ))
}

/// Membership in a vector of strings, seen through its ids.
pub proof fn lemma_id_views_contains(v: Seq<String>, x: Seq<char>)
    ensures
        id_views(v).contains(x) == ids_contain(v, x),
{
    if ids_contain(v, x) {
        let j = choose|j: int| 0 <= j < v.len() && #[trigger] v[j]@ == x;
        assert(id_views(v)[j] == x);
    }
    if id_views(v).contains(x) {
        let j = choose|j: int| 0 <= j < id_views(v).len() && id_views(v)[j] == x;
        assert(v[j]@ == x);
    }
}

/// Whether `v` holds `id`, as a statement about ids.
fn holds_id(v: &Vec<String>, id: &String) -> (r: bool)
    ensures
        r == id_views(v@).contains(id@),
{
    proof {
        lemma_id_views_contains(v@, id@);
    }
    contains_id(v, id)
}

/// Inserts `x` into a strictly ascending vector, unless it is there already.
fn insert_sorted_unique(v: &mut Vec<String>, x: String)
    requires
        strictly_ascending(id_views(old(v)@)),
    ensures
        strictly_ascending(id_views(final(v)@)),
        forall|id: Seq<char>| #[trigger] id_views(final(v)@).contains(id) <==> (id_views(old(v)@).contains(id) || id == x@),
{
    let ghost old_ids = id_views(v@);
    let mut i: usize = 0;
    while i < v.len() && str_less(v[i].as_str(), x.as_str())
        invariant
            i <= v.len(),
            old_ids == id_views(v@),
            forall|j: int| 0 <= j < i ==> seq_lt(#[trigger] old_ids[j], x@),
        decreases v.len() - i,
    {
        i += 1;
    }
    if i < v.len() && v[i] == x {
        proof {
            assert(old_ids[i as int] == x@);
            assert forall|id: Seq<char>| #[trigger] old_ids.contains(id) <==> (old_ids.contains(id) || id == x@) by {
                if id == x@ {
                    assert(old_ids[i as int] == id);
                }
            }
        }
        return;
    }
    proof {
        if i < v.len() {
            assert(!seq_lt(old_ids[i as int], x@));
            assert(old_ids[i as int] != x@);
            lemma_seq_lt_total(old_ids[i as int], x@);
        }
    }
    let ghost xv = x@;
    v.insert(i, x);
    let ghost new_ids = id_views(v@);
    proof {
        assert(new_ids =~= old_ids.insert(i as int, xv));
        assert forall|a: int, b: int| 0 <= a < b < new_ids.len() implies seq_lt(#[trigger] new_ids[a], #[trigger] new_ids[b]) by {
            if b < i {
                assert(new_ids[a] == old_ids[a] && new_ids[b] == old_ids[b]);
            } else if b == i {
                assert(new_ids[a] == old_ids[a]);
            } else if a == i {
                assert(new_ids[b] == old_ids[b - 1]);
                if b - 1 > i {
                    assert(seq_lt(old_ids[i as int], old_ids[b - 1]));
                    lemma_seq_lt_transitive(xv, old_ids[i as int], old_ids[b - 1]);
                }
            } else if a < i {
                assert(new_ids[a] == old_ids[a] && new_ids[b] == old_ids[b - 1]);
            } else {
                assert(new_ids[a] == old_ids[a - 1] && new_ids[b] == old_ids[b - 1]);
            }
        }
        assert forall|id: Seq<char>| #[trigger] new_ids.contains(id) <==> (old_ids.contains(id) || id == xv) by {
            if new_ids.contains(id) {
                let k = choose|k: int| 0 <= k < new_ids.len() && new_ids[k] == id;
                if k < i {
                    assert(old_ids[k] == id);
                } else if k > i {
                    assert(old_ids[k - 1] == id);
                }
            }
            if old_ids.contains(id) {
                let k = choose|k: int| 0 <= k < old_ids.len() && old_ids[k] == id;
                if k < i {
                    assert(new_ids[k] == id);
                } else {
                    assert(new_ids[k + 1] == id);
                }
            }
            if id == xv {
                assert(new_ids[i as int] == id);
            }
        }
    }
}

/// Reconciles one album-fill pass.
///
/// * `matched`: asset ids the rule matched this pass, in order;
/// * `in_album`: asset ids currently in the live album;
/// * `prior_added`: asset ids the rule recorded as filed;
/// * `removed_set`: asset ids the rule recorded as removed.
///
/// Nothing already in the album is added, and neither is an asset removed
/// before or detected as removed now.
pub fn compute_album_plan(
    matched: &[String],
    in_album: &Vec<String>,
    prior_added: &Vec<String>,
    removed_set: &Vec<String>,
) -> (plan: AlbumPlan)
    ensures
        id_views(plan.to_add@) == id_views(matched@).filter(
            |id: Seq<char>| should_add(id, id_views(in_album@), id_views(prior_added@), id_views(removed_set@)),
        ),
        id_views(plan.added_baseline@) == id_views(matched@).filter(
            |id: Seq<char>| stays_managed(id, id_views(in_album@), id_views(prior_added@), id_views(removed_set@)),
        ),
        strictly_ascending(id_views(plan.newly_removed@)),
        forall|id: Seq<char>| #[trigger] id_views(plan.newly_removed@).contains(id)
            <==> operator_removed(id, id_views(in_album@), id_views(prior_added@)),
{
    let ghost album = id_views(in_album@);
    let ghost prior = id_views(prior_added@);
    let ghost removed = id_views(removed_set@);

    let mut newly_removed: Vec<String> = Vec::new();
    let mut i: usize = 0;
    while i < prior_added.len()
        invariant
            i <= prior_added.len(),
            album == id_views(in_album@),
            prior == id_views(prior_added@),
            strictly_ascending(id_views(newly_removed@)),
            forall|id: Seq<char>| #[trigger] id_views(newly_removed@).contains(id)
                <==> (prior.take(i as int).contains(id) && !album.contains(id)),
        decreases prior_added.len() - i,
    {
        let ghost before = id_views(newly_removed@);
        proof {
            let t0 = prior.take(i as int);
            let t1 = prior.take(i + 1);
            assert forall|id: Seq<char>| #[trigger] t1.contains(id) <==> (t0.contains(id) || id == prior[i as int]) by {
                if t1.contains(id) {
                    let k = choose|k: int| 0 <= k < t1.len() && t1[k] == id;
                    if k < i {
                        assert(t0[k] == id);
                    }
                }
                if t0.contains(id) {
                    let k = choose|k: int| 0 <= k < t0.len() && t0[k] == id;
                    assert(t1[k] == id);
                }
                if id == prior[i as int] {
                    assert(t1[i as int] == id);
                }
            }
        }
        if !holds_id(in_album, &prior_added[i]) {
            insert_sorted_unique(&mut newly_removed, prior_added[i].clone());
        }
        i += 1;
    }
    proof {
        assert(prior.take(prior_added.len() as int) =~= prior);
    }

    let ghost ms = id_views(matched@);
    let ghost add_pred = |id: Seq<char>| should_add(id, album, prior, removed);
    let ghost keep_pred = |id: Seq<char>| stays_managed(id, album, prior, removed);
    let mut to_add: Vec<String> = Vec::new();
    let mut added_baseline: Vec<String> = Vec::new();
    let mut k: usize = 0;
    while k < matched.len()
        invariant
            k <= matched.len(),
            ms == id_views(matched@),
            album == id_views(in_album@),
            prior == id_views(prior_added@),
            removed == id_views(removed_set@),
            add_pred == (|id: Seq<char>| should_add(id, album, prior, removed)),
            keep_pred == (|id: Seq<char>| stays_managed(id, album, prior, removed)),
            id_views(to_add@) == ms.take(k as int).filter(add_pred),
            id_views(added_baseline@) == ms.take(k as int).filter(keep_pred),
        decreases matched.len() - k,
    {
        let id = &matched[k];
        let present = holds_id(in_album, id);
        let was_removed = holds_id(removed_set, id);
        let was_filed = holds_id(prior_added, id);
        let is_blocked = was_removed || (was_filed && !present);
        let add = !present && !is_blocked;
        let keep = !is_blocked && (present || add);
        proof {
            reveal(Seq::filter);
            assert(ms.take(k + 1).drop_last() =~= ms.take(k as int));
            assert(ms.take(k + 1).last() == id@);
            assert(add == add_pred(id@));
            assert(keep == keep_pred(id@));
        }
        if add {
            to_add.push(id.clone());
        }
        if keep {
            added_baseline.push(id.clone());
        }
        proof {
            assert(id_views(to_add@) =~= ms.take(k + 1).filter(add_pred));
            assert(id_views(added_baseline@) =~= ms.take(k + 1).filter(keep_pred));
        }
        k += 1;
    }
    proof {
        assert(ms.take(matched.len() as int) =~= ms);
    }
    AlbumPlan { to_add, newly_removed, added_baseline }
}

// ---------------------------------------------------------------------------
// Laws of the plan.
// ---------------------------------------------------------------------------

/// Removals are respected: every asset a plan adds was matched, is not in
/// the album, was not removed before and was not just removed by hand; every
/// asset it keeps as managed was matched and is not removed either way.
pub proof fn lemma_plan_respects_removals(
    matched: Seq<Seq<char>>,
    album: Seq<Seq<char>>,
    prior: Seq<Seq<char>>,
    removed: Seq<Seq<char>>,
    id: Seq<char>,
)
    ensures
        matched.filter(|x: Seq<char>| should_add(x, album, prior, removed)).contains(id) ==> {
            &&& matched.contains(id)
            &&& !album.contains(id)
            &&& !removed.contains(id)
            &&& !operator_removed(id, album, prior)
        },
        matched.filter(|x: Seq<char>| stays_managed(x, album, prior, removed)).contains(id) ==> {
            &&& matched.contains(id)
            &&& !removed.contains(id)
            &&& !operator_removed(id, album, prior)
        },
{
    let add = |x: Seq<char>| should_add(x, album, prior, removed);
    let keep = |x: Seq<char>| stays_managed(x, album, prior, removed);
    if matched.filter(add).contains(id) {
        matched.lemma_filter_contains_rev(add, id);
        let k = choose|k: int| 0 <= k < matched.filter(add).len() && matched.filter(add)[k] == id;
        matched.lemma_filter_pred(add, k);
    }
    if matched.filter(keep).contains(id) {
        matched.lemma_filter_contains_rev(keep, id);
        let k = choose|k: int| 0 <= k < matched.filter(keep).len() && matched.filter(keep)[k] == id;
        matched.lemma_filter_pred(keep, k);
    }
}

/// Reconciling is settled by one pass: once a plan is applied (its adds put
/// into the album, its manual removals recorded as removed, its baseline
/// recorded as filed), a second pass over the same matches adds nothing and
/// detects no further removal.
pub proof fn lemma_applied_plan_is_settled(
    matched: Seq<Seq<char>>,
    album: Seq<Seq<char>>,
    prior: Seq<Seq<char>>,
    removed: Seq<Seq<char>>,
    album_after: Seq<Seq<char>>,
    prior_after: Seq<Seq<char>>,
    removed_after: Seq<Seq<char>>,
)
    requires
        forall|x: Seq<char>| #[trigger] album_after.contains(x) <==> (album.contains(x)
            || matched.filter(|y: Seq<char>| should_add(y, album, prior, removed)).contains(x)),
        forall|x: Seq<char>| #[trigger] prior_after.contains(x) <==> ((prior.contains(x)
            && !operator_removed(x, album, prior))
            || matched.filter(|y: Seq<char>| stays_managed(y, album, prior, removed)).contains(x)),
        forall|x: Seq<char>| #[trigger] removed_after.contains(x) <==> (removed.contains(x)
            || operator_removed(x, album, prior)),
    ensures
        matched.filter(|y: Seq<char>| should_add(y, album_after, prior_after, removed_after)).len() == 0,
        forall|x: Seq<char>| !operator_removed(x, album_after, prior_after),
{
    let add = |y: Seq<char>| should_add(y, album, prior, removed);
    let keep = |y: Seq<char>| stays_managed(y, album, prior, removed);
    let add_after = |y: Seq<char>| should_add(y, album_after, prior_after, removed_after);
    let again = matched.filter(add_after);
    if again.len() > 0 {
        matched.lemma_filter_pred(add_after, 0);
        matched.lemma_filter_contains_rev(add_after, again[0]);
        let x = again[0];
        let k = choose|k: int| 0 <= k < matched.len() && matched[k] == x;
        if !album.contains(x) && !blocked(x, album, prior, removed) {
            matched.lemma_filter_contains(add, k);
        }
        assert(false);
    }
    assert forall|x: Seq<char>| !operator_removed(x, album_after, prior_after) by {
        if prior_after.contains(x) && !album_after.contains(x) {
            if matched.filter(keep).contains(x) {
                lemma_plan_respects_removals(matched, album, prior, removed, x);
                matched.lemma_filter_contains_rev(keep, x);
                let j = choose|j: int| 0 <= j < matched.filter(keep).len() && matched.filter(keep)[j] == x;
                matched.lemma_filter_pred(keep, j);
                let k = choose|k: int| 0 <= k < matched.len() && matched[k] == x;
                matched.lemma_filter_contains(add, k);
            }
        }
    }
}

} // verus!
