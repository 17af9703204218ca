//! Block-tree match expression: logical groups (`and` / `or` / `not`) over
//! leaf predicates, and the conversion of the legacy flat [`MatchSpec`]
//! into a tree.
//!
//! Specifications speak of a tree through its view, [`ExprV`], whose groups
//! hold sequences instead of vectors.

use vstd::prelude::*;

use crate::schema::{FloatBits, MatchSpec, MediaType, PeoplePredicate, Timestamp};

verus! {

broadcast use vstd::std_specs::vec::group_vec_axioms;

/// Maximum allowed nesting depth (the root counts as 1).
pub const MAX_TREE_DEPTH: usize = 8;

/// Match-tree node: a logical group or a leaf predicate.
#[derive(Debug, PartialEq)]
pub enum MatchExpr {
    And(Vec<MatchExpr>),
    Or(Vec<MatchExpr>),
    Not(Box<MatchExpr>),
    Leaf(MatchLeaf),
}

/// One predicate block.
#[derive(Debug, PartialEq)]
pub enum MatchLeaf {
    Person { mode: PersonMode, person_id: String },
    PeopleCount { op: PeopleCountOp, value: u32 },
    FaceRecognition { allow_unrecognized: bool, yolo_count_check: bool },
    DateRange { from: Option<Timestamp>, to: Option<Timestamp> },
    Location { center: [FloatBits; 2], radius_km: FloatBits },
    MediaType { types: Vec<MediaType> },
}

/// Subscription mode on a `person` block. `Includes` is legal only as the
/// direct child of a `not` (the validator enforces it).
#[derive(Debug, Clone, Copy, PartialEq, Eq, Hash, Structural)]
pub enum PersonMode {
    MustInclude,
    MayInclude,
    MustExclude,
    Includes,
}

/// Comparison of a `people_count` block.
#[derive(Debug, Clone, Copy, PartialEq, Eq, Hash, Structural)]
pub enum PeopleCountOp {
    Eq,
    Ne,
    Lt,
    Lte,
    Gt,
    Gte,
}

/// `observed <op> target`.
pub open spec fn count_holds(op: PeopleCountOp, observed: u32, target: u32) -> bool {
    match op {
        PeopleCountOp::Eq => observed == target,
        PeopleCountOp::Ne => observed != target,
        PeopleCountOp::Lt => observed < target,
        PeopleCountOp::Lte => observed <= target,
        PeopleCountOp::Gt => observed > target,
        PeopleCountOp::Gte => observed >= target,
    }
}

impl PeopleCountOp {
    /// Returns true iff `observed <op> target` holds.
    pub fn compare(self, observed: u32, target: u32) -> (r: bool)
        ensures
            r == count_holds(self, observed, target),
    {
        match self {
            PeopleCountOp::Eq => observed == target,
            PeopleCountOp::Ne => observed != target,
            PeopleCountOp::Lt => observed < target,
            PeopleCountOp::Lte => observed <= target,
            PeopleCountOp::Gt => observed > target,
            PeopleCountOp::Gte => observed >= target,
        }
    }
}

/// Mathematical view of a leaf.
pub enum LeafV {
    Person { mode: PersonMode, person_id: Seq<char> },
    PeopleCount { op: PeopleCountOp, value: u32 },
    FaceRecognition { allow_unrecognized: bool, yolo_count_check: bool },
    DateRange { from: Option<Timestamp>, to: Option<Timestamp> },
    Location { center: [FloatBits; 2], radius_km: FloatBits },
    MediaType { types: Seq<MediaType> },
}

/// Mathematical view of a tree.
pub enum ExprV {
    And(Seq<ExprV>),
    Or(Seq<ExprV>),
    Not(Box<ExprV>),
    Leaf(LeafV),
}

impl View for MatchLeaf {
    type V = LeafV;

    open spec fn view(&self) -> LeafV {
        match self {
            MatchLeaf::Person { mode, person_id } => LeafV::Person { mode: *mode, person_id: person_id@ },
            MatchLeaf::PeopleCount { op, value } => LeafV::PeopleCount { op: *op, value: *value },
            MatchLeaf::FaceRecognition { allow_unrecognized, yolo_count_check } => LeafV::FaceRecognition {
                allow_unrecognized: *allow_unrecognized,
                yolo_count_check: *yolo_count_check,
            },
            MatchLeaf::DateRange { from, to } => LeafV::DateRange { from: *from, to: *to },
            MatchLeaf::Location { center, radius_km } => LeafV::Location { center: *center, radius_km: *radius_km },
            MatchLeaf::MediaType { types } => LeafV::MediaType { types: types@ },
        }
    }
}

/// View of each tree in `s`, in order.
pub open spec fn view_seq(s: Seq<MatchExpr>) -> Seq<ExprV>
    decreases s,
{
    if s.len() == 0 {
        Seq::empty()
    } else {
        view_seq(s.drop_last()).push(view_tree(s.last()))
    }
}

/// View of a tree.
pub open spec fn view_tree(e: MatchExpr) -> ExprV
    decreases e,
{
    match e {
        MatchExpr::And(c) => ExprV::And(view_seq(c@)),
        MatchExpr::Or(c) => ExprV::Or(view_seq(c@)),
        MatchExpr::Not(c) => ExprV::Not(Box::new(view_tree(*c))),
        MatchExpr::Leaf(l) => ExprV::Leaf(l@),
    }
}

impl View for MatchExpr {
    type V = ExprV;

    open spec fn view(&self) -> ExprV {
        view_tree(*self)
    }
}

/// `view_seq` views element by element.
pub proof fn lemma_view_seq(s: Seq<MatchExpr>)
    ensures
        view_seq(s).len() == s.len(),
        forall|i: int| 0 <= i < s.len() ==> #[trigger] view_seq(s)[i] == s[i]@,
    decreases s.len(),
{
    if s.len() > 0 {
        lemma_view_seq(s.drop_last());
    }
}

// ---------------------------------------------------------------------------
// Tree measures, over views.
// ---------------------------------------------------------------------------

/// True iff the tree has no leaf.
pub open spec fn tree_is_empty(e: ExprV) -> bool
    decreases e,
{
    match e {
        ExprV::And(c) => all_empty(c),
        ExprV::Or(c) => all_empty(c),
        ExprV::Not(c) => tree_is_empty(*c),
        ExprV::Leaf(_) => false,
    }
}

/// Every tree of `s` is empty (true of the empty sequence).
pub open spec fn all_empty(s: Seq<ExprV>) -> bool
    decreases s,
{
    if s.len() == 0 {
        true
    } else {
        all_empty(s.drop_last()) && tree_is_empty(s.last())
    }
}

/// Whether a leaf needs a YOLO person count.
pub open spec fn leaf_requires_yolo(l: LeafV) -> bool {
    match l {
        LeafV::PeopleCount { .. } => true,
        LeafV::FaceRecognition { yolo_count_check, .. } => yolo_count_check,
        _ => false,
    }
}

/// True iff some leaf of the tree needs a YOLO person count.
pub open spec fn tree_requires_yolo(e: ExprV) -> bool
    decreases e,
{
    match e {
        ExprV::And(c) => any_requires_yolo(c),
        ExprV::Or(c) => any_requires_yolo(c),
        ExprV::Not(c) => tree_requires_yolo(*c),
        ExprV::Leaf(l) => leaf_requires_yolo(l),
    }
}

/// Some tree of `s` needs a YOLO person count.
pub open spec fn any_requires_yolo(s: Seq<ExprV>) -> bool
    decreases s,
{
    if s.len() == 0 {
        false
    } else {
        any_requires_yolo(s.drop_last()) || tree_requires_yolo(s.last())
    }
}

/// Depth: a leaf has depth 1; a group is 1 + the deepest child (0 without
/// children).
pub open spec fn tree_depth(e: ExprV) -> nat
    decreases e,
{
    match e {
        ExprV::And(c) => 1 + max_depth(c),
        ExprV::Or(c) => 1 + max_depth(c),
        ExprV::Not(c) => 1 + tree_depth(*c),
        ExprV::Leaf(_) => 1,
    }
}

/// Deepest tree in `s` (0 for the empty sequence).
pub open spec fn max_depth(s: Seq<ExprV>) -> nat
    decreases s,
{
    if s.len() == 0 {
        0
    } else {
        let a = max_depth(s.drop_last());
        let b = tree_depth(s.last());
        if a >= b { a } else { b }
    }
}

/// Every `person_id` of the tree, in traversal order, duplicates kept.
pub open spec fn tree_person_ids(e: ExprV) -> Seq<Seq<char>>
    decreases e,
{
    match e {
        ExprV::And(c) => seq_person_ids(c),
        ExprV::Or(c) => seq_person_ids(c),
        ExprV::Not(c) => tree_person_ids(*c),
        ExprV::Leaf(LeafV::Person { person_id, .. }) => seq![person_id],
        ExprV::Leaf(_) => Seq::empty(),
    }
}

/// The person ids of the trees of `s`, concatenated in order.
pub open spec fn seq_person_ids(s: Seq<ExprV>) -> Seq<Seq<char>>
    decreases s,
{
    if s.len() == 0 {
        Seq::empty()
    } else {
        seq_person_ids(s.drop_last()) + tree_person_ids(s.last())
    }
}

// ---------------------------------------------------------------------------
// Executable tree operations.
// ---------------------------------------------------------------------------

impl MatchLeaf {
    pub fn requires_yolo(&self) -> (r: bool)
        ensures
            r == leaf_requires_yolo(self@),
    {
        match self {
            MatchLeaf::PeopleCount { .. } => true,
            MatchLeaf::FaceRecognition { yolo_count_check, .. } => *yolo_count_check,
            _ => false,
        }
    }
}

impl MatchExpr {
    /// The empty conjunction, which is also the default tree.
    pub fn empty_and() -> (e: MatchExpr)
        ensures
            e@ == ExprV::And(Seq::empty()),
    {
        let v: Vec<MatchExpr> = Vec::new();
        proof {
            assert(v@ =~= Seq::<MatchExpr>::empty());
            assert(view_seq(v@) =~= Seq::<ExprV>::empty());
        }
        MatchExpr::And(v)
    }

    /// True iff the tree is structurally empty (no leaves).
    pub fn is_empty(&self) -> (r: bool)
        ensures
            r == tree_is_empty(self@),
        decreases self,
    {
        match self {
            MatchExpr::And(children) | MatchExpr::Or(children) => {
                proof {
                    lemma_view_seq(children@);
                }
                let mut i: usize = 0;
                while i < children.len()
                    invariant
                        (*self matches MatchExpr::And(c) && c == *children) || (*self matches MatchExpr::Or(c) && c == *children),
                        i <= children.len(),
                        view_seq(children@).len() == children@.len(),
                        forall|j: int| 0 <= j < children@.len() ==> #[trigger] view_seq(children@)[j] == children@[j]@,
                        all_empty(view_seq(children@).take(i as int)),
                    decreases children.len() - i,
                {
                    let ghost vs = view_seq(children@);
                    assert(vs.take(i + 1).drop_last() =~= vs.take(i as int));
                    proof {
                        vstd::std_specs::vec::axiom_vec_index_decreases(*children, i as int);
                        assert(decreases_to!(*self => *children));
                    }
                    if !children[i].is_empty() {
                        proof {
                            lemma_all_empty_prefix(vs, i as int + 1);
                            lemma_all_empty_take(vs, i as int + 1);
                        }
                        return false;
                    }
                    i += 1;
                }
                proof {
                    assert(view_seq(children@).take(children.len() as int) =~= view_seq(children@));
                }
                true
            },
            MatchExpr::Not(child) => child.is_empty(),
            MatchExpr::Leaf(_) => false,
        }
    }

    /// True iff evaluating the tree can require a YOLO call.
    pub fn requires_yolo(&self) -> (r: bool)
        ensures
            r == tree_requires_yolo(self@),
        decreases self,
    {
        match self {
            MatchExpr::And(children) | MatchExpr::Or(children) => {
                proof {
                    lemma_view_seq(children@);
                }
                let mut i: usize = 0;
                while i < children.len()
                    invariant
                        (*self matches MatchExpr::And(c) && c == *children) || (*self matches MatchExpr::Or(c) && c == *children),
                        i <= children.len(),
                        view_seq(children@).len() == children@.len(),
                        forall|j: int| 0 <= j < children@.len() ==> #[trigger] view_seq(children@)[j] == children@[j]@,
                        !any_requires_yolo(view_seq(children@).take(i as int)),
                    decreases children.len() - i,
                {
                    let ghost vs = view_seq(children@);
                    assert(vs.take(i + 1).drop_last() =~= vs.take(i as int));
                    proof {
                        vstd::std_specs::vec::axiom_vec_index_decreases(*children, i as int);
                        assert(decreases_to!(*self => *children));
                    }
                    if children[i].requires_yolo() {
                        proof {
                            lemma_any_yolo_prefix(vs, i as int + 1);
                            lemma_any_yolo_take(vs, i as int + 1);
                        }
                        return true;
                    }
                    i += 1;
                }
                proof {
                    assert(view_seq(children@).take(children.len() as int) =~= view_seq(children@));
                }
                false
            },
            MatchExpr::Not(child) => child.requires_yolo(),
            MatchExpr::Leaf(leaf) => leaf.requires_yolo(),
        }
    }

    /// Tree depth: a leaf has depth 1; a group is 1 + max child depth.
    pub fn depth(&self) -> (d: usize)
        requires
            tree_depth(self@) <= usize::MAX,
        ensures
            d == tree_depth(self@),
        decreases self,
    {
        match self {
            MatchExpr::And(children) | MatchExpr::Or(children) => {
                proof {
                    lemma_view_seq(children@);
                }
                let ghost vs = view_seq(children@);
                let mut best: usize = 0;
                let mut i: usize = 0;
                while i < children.len()
                    invariant
                        (*self matches MatchExpr::And(c) && c == *children) || (*self matches MatchExpr::Or(c) && c == *children),
                        i <= children.len(),
                        vs == view_seq(children@),
                        vs.len() == children@.len(),
                        forall|j: int| 0 <= j < children@.len() ==> #[trigger] vs[j] == children@[j]@,
                        best == max_depth(vs.take(i as int)),
                        1 + max_depth(vs) <= usize::MAX,
                    decreases children.len() - i,
                {
                    assert(vs.take(i + 1).drop_last() =~= vs.take(i as int));
                    proof {
                        lemma_max_depth_prefix_le(vs, i as int + 1);
                        lemma_max_depth_ge_elem(vs, i as int);
                    }
                    proof {
                        vstd::std_specs::vec::axiom_vec_index_decreases(*children, i as int);
                        assert(decreases_to!(*self => *children));
                    }
                    let d = children[i].depth();
                    if d > best {
                        best = d;
                    }
                    i += 1;
                }
                proof {
                    assert(vs.take(children.len() as int) =~= vs);
                }
                1 + best
            },
            MatchExpr::Not(child) => 1 + child.depth(),
            MatchExpr::Leaf(_) => 1,
        }
    }

    /// Every `person_id` referenced anywhere in the tree, in traversal order
    /// with duplicates kept.
    pub fn referenced_person_ids(&self) -> (out: Vec<String>)
        ensures
            out@.map_values(|s: String| s@) == tree_person_ids(self@),
    {
        let mut out: Vec<String> = Vec::new();
        self.collect_person_ids(&mut out);
        proof {
            assert(out@.map_values(|s: String| s@) =~= Seq::<Seq<char>>::empty() + tree_person_ids(self@));
        }
        out
    }

    fn collect_person_ids(&self, out: &mut Vec<String>)
        ensures
            final(out)@.map_values(|s: String| s@) == old(out)@.map_values(|s: String| s@) + tree_person_ids(self@),
        decreases self,
    {
        let ghost start = old(out)@.map_values(|s: String| s@);
        match self {
            MatchExpr::And(children) | MatchExpr::Or(children) => {
                proof {
                    lemma_view_seq(children@);
                }
                let ghost vs = view_seq(children@);
                let mut i: usize = 0;
                while i < children.len()
                    invariant
                        (*self matches MatchExpr::And(c) && c == *children) || (*self matches MatchExpr::Or(c) && c == *children),
                        i <= children.len(),
                        vs == view_seq(children@),
                        vs.len() == children@.len(),
                        forall|j: int| 0 <= j < children@.len() ==> #[trigger] vs[j] == children@[j]@,
                        out@.map_values(|s: String| s@) == start + seq_person_ids(vs.take(i as int)),
                    decreases children.len() - i,
                {
                    assert(vs.take(i + 1).drop_last() =~= vs.take(i as int));
                    proof {
                        vstd::std_specs::vec::axiom_vec_index_decreases(*children, i as int);
                        assert(decreases_to!(*self => *children));
                    }
                    children[i].collect_person_ids(out);
                    proof {
                        assert(start + seq_person_ids(vs.take(i as int)) + tree_person_ids(vs[i as int])
                            =~= start + seq_person_ids(vs.take(i + 1)));
                    }
                    i += 1;
                }
                proof {
                    assert(vs.take(children.len() as int) =~= vs);
                }
            },
            MatchExpr::Not(child) => child.collect_person_ids(out),
            MatchExpr::Leaf(MatchLeaf::Person { person_id, .. }) => {
                out.push(person_id.clone());
                proof {
                    assert(out@.map_values(|s: String| s@) =~= start + seq![person_id@]);
                }
            },
            MatchExpr::Leaf(_) => {
                proof {
                    assert(out@.map_values(|s: String| s@) =~= start + Seq::<Seq<char>>::empty());
                }
            },
        }
    }
}

// ---------------------------------------------------------------------------
// Legacy flat spec -> tree.
// ---------------------------------------------------------------------------

/// A `person` leaf.
pub open spec fn person_leaf(mode: PersonMode, id: Seq<char>) -> ExprV {
    ExprV::Leaf(LeafV::Person { mode, person_id: id })
}

/// One `person` leaf per id, in order.
pub open spec fn person_leaves(mode: PersonMode, ids: Seq<String>) -> Seq<ExprV> {
    ids.map_values(|id: String| person_leaf(mode, id@))
}

/// The blocks the legacy people predicate turns into, in order: the
/// must-include leaves; the any-of alternatives (a bare leaf when there is
/// one, an `or` group when there are more); the may-include and
/// must-exclude leaves; and a `face_recognition` leaf when either the
/// roster or the YOLO check is asked for.
pub open spec fn legacy_people_children(p: PeoplePredicate) -> Seq<ExprV> {
    let any_of = person_leaves(PersonMode::MustInclude, p.must_include_any_of@);
    person_leaves(PersonMode::MustInclude, p.must_include@)
        + (if any_of.len() == 0 {
            Seq::empty()
        } else if any_of.len() == 1 {
            any_of
        } else {
            seq![ExprV::Or(any_of)]
        })
        + person_leaves(PersonMode::MayInclude, p.may_include@)
        + person_leaves(PersonMode::MustExclude, p.must_exclude@)
        + (if p.must_exclude_other_identifiable || p.no_unidentified_humans {
            seq![ExprV::Leaf(LeafV::FaceRecognition {
                allow_unrecognized: !p.must_exclude_other_identifiable,
                yolo_count_check: p.no_unidentified_humans,
            })]
        } else {
            Seq::empty()
        })
}

/// The media block of a legacy spec, if any.
pub open spec fn legacy_media_part(s: MatchSpec) -> Seq<ExprV> {
    match s.media {
        Some(m) => seq![ExprV::Leaf(LeafV::MediaType { types: m.types@ })],
        None => Seq::empty(),
    }
}

/// The date block of a legacy spec, if any.
pub open spec fn legacy_date_part(s: MatchSpec) -> Seq<ExprV> {
    match s.date {
        Some(d) => seq![ExprV::Leaf(LeafV::DateRange { from: d.from, to: d.to })],
        None => Seq::empty(),
    }
}

/// The location block of a legacy spec, if any.
pub open spec fn legacy_location_part(s: MatchSpec) -> Seq<ExprV> {
    match s.location {
        Some(l) => seq![ExprV::Leaf(LeafV::Location { center: l.center, radius_km: l.radius_km })],
        None => Seq::empty(),
    }
}

/// The people blocks of a legacy spec, if any.
pub open spec fn legacy_people_part(s: MatchSpec) -> Seq<ExprV> {
    match s.people {
        Some(p) => legacy_people_children(p),
        None => Seq::empty(),
    }
}

/// The blocks of a legacy spec, cheapest first: media, date, location,
/// then the people blocks.
pub open spec fn legacy_children(s: MatchSpec) -> Seq<ExprV> {
    legacy_media_part(s) + legacy_date_part(s) + legacy_location_part(s) + legacy_people_part(s)
}

/// The tree a legacy spec converts to: no blocks give the empty `and`, a
/// single block stands alone, several are ANDed.
pub open spec fn legacy_tree(s: MatchSpec) -> ExprV {
    let c = legacy_children(s);
    if c.len() == 0 {
        ExprV::And(Seq::empty())
    } else if c.len() == 1 {
        c[0]
    } else {
        ExprV::And(c)
    }
}

/// Pushing a tree extends the view by its view.
pub proof fn lemma_view_seq_push(s: Seq<MatchExpr>, x: MatchExpr)
    ensures
        view_seq(s.push(x)) == view_seq(s).push(x@),
{
    assert(s.push(x).drop_last() =~= s);
}

/// Copies a list of media types.
pub fn copy_media_types(v: &Vec<MediaType>) -> (out: Vec<MediaType>)
    ensures
        out@ == v@,
{
    let mut out: Vec<MediaType> = Vec::new();
    let mut i: usize = 0;
    while i < v.len()
        invariant
            i <= v.len(),
            out@ == v@.take(i as int),
        decreases v.len() - i,
    {
        out.push(v[i]);
        proof {
            assert(v@.take(i + 1) =~= v@.take(i as int).push(v@[i as int]));
        }
        i += 1;
    }
    proof {
        assert(v@.take(v.len() as int) =~= v@);
    }
    out
}

/// Appends one `person` leaf per id of `ids` to `out`.
fn push_person_leaves(out: &mut Vec<MatchExpr>, mode: PersonMode, ids: &Vec<String>)
    ensures
        view_seq(final(out)@) == view_seq(old(out)@) + person_leaves(mode, ids@),
{
    let ghost start = view_seq(old(out)@);
    let mut i: usize = 0;
    while i < ids.len()
        invariant
            i <= ids.len(),
            view_seq(out@) == start + person_leaves(mode, ids@.take(i as int)),
        decreases ids.len() - i,
    {
        let leaf = MatchExpr::Leaf(MatchLeaf::Person { mode, person_id: ids[i].clone() });
        proof {
            lemma_view_seq_push(out@, leaf);
        }
        out.push(leaf);
        proof {
            assert(person_leaves(mode, ids@.take(i + 1)) =~= person_leaves(mode, ids@.take(i as int)).push(
                person_leaf(mode, ids@[i as int]@),
            ));
        }
        i += 1;
    }
    proof {
        assert(ids@.take(ids.len() as int) =~= ids@);
    }
}

/// Pushes one tree onto `out`.
fn push_tree(out: &mut Vec<MatchExpr>, e: MatchExpr)
    ensures
        view_seq(final(out)@) == view_seq(old(out)@).push(e@),
{
    proof {
        lemma_view_seq_push(out@, e);
    }
    out.push(e);
}

/// Appends the blocks of a legacy people predicate to `out`.
fn push_people_children(out: &mut Vec<MatchExpr>, people: &PeoplePredicate)
    ensures
        view_seq(final(out)@) == view_seq(old(out)@) + legacy_people_children(*people),
{
    let ghost before = view_seq(out@);
    push_person_leaves(out, PersonMode::MustInclude, &people.must_include);
    let ghost any_of = person_leaves(PersonMode::MustInclude, people.must_include_any_of@);
    if people.must_include_any_of.len() == 1 {
        push_person_leaves(out, PersonMode::MustInclude, &people.must_include_any_of);
    } else if people.must_include_any_of.len() > 1 {
        let mut or_children: Vec<MatchExpr> = Vec::new();
        proof {
            assert(view_seq(or_children@) =~= Seq::<ExprV>::empty());
        }
        push_person_leaves(&mut or_children, PersonMode::MustInclude, &people.must_include_any_of);
        assert(view_seq(or_children@) =~= any_of);
        push_tree(out, MatchExpr::Or(or_children));
    }
    let ghost any_part: Seq<ExprV> = if any_of.len() == 0 {
        Seq::empty()
    } else if any_of.len() == 1 {
        any_of
    } else {
        seq![ExprV::Or(any_of)]
    };
    assert(view_seq(out@) =~= before + person_leaves(PersonMode::MustInclude, people.must_include@) + any_part);
    push_person_leaves(out, PersonMode::MayInclude, &people.may_include);
    push_person_leaves(out, PersonMode::MustExclude, &people.must_exclude);
    if people.must_exclude_other_identifiable || people.no_unidentified_humans {
        push_tree(out, MatchExpr::Leaf(MatchLeaf::FaceRecognition {
            allow_unrecognized: !people.must_exclude_other_identifiable,
            yolo_count_check: people.no_unidentified_humans,
        }));
    }
    assert(view_seq(out@) =~= before + legacy_people_children(*people));
}

impl MatchExpr {
    /// Converts the legacy flat spec into a tree (see [`legacy_tree`]).
    pub fn from_spec(spec: &MatchSpec) -> (e: MatchExpr)
        ensures
            e@ == legacy_tree(*spec),
    {
        let mut children: Vec<MatchExpr> = Vec::new();
        proof {
            assert(view_seq(children@) =~= Seq::<ExprV>::empty());
        }
        let ghost media_part = legacy_media_part(*spec);
        let ghost date_part = legacy_date_part(*spec);
        let ghost location_part = legacy_location_part(*spec);
        if let Some(media) = &spec.media {
            push_tree(&mut children, MatchExpr::Leaf(MatchLeaf::MediaType { types: copy_media_types(&media.types) }));
        }
        assert(view_seq(children@) =~= media_part);
        if let Some(date) = &spec.date {
            push_tree(&mut children, MatchExpr::Leaf(MatchLeaf::DateRange { from: date.from, to: date.to }));
        }
        assert(view_seq(children@) =~= media_part + date_part);
        if let Some(loc) = &spec.location {
            push_tree(&mut children, MatchExpr::Leaf(MatchLeaf::Location { center: loc.center, radius_km: loc.radius_km }));
        }
        assert(view_seq(children@) =~= media_part + date_part + location_part);
        if let Some(people) = &spec.people {
            push_people_children(&mut children, people);
        }
        assert(view_seq(children@) =~= legacy_children(*spec));
        proof {
            lemma_view_seq(children@);
        }
        if children.len() == 0 {
            MatchExpr::And(children)
        } else if children.len() == 1 {
            let only = children.pop().unwrap();
            only
        } else {
            MatchExpr::And(children)
        }
    }
}

impl Default for MatchExpr {
    fn default() -> (e: Self)
        ensures
            e@ == ExprV::And(Seq::empty()),
    {
        MatchExpr::empty_and()
    }
}

// ---------------------------------------------------------------------------
// Lemmas about the sequence measures.
// ---------------------------------------------------------------------------

/// A non-empty tree among the first `n` makes the prefix not all-empty.
pub proof fn lemma_all_empty_prefix(s: Seq<ExprV>, n: int)
    requires
        0 < n <= s.len(),
        !tree_is_empty(s[n - 1]),
    ensures
        !all_empty(s.take(n)),
{
    assert(s.take(n).last() == s[n - 1]);
}

/// A YOLO-requiring tree among the first `n` makes the prefix require YOLO.
pub proof fn lemma_any_yolo_prefix(s: Seq<ExprV>, n: int)
    requires
        0 < n <= s.len(),
        tree_requires_yolo(s[n - 1]),
    ensures
        any_requires_yolo(s.take(n)),
{
    assert(s.take(n).last() == s[n - 1]);
}

/// Every tree of `s` empty implies every tree of a prefix empty.
pub proof fn lemma_all_empty_take(s: Seq<ExprV>, n: int)
    requires
        0 <= n <= s.len(),
    ensures
        all_empty(s) ==> all_empty(s.take(n)),
    decreases s.len(),
{
    if n == s.len() {
        assert(s.take(n) =~= s);
    } else {
        lemma_all_empty_take(s.drop_last(), n);
        assert(s.drop_last().take(n) =~= s.take(n));
    }
}

/// A YOLO-requiring prefix makes the whole sequence require YOLO.
pub proof fn lemma_any_yolo_take(s: Seq<ExprV>, n: int)
    requires
        0 <= n <= s.len(),
    ensures
        any_requires_yolo(s.take(n)) ==> any_requires_yolo(s),
    decreases s.len(),
{
    if n == s.len() {
        assert(s.take(n) =~= s);
    } else {
        lemma_any_yolo_take(s.drop_last(), n);
        assert(s.drop_last().take(n) =~= s.take(n));
    }
}

/// The deepest tree of a prefix is no deeper than the deepest tree overall.
pub proof fn lemma_max_depth_prefix_le(s: Seq<ExprV>, n: int)
    requires
        0 <= n <= s.len(),
    ensures
        max_depth(s.take(n)) <= max_depth(s),
    decreases s.len(),
{
    if n == s.len() {
        assert(s.take(n) =~= s);
    } else {
        lemma_max_depth_prefix_le(s.drop_last(), n);
        assert(s.drop_last().take(n) =~= s.take(n));
    }
}

/// Each tree is at most as deep as the deepest of its sequence.
pub proof fn lemma_max_depth_ge_elem(s: Seq<ExprV>, i: int)
    requires
        0 <= i < s.len(),
    ensures
        tree_depth(s[i]) <= max_depth(s),
    decreases s.len(),
{
    if i < s.len() - 1 {
        lemma_max_depth_ge_elem(s.drop_last(), i);
    }
}

/// Whether a sequence needs YOLO distributes over concatenation.
pub proof fn lemma_any_yolo_concat(a: Seq<ExprV>, b: Seq<ExprV>)
    ensures
        any_requires_yolo(a + b) == (any_requires_yolo(a) || any_requires_yolo(b)),
    decreases b.len(),
{
    if b.len() == 0 {
        assert(a + b =~= a);
    } else {
        assert((a + b).drop_last() =~= a + b.drop_last());
        assert((a + b).last() == b.last());
        lemma_any_yolo_concat(a, b.drop_last());
    }
}

/// A one-tree sequence needs YOLO exactly when its tree does.
pub proof fn lemma_any_yolo_single(x: ExprV)
    ensures
        any_requires_yolo(seq![x]) == tree_requires_yolo(x),
{
    let one = seq![x];
    assert(one.drop_last() =~= Seq::<ExprV>::empty());
    assert(one.last() == x);
    assert(!any_requires_yolo(Seq::<ExprV>::empty()));
}

/// Person leaves never need YOLO.
pub proof fn lemma_person_leaves_no_yolo(mode: PersonMode, ids: Seq<String>)
    ensures
        !any_requires_yolo(person_leaves(mode, ids)),
    decreases ids.len(),
{
    let leaves = person_leaves(mode, ids);
    if ids.len() > 0 {
        let front = ids.drop_last();
        lemma_person_leaves_no_yolo(mode, front);
        assert(leaves.drop_last() =~= person_leaves(mode, front));
        assert(leaves.last() == person_leaf(mode, ids.last()@));
        assert(!tree_requires_yolo(leaves.last()));
    } else {
        assert(leaves.len() == 0);
    }
}

/// Converting a legacy spec keeps whether it needs a YOLO person count: the
/// tree needs one exactly when the spec sets `no_unidentified_humans`, so a
/// rule that does not opt in never pays for inference.
pub proof fn lemma_legacy_tree_keeps_yolo_need(s: MatchSpec)
    ensures
        tree_requires_yolo(legacy_tree(s)) == (s.people matches Some(p) && p.no_unidentified_humans),
{
    let media = legacy_media_part(s);
    let date = legacy_date_part(s);
    let loc = legacy_location_part(s);
    let people = legacy_people_part(s);
    assert(!any_requires_yolo(media)) by {
        if let Some(m) = s.media {
            lemma_any_yolo_single(ExprV::Leaf(LeafV::MediaType { types: m.types@ }));
        }
    }
    assert(!any_requires_yolo(date)) by {
        if let Some(d) = s.date {
            lemma_any_yolo_single(ExprV::Leaf(LeafV::DateRange { from: d.from, to: d.to }));
        }
    }
    assert(!any_requires_yolo(loc)) by {
        if let Some(l) = s.location {
            lemma_any_yolo_single(ExprV::Leaf(LeafV::Location { center: l.center, radius_km: l.radius_km }));
        }
    }
    assert(any_requires_yolo(people) == (s.people matches Some(p) && p.no_unidentified_humans)) by {
        if let Some(p) = s.people {
            let any_of = person_leaves(PersonMode::MustInclude, p.must_include_any_of@);
            let must = person_leaves(PersonMode::MustInclude, p.must_include@);
            let may = person_leaves(PersonMode::MayInclude, p.may_include@);
            let exclude = person_leaves(PersonMode::MustExclude, p.must_exclude@);
            let alternatives = if any_of.len() == 0 {
                Seq::empty()
            } else if any_of.len() == 1 {
                any_of
            } else {
                seq![ExprV::Or(any_of)]
            };
            let face = if p.must_exclude_other_identifiable || p.no_unidentified_humans {
                seq![ExprV::Leaf(LeafV::FaceRecognition {
                    allow_unrecognized: !p.must_exclude_other_identifiable,
                    yolo_count_check: p.no_unidentified_humans,
                })]
            } else {
                Seq::empty()
            };
            lemma_person_leaves_no_yolo(PersonMode::MustInclude, p.must_include_any_of@);
            lemma_person_leaves_no_yolo(PersonMode::MustInclude, p.must_include@);
            lemma_person_leaves_no_yolo(PersonMode::MayInclude, p.may_include@);
            lemma_person_leaves_no_yolo(PersonMode::MustExclude, p.must_exclude@);
            assert(!any_requires_yolo(alternatives)) by {
                if any_of.len() > 1 {
                    lemma_any_yolo_single(ExprV::Or(any_of));
                }
            }
            assert(any_requires_yolo(face) == p.no_unidentified_humans) by {
                if p.must_exclude_other_identifiable || p.no_unidentified_humans {
                    lemma_any_yolo_single(ExprV::Leaf(LeafV::FaceRecognition {
                        allow_unrecognized: !p.must_exclude_other_identifiable,
                        yolo_count_check: p.no_unidentified_humans,
                    }));
                }
            }
            lemma_any_yolo_concat(must, alternatives);
            lemma_any_yolo_concat(must + alternatives, may);
            lemma_any_yolo_concat(must + alternatives + may, exclude);
            lemma_any_yolo_concat(must + alternatives + may + exclude, face);
            assert(people == must + alternatives + may + exclude + face);
        }
    }
    lemma_any_yolo_concat(media, date);
    lemma_any_yolo_concat(media + date, loc);
    lemma_any_yolo_concat(media + date + loc, people);
    let c = legacy_children(s);
    assert(c == media + date + loc + people);
    if c.len() == 1 {
        lemma_any_yolo_single(c[0]);
        assert(c =~= seq![c[0]]);
    }
}

/// Which shape a match document has, told by its keys.
#[derive(Debug, Clone, Copy, PartialEq, Eq)]
pub enum ExprShape {
    /// A leaf block (`type: ...`).
    Leaf,
    /// A logical group (`op: and | or | not`).
    Group,
    /// The legacy flat `date` / `location` / `people` / `media` map.
    Legacy,
}

/// Tells a match document's shape from whether it has a `type` key and an
/// `op` key. `type` wins: a `people_count` leaf carries both, and its `op`
/// is the comparison, not a group. A document with neither is the legacy
/// flat shape.
pub fn expr_shape(has_type: bool, has_op: bool) -> (s: ExprShape)
    ensures
        s == (if has_type {
            ExprShape::Leaf
        } else if has_op {
            ExprShape::Group
        } else {
            ExprShape::Legacy
        }),
{
    if has_type {
        ExprShape::Leaf
    } else if has_op {
        ExprShape::Group
    } else {
        ExprShape::Legacy
    }
}

} // verus!
