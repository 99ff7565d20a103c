//! Rebuilding ownership trees from flat tables: the children of every parent
//! in one pass over the loaded rows, instead of one lookup per parent.

use crate::table::{
    admitted_by, ascending, fetch, has_key, lemma_filter_ascending, lemma_filter_empty, lemma_filter_filter_len,
    lemma_filter_same, position, row_of, select, Criterion, Record,
};
use vstd::prelude::*;

verus! {

/// A row that belongs to exactly one parent row, named by the parent's key.
pub trait Owned: Record {
    spec fn owner(&self) -> i32;

    fn owner_id(&self) -> (r: i32)
        ensures
            r == self.owner(),
    ;
}

/// The criterion "is owned by the parent with this key".
pub struct OwnedBy {
    pub owner: i32,
}

impl<C: Owned> Criterion<C> for OwnedBy {
    open spec fn admits(&self, row: &C) -> bool {
        row.owner() == self.owner
    }

    fn test(&self, row: &C) -> (b: bool) {
        row.owner_id() == self.owner
    }
}

/// The criterion "is owned by one of these parents".
pub struct OwnedByAny<'a, P> {
    pub parents: &'a Vec<P>,
}

impl<'a, P: Record, C: Owned> Criterion<C> for OwnedByAny<'a, P> {
    open spec fn admits(&self, row: &C) -> bool {
        has_key(self.parents@, row.owner())
    }

    fn test(&self, row: &C) -> (b: bool) {
        position(self.parents, row.owner_id()).is_some()
    }
}

/// The rows of `children` that one of `parents` owns, in their order: what
/// one lookup for all the parents together loads.
pub open spec fn children_of_any<P: Record, C: Owned>(children: Seq<C>, parents: Seq<P>) -> Seq<C> {
    children.filter(|c: C| has_key(parents, c.owner()))
}

/// The rows of `children` that the parent `owner` owns, in their order: what
/// a lookup for that one parent finds.
pub open spec fn children_of<C: Owned>(children: Seq<C>, owner: i32) -> Seq<C> {
    children.filter(admitted_by(OwnedBy { owner }))
}

/// A middle row together with the leaves it owns.
pub open spec fn branch_of<S: Owned, C: Owned>(leaves: Seq<C>) -> spec_fn(S) -> (S, Seq<C>) {
    |s: S| (s, children_of(leaves, s.key()))
}

/// The subtree below the root `owner`: each middle row that it owns, with the
/// leaves which that row owns. This is the lookup made root by root.
pub open spec fn branches_of<S: Owned, C: Owned>(middles: Seq<S>, leaves: Seq<C>, owner: i32) -> Seq<(S, Seq<C>)> {
    children_of(middles, owner).map_values(branch_of(leaves))
}

/// A branch as a pair of a row and the sequence of its leaves.
pub open spec fn branch_view<S, C>() -> spec_fn((S, Vec<C>)) -> (S, Seq<C>) {
    |b: (S, Vec<C>)| (b.0, b.1@)
}

/// The branches of a tree as a sequence of pairs of a row and its leaves.
pub open spec fn branches_view<S, C>(branches: Seq<(S, Vec<C>)>) -> Seq<(S, Seq<C>)> {
    branches.map_values(branch_view())
}

/// `forest` is what the root-by-root lookup gives: one tree per root, in the
/// order of `roots`, each with the subtree that the root owns.
pub open spec fn is_forest_of<D: Record, S: Owned, C: Owned>(
    forest: Seq<(D, Vec<(S, Vec<C>)>)>,
    roots: Seq<D>,
    middles: Seq<S>,
    leaves: Seq<C>,
) -> bool {
    &&& forest.len() == roots.len()
    &&& forall|i: int|
        0 <= i < roots.len() ==> (#[trigger] forest[i]).0 == roots[i] && branches_view(forest[i].1@) == branches_of(
            middles,
            leaves,
            roots[i].key(),
        )
}

/// The triple `(d, s, c)` stands somewhere in the forest.
pub open spec fn forest_holds<D, S, C>(forest: Seq<(D, Vec<(S, Vec<C>)>)>, d: D, s: S, c: C) -> bool {
    exists|i: int, j: int, k: int|
        0 <= i < forest.len() && 0 <= j < forest[i].1@.len() && 0 <= k < forest[i].1@[j].1@.len() && forest[i].0 == d
            && forest[i].1@[j].0 == s && #[trigger] forest[i].1@[j].1@[k] == c
}

/// The triple `(d, s, c)` is reachable by ownership: `d` is a root, `s` a
/// middle row that `d` owns and `c` a leaf that `s` owns.
pub open spec fn reachable<D: Record, S: Owned, C: Owned>(
    roots: Seq<D>,
    middles: Seq<S>,
    leaves: Seq<C>,
    d: D,
    s: S,
    c: C,
) -> bool {
    roots.contains(d) && middles.contains(s) && s.owner() == d.key() && leaves.contains(c) && c.owner() == s.key()
}

/// A copy of a vector of rows.
pub fn copy_rows<R: Record>(rows: &Vec<R>) -> (out: Vec<R>)
    ensures
        out@ == rows@,
{
    let mut out: Vec<R> = Vec::new();
    let mut i: usize = 0;
    while i < rows.len()
        invariant
            i <= rows.len(),
            out@ == rows@.take(i as int),
        decreases rows.len() - i,
    {
        out.push(rows[i].duplicate());
        proof {
            rows@.lemma_take_succ_push(i as int);
        }
        i += 1;
    }
    proof {
        rows@.lemma_take_len();
    }
    out
}

/// The children that one of the parents owns, in their order.
pub fn owned_by_any<P: Record, C: Owned>(children: &Vec<C>, parents: &Vec<P>) -> (out: Vec<C>)
    ensures
        out@ == children_of_any(children@, parents@),
{
    let by = OwnedByAny { parents };
    proof {
        lemma_filter_same(children@, admitted_by(by), |c: C| has_key(parents@, c.owner()));
    }
    select(children, &by)
}

/// Loading only what the roots own loses nothing: the forest over the
/// middle rows that the roots own, and over the leaves that those middle
/// rows own, is the forest over all middle rows and all leaves.
pub proof fn lemma_forest_of_loaded<D: Record, S: Owned, C: Owned>(
    forest: Seq<(D, Vec<(S, Vec<C>)>)>,
    roots: Seq<D>,
    middles: Seq<S>,
    leaves: Seq<C>,
)
    requires
        is_forest_of(
            forest,
            roots,
            children_of_any(middles, roots),
            children_of_any(leaves, children_of_any(middles, roots)),
        ),
    ensures
        is_forest_of(forest, roots, middles, leaves),
{
    let loaded_middles = children_of_any(middles, roots);
    let loaded_leaves = children_of_any(leaves, loaded_middles);
    let in_roots = |s: S| has_key(roots, s.owner());
    let in_middles = |c: C| has_key(loaded_middles, c.owner());
    assert forall|i: int| 0 <= i < roots.len() implies branches_of(loaded_middles, loaded_leaves, (#[trigger] roots[i]).key())
        == branches_of(middles, leaves, roots[i].key()) by {
        let k = roots[i].key();
        let of_k = admitted_by(OwnedBy { owner: k });
        lemma_filter_filter_len(middles, in_roots, of_k);
        let owned = children_of(middles, k);
        assert(children_of(loaded_middles, k) == owned);
        assert forall|j: int| 0 <= j < owned.len() implies branch_of::<S, C>(loaded_leaves)(#[trigger] owned[j]) == branch_of::<
            S,
            C,
        >(leaves)(owned[j]) by {
            let m = owned[j];
            let of_m = admitted_by(OwnedBy { owner: m.key() });
            assert(children_of(loaded_middles, k).contains(m));
            loaded_middles.lemma_filter_contains_rev(of_k, m);
            let at = choose|at: int| 0 <= at < loaded_middles.len() && loaded_middles[at] == m;
            assert(loaded_middles[at].key() == m.key());
            assert(has_key(loaded_middles, m.key()));
            lemma_filter_filter_len(leaves, in_middles, of_m);
        }
        assert(owned.map_values(branch_of::<S, C>(loaded_leaves)) =~= owned.map_values(branch_of::<S, C>(leaves)));
    }
}

/// For each parent, in the order of `parents`, the children that it owns, in
/// the order of `children`. A parent without children gets an empty group; a
/// child of no listed parent is in no group.
pub fn grouped_by<P: Record, C: Owned>(children: &Vec<C>, parents: &Vec<P>) -> (groups: Vec<Vec<C>>)
    ensures
        groups@.len() == parents@.len(),
        forall|i: int| 0 <= i < parents@.len() ==> (#[trigger] groups@[i])@ == children_of(children@, parents@[i].key()),
{
    let mut groups: Vec<Vec<C>> = Vec::new();
    let mut i: usize = 0;
    while i < parents.len()
        invariant
            i <= parents.len(),
            groups@.len() == i,
            forall|k: int| 0 <= k < i ==> (#[trigger] groups@[k])@ == children_of(children@, parents@[k].key()),
        decreases parents.len() - i,
    {
        let by = OwnedBy { owner: parents[i].id() };
        let group: Vec<C> = select(children, &by);
        groups.push(group);
        i += 1;
    }
    groups
}

/// The branches below one root: the middle rows that `owner` owns, each with
/// its group of leaves, where `groups` holds the leaves of every middle row.
fn branches_for<S: Owned, C: Owned>(owner: i32, middles: &Vec<S>, groups: &Vec<Vec<C>>, Ghost(leaves): Ghost<Seq<C>>) -> (out: Vec<
    (S, Vec<C>),
>)
    requires
        groups@.len() == middles@.len(),
        forall|j: int| 0 <= j < middles@.len() ==> (#[trigger] groups@[j])@ == children_of(leaves, middles@[j].key()),
    ensures
        branches_view(out@) == branches_of(middles@, leaves, owner),
{
    let mut out: Vec<(S, Vec<C>)> = Vec::new();
    let mut j: usize = 0;
    proof {
        lemma_filter_empty::<S>(admitted_by(OwnedBy { owner }));
        assert(branches_view(out@) =~= branches_of(middles@.take(0), leaves, owner));
    }
    while j < middles.len()
        invariant
            j <= middles.len(),
            groups@.len() == middles@.len(),
            forall|j: int| 0 <= j < middles@.len() ==> (#[trigger] groups@[j])@ == children_of(leaves, middles@[j].key()),
            branches_view(out@) == branches_of(middles@.take(j as int), leaves, owner),
        decreases middles.len() - j,
    {
        proof {
            middles@.lemma_take_succ_push(j as int);
            middles@.take(j as int).lemma_filter_push(middles@[j as int], admitted_by(OwnedBy { owner }));
        }
        if middles[j].owner_id() == owner {
            let head: S = middles[j].duplicate();
            let group: Vec<C> = copy_rows(&groups[j]);
            proof {
                let before = children_of(middles@.take(j as int), owner);
                before.lemma_push_map_commute(branch_of(leaves), head);
                out@.lemma_push_map_commute(branch_view(), (head, group));
            }
            out.push((head, group));
        }
        j += 1;
    }
    proof {
        middles@.lemma_take_len();
    }
    out
}

/// The subtree below the root `owner`: the middle rows it owns, each with the
/// leaves it owns.
pub fn subtree<S: Owned, C: Owned>(owner: i32, middles: &Vec<S>, leaves: &Vec<C>) -> (out: Vec<(S, Vec<C>)>)
    ensures
        branches_view(out@) == branches_of(middles@, leaves@, owner),
{
    let groups: Vec<Vec<C>> = grouped_by(leaves, middles);
    branches_for(owner, middles, &groups, Ghost(leaves@))
}

/// `out` joins every middle row, in order, with the parent that owns it and
/// with the leaves it owns.
pub open spec fn is_family_of<P: Record, S: Owned, C: Owned>(
    out: Seq<(P, S, Vec<C>)>,
    parents: Seq<P>,
    middles: Seq<S>,
    leaves: Seq<C>,
) -> bool {
    &&& out.len() == middles.len()
    &&& forall|i: int|
        0 <= i < middles.len() ==> (#[trigger] out[i]).1 == middles[i] && out[i].0 == row_of(parents, middles[i].owner())
            && out[i].2@ == children_of(leaves, middles[i].key())
}

/// Every middle row with its parent and its leaves: the leaves are grouped
/// by middle row once, and each middle row is joined with its group and with
/// the parent it names. The parents are in key order and include the parent
/// of every middle row.
pub fn families<P: Record, S: Owned, C: Owned>(parents: &Vec<P>, middles: &Vec<S>, leaves: &Vec<C>) -> (out: Vec<
    (P, S, Vec<C>),
>)
    requires
        ascending(parents@),
        forall|i: int| 0 <= i < middles@.len() ==> has_key(parents@, (#[trigger] middles@[i]).owner()),
    ensures
        is_family_of(out@, parents@, middles@, leaves@),
{
    let groups: Vec<Vec<C>> = grouped_by(leaves, middles);
    let mut out: Vec<(P, S, Vec<C>)> = Vec::new();
    let mut i: usize = 0;
    while i < middles.len()
        invariant
            i <= middles.len(),
            ascending(parents@),
            forall|k: int| 0 <= k < middles@.len() ==> has_key(parents@, (#[trigger] middles@[k]).owner()),
            groups@.len() == middles@.len(),
            forall|j: int| 0 <= j < middles@.len() ==> (#[trigger] groups@[j])@ == children_of(leaves@, middles@[j].key()),
            is_family_of(out@, parents@, middles@.take(i as int), leaves@),
        decreases middles.len() - i,
    {
        let middle: S = middles[i].duplicate();
        match fetch(parents, middle.owner_id()) {
            Some(parent) => {
                out.push((parent, middle, copy_rows(&groups[i])));
            },
            None => {
                // never taken: the parent of every middle row is among `parents`
                assert(has_key(parents@, middles@[i as int].owner()));
            },
        }
        i += 1;
    }
    proof {
        middles@.lemma_take_len();
    }
    out
}

/// The forest of the given roots: every root, in order, with the middle rows
/// it owns, and every middle row with the leaves it owns. The leaves are
/// grouped by middle row once, the resulting pairs are grouped by root, and
/// the roots are joined with their groups.
pub fn assemble<D: Record, S: Owned, C: Owned>(roots: &Vec<D>, middles: &Vec<S>, leaves: &Vec<C>) -> (forest: Vec<
    (D, Vec<(S, Vec<C>)>),
>)
    ensures
        is_forest_of(forest@, roots@, middles@, leaves@),
{
    let groups: Vec<Vec<C>> = grouped_by(leaves, middles);
    let mut forest: Vec<(D, Vec<(S, Vec<C>)>)> = Vec::new();
    let mut i: usize = 0;
    while i < roots.len()
        invariant
            i <= roots.len(),
            groups@.len() == middles@.len(),
            forall|j: int| 0 <= j < middles@.len() ==> (#[trigger] groups@[j])@ == children_of(leaves@, middles@[j].key()),
            is_forest_of(forest@, roots@.take(i as int), middles@, leaves@),
        decreases roots.len() - i,
    {
        let root: D = roots[i].duplicate();
        let branches: Vec<(S, Vec<C>)> = branches_for(root.id(), middles, &groups, Ghost(leaves@));
        forest.push((root, branches));
        i += 1;
    }
    proof {
        roots@.lemma_take_len();
    }
    forest
}

/// Grouping is correct: the triples that stand in the assembled forest are
/// exactly those reachable by ownership from the roots, for any number of
/// roots, middle rows and leaves, none included.
pub proof fn lemma_forest_triples<D: Record, S: Owned, C: Owned>(
    forest: Seq<(D, Vec<(S, Vec<C>)>)>,
    roots: Seq<D>,
    middles: Seq<S>,
    leaves: Seq<C>,
    d: D,
    s: S,
    c: C,
)
    requires
        is_forest_of(forest, roots, middles, leaves),
    ensures
        forest_holds(forest, d, s, c) <==> reachable(roots, middles, leaves, d, s, c),
{
    if forest_holds(forest, d, s, c) {
        let (i, j, k) = choose|i: int, j: int, k: int|
            0 <= i < forest.len() && 0 <= j < forest[i].1@.len() && 0 <= k < forest[i].1@[j].1@.len() && forest[i].0 == d
                && forest[i].1@[j].0 == s && #[trigger] forest[i].1@[j].1@[k] == c;
        lemma_branch_at(forest, roots, middles, leaves, i, j);
        let owned = children_of(middles, d.key());
        assert(roots[i] == d);
        assert(owned[j] == s);
        middles.lemma_filter_pred(admitted_by(OwnedBy { owner: d.key() }), j);
        assert(owned.contains(s));
        middles.lemma_filter_contains_rev(admitted_by(OwnedBy { owner: d.key() }), s);
        let group = children_of(leaves, s.key());
        assert(group[k] == c);
        leaves.lemma_filter_pred(admitted_by(OwnedBy { owner: s.key() }), k);
        assert(group.contains(c));
        leaves.lemma_filter_contains_rev(admitted_by(OwnedBy { owner: s.key() }), c);
    }
    if reachable(roots, middles, leaves, d, s, c) {
        let i = choose|i: int| 0 <= i < roots.len() && roots[i] == d;
        let m = choose|m: int| 0 <= m < middles.len() && middles[m] == s;
        let l = choose|l: int| 0 <= l < leaves.len() && leaves[l] == c;
        middles.lemma_filter_contains(admitted_by(OwnedBy { owner: d.key() }), m);
        leaves.lemma_filter_contains(admitted_by(OwnedBy { owner: s.key() }), l);
        let owned = children_of(middles, d.key());
        let j = choose|j: int| 0 <= j < owned.len() && owned[j] == s;
        let group = children_of(leaves, s.key());
        let k = choose|k: int| 0 <= k < group.len() && group[k] == c;
        lemma_branch_at(forest, roots, middles, leaves, i, j);
        assert(forest[i].1@[j].1@[k] == c);
    }
}

/// `(i, j, k)` is a place in the forest: tree `i`, its branch `j`, the leaf `k` of that branch.
pub open spec fn is_place<D, S, C>(forest: Seq<(D, Vec<(S, Vec<C>)>)>, i: int, j: int, k: int) -> bool {
    0 <= i < forest.len() && 0 <= j < forest[i].1@.len() && 0 <= k < forest[i].1@[j].1@.len()
}

/// The triple that stands at a place of the forest.
pub open spec fn triple_at<D, S, C>(forest: Seq<(D, Vec<(S, Vec<C>)>)>, i: int, j: int, k: int) -> (D, S, C) {
    (forest[i].0, forest[i].1@[j].0, forest[i].1@[j].1@[k])
}

/// Grouping does not duplicate: where the rows of each table are in key
/// order, no triple stands at two places of the assembled forest.
pub proof fn lemma_forest_no_duplicates<D: Record, S: Owned, C: Owned>(
    forest: Seq<(D, Vec<(S, Vec<C>)>)>,
    roots: Seq<D>,
    middles: Seq<S>,
    leaves: Seq<C>,
    a: (int, int, int),
    b: (int, int, int),
)
    requires
        is_forest_of(forest, roots, middles, leaves),
        ascending(roots),
        ascending(middles),
        ascending(leaves),
        is_place(forest, a.0, a.1, a.2),
        is_place(forest, b.0, b.1, b.2),
        triple_at(forest, a.0, a.1, a.2) == triple_at(forest, b.0, b.1, b.2),
    ensures
        a == b,
{
    lemma_branch_at(forest, roots, middles, leaves, a.0, a.1);
    lemma_branch_at(forest, roots, middles, leaves, b.0, b.1);
    if a.0 < b.0 {
        assert(roots[a.0].key() < roots[b.0].key());
    }
    if b.0 < a.0 {
        assert(roots[b.0].key() < roots[a.0].key());
    }
    let owned = children_of(middles, roots[a.0].key());
    lemma_filter_ascending(middles, admitted_by(OwnedBy { owner: roots[a.0].key() }));
    if a.1 < b.1 {
        assert(owned[a.1].key() < owned[b.1].key());
    }
    if b.1 < a.1 {
        assert(owned[b.1].key() < owned[a.1].key());
    }
    let group = children_of(leaves, owned[a.1].key());
    lemma_filter_ascending(leaves, admitted_by(OwnedBy { owner: owned[a.1].key() }));
    if a.2 < b.2 {
        assert(group[a.2].key() < group[b.2].key());
    }
    if b.2 < a.2 {
        assert(group[b.2].key() < group[a.2].key());
    }
}

/// The branch at position `j` of tree `i` is the `j`-th middle row that the
/// root owns, with the leaves that this row owns.
pub proof fn lemma_branch_at<D: Record, S: Owned, C: Owned>(
    forest: Seq<(D, Vec<(S, Vec<C>)>)>,
    roots: Seq<D>,
    middles: Seq<S>,
    leaves: Seq<C>,
    i: int,
    j: int,
)
    requires
        is_forest_of(forest, roots, middles, leaves),
        0 <= i < roots.len(),
    ensures
        forest[i].0 == roots[i],
        forest[i].1@.len() == children_of(middles, roots[i].key()).len(),
        0 <= j < forest[i].1@.len() ==> forest[i].1@[j].0 == children_of(middles, roots[i].key())[j] && forest[i].1@[j].1@
            == children_of(leaves, forest[i].1@[j].0.key()),
{
    let shown = branches_view(forest[i].1@);
    let wanted = branches_of(middles, leaves, roots[i].key());
    assert(shown == wanted);
    assert(shown.len() == forest[i].1@.len());
    if 0 <= j < forest[i].1@.len() {
        assert(shown[j] == (forest[i].1@[j].0, forest[i].1@[j].1@));
        assert(wanted[j] == (
            children_of(middles, roots[i].key())[j],
            children_of(leaves, children_of(middles, roots[i].key())[j].key()),
        ));
    }
}

} // verus!
