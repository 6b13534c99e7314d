//! The `petgraph` disjoint-set structure that groups the nodes of a factor
//! graph into connected components, described by what it holds: the
//! representative of each element.
use petgraph::unionfind::UnionFind;
use vstd::prelude::*;

verus! {

/// The disjoint-set type of `petgraph`.
#[verifier::external_type_specification]
#[verifier::external_body]
#[verifier::reject_recursive_types(K)]
pub struct ExUnionFind<K>(UnionFind<K>);

/// Representative of each element `0..n`, as `UnionFind::find` reports it:
/// two elements share a set exactly when they share a representative.
pub uninterp spec fn union_find_labels(sets: UnionFind<usize>) -> Seq<usize>;

/// Whether `labels` arises from `before` by joining the sets of `a` and `b`:
/// two elements share a set afterwards exactly when they shared one before,
/// or one was with `a` and the other with `b`; every representative stays
/// an element.
pub open spec fn joined_labels(before: Seq<usize>, labels: Seq<usize>, a: int, b: int) -> bool {
    &&& labels.len() == before.len()
    &&& forall|x: int| 0 <= x < labels.len() ==> #[trigger] labels[x] < labels.len()
    &&& forall|x: int, y: int|
        0 <= x < labels.len() && 0 <= y < labels.len() ==> (#[trigger] labels[x] == #[trigger] labels[y] <==> (
        before[x] == before[y] || (before[x] == before[a] && before[y] == before[b]) || (before[x] == before[b]
            && before[y] == before[a])))
}

/// `UnionFind::new`: `n` singleton sets, each element its own
/// representative.
#[verifier::external_body]
pub(crate) fn union_find_new(n: usize) -> (sets: UnionFind<usize>)
    ensures
        union_find_labels(sets).len() == n,
        forall|x: int| 0 <= x < n ==> #[trigger] union_find_labels(sets)[x] == x,
{
    UnionFind::new(n)
}

/// `UnionFind::union`: joins the sets of `a` and `b`, and reports whether
/// they were apart. Both must be elements: the call panics otherwise.
#[verifier::external_body]
pub(crate) fn union_find_union(sets: &mut UnionFind<usize>, a: usize, b: usize) -> (joined: bool)
    requires
        a < union_find_labels(*old(sets)).len(),
        b < union_find_labels(*old(sets)).len(),
    ensures
        joined == (union_find_labels(*old(sets))[a as int] != union_find_labels(*old(sets))[b as int]),
        joined_labels(union_find_labels(*old(sets)), union_find_labels(*final(sets)), a as int, b as int),
{
    sets.union(a, b)
}

/// `UnionFind::find`: the representative of element `x`, which must be an
/// element: the call panics otherwise.
#[verifier::external_body]
pub(crate) fn union_find_find(sets: &UnionFind<usize>, x: usize) -> (root: usize)
    requires
        x < union_find_labels(*sets).len(),
    ensures
        root == union_find_labels(*sets)[x as int],
{
    sets.find(x)
}

} // verus!
