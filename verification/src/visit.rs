//! A pre-order walk over a syntax tree that collects what a visitor finds at each node.
use vstd::prelude::*;

use crate::syntax::{
    SyntaxNode, SyntaxTree, child_count_of, every_node, has_kind_in, kind_in,
    lemma_walk_children_step, lemma_walk_unfold, tree_wf, walk, walk_children,
};

verus! {

/// The plain-value views of a sequence of items.
pub open spec fn views<A: View>(s: Seq<A>) -> Seq<A::V> {
    s.map_values(|x: A| x@)
}

/// What a detector does at one node: the items it finds there, and whether the walk goes
/// on into the node's children.
pub trait NodeVisitor {
    type Item: View;

    /// The items found at node `n`.
    spec fn items_at(&self, t: Seq<SyntaxNode>, n: int) -> Seq<<Self::Item as View>::V>;

    /// Whether the walk enters the children of node `n`.
    spec fn descends(&self, t: Seq<SyntaxNode>, n: int) -> bool;

    /// Append the items found at node `n`.
    fn visit(&self, t: &SyntaxTree, n: usize, out: &mut Vec<Self::Item>)
        requires
            n < t@.len(),
        ensures
            views(final(out)@) == views(old(out)@) + self.items_at(t@, n as int),
    ;

    /// Whether the walk enters the children of node `n`.
    fn enters(&self, t: &SyntaxTree, n: usize) -> (r: bool)
        requires
            n < t@.len(),
        ensures
            r == self.descends(t@, n as int),
    ;
}

/// The items function of a visitor on a tree.
pub open spec fn item_fn<V: NodeVisitor>(v: &V, t: Seq<SyntaxNode>) -> spec_fn(int) -> Seq<<V::Item as View>::V> {
    |n: int| v.items_at(t, n)
}

/// The descend predicate of a visitor on a tree.
pub open spec fn descend_fn<V: NodeVisitor>(v: &V, t: Seq<SyntaxNode>) -> spec_fn(int) -> bool {
    |n: int| v.descends(t, n)
}

/// What a visitor finds in the subtree of node `i`, in pre-order.
pub open spec fn visit_walk<V: NodeVisitor>(v: &V, t: Seq<SyntaxNode>, i: int) -> Seq<<V::Item as View>::V> {
    walk(t, i, item_fn(v, t), descend_fn(v, t))
}

/// Append what a visitor finds in the subtree of node `i`, in pre-order.
pub fn collect_from<V: NodeVisitor>(v: &V, t: &SyntaxTree, i: usize, out: &mut Vec<V::Item>)
    requires
        i < t@.len(),
    ensures
        views(final(out)@) == views(old(out)@) + visit_walk(v, t@, i as int),
    decreases t@.len() - i,
{
    t.wf();
    let ghost item = item_fn(v, t@);
    let ghost desc = descend_fn(v, t@);
    let ghost base = views(out@);
    proof { lemma_walk_unfold(t@, i as int, item, desc); }
    v.visit(t, i, out);
    if !v.enters(t, i) {
        return;
    }
    let node = t.node(i);
    let m = node.children.len();
    let mut k: usize = 0;
    while k < m
        invariant
            tree_wf(t@),
            i < t@.len(),
            node == t@[i as int],
            m == child_count_of(t@, i as int),
            k <= m,
            item == item_fn(v, t@),
            desc == descend_fn(v, t@),
            desc(i as int),
            views(out@) == base + (item(i as int) + walk_children(t@, i as int, k as int, item, desc)),
        decreases m - k,
    {
        let c = node.children[k];
        proof { lemma_walk_children_step(t@, i as int, k as int, item, desc); }
        collect_from(v, t, c, out);
        assert(base + (item(i as int) + walk_children(t@, i as int, k as int, item, desc)) + walk(t@, c as int, item, desc)
            =~= base + (item(i as int) + walk_children(t@, i as int, k + 1, item, desc)));
        k = k + 1;
    }
}

/// What a visitor finds in a whole tree, in pre-order.
pub fn collect_all<V: NodeVisitor>(v: &V, t: &SyntaxTree) -> (r: Vec<V::Item>)
    ensures
        views(r@) == visit_walk(v, t@, 0),
{
    t.wf();
    let mut out: Vec<V::Item> = Vec::new();
    assert(views(out@) =~= Seq::<<V::Item as View>::V>::empty());
    collect_from(v, t, 0, &mut out);
    assert(Seq::<<V::Item as View>::V>::empty() + visit_walk(v, t@, 0) =~= visit_walk(v, t@, 0));
    out
}

/// The walk over the first `m` children yields at least what it yields over the first `k`.
pub proof fn lemma_walk_children_grows<A>(t: Seq<SyntaxNode>, i: int, k: int, m: int, item: spec_fn(int) -> Seq<A>, descend: spec_fn(int) -> bool)
    requires
        tree_wf(t),
        0 <= i < t.len(),
        0 <= k <= m <= child_count_of(t, i),
    ensures
        walk_children(t, i, m, item, descend).len() >= walk_children(t, i, k, item, descend).len(),
    decreases m - k,
{
    if k < m {
        lemma_walk_children_grows(t, i, k, m - 1, item, descend);
        lemma_walk_children_step(t, i, m - 1, item, descend);
    }
}

/// One mark for each node whose kind is one of `ks`.
pub open spec fn kind_marks(t: Seq<SyntaxNode>, ks: Seq<&str>) -> spec_fn(int) -> Seq<()> {
    |n: int| if kind_in(t, n, ks) { seq![()] } else { Seq::<()>::empty() }
}

/// Whether the subtree of node `i` holds a node whose kind is one of `ks`.
pub open spec fn subtree_has_kind(t: Seq<SyntaxNode>, i: int, ks: Seq<&str>) -> bool {
    walk(t, i, kind_marks(t, ks), every_node()).len() > 0
}

/// Whether the subtree of node `i` holds a node whose kind is one of `ks`.
pub fn has_kind_in_subtree(t: &SyntaxTree, i: usize, ks: &[&str]) -> (r: bool)
    requires
        i < t@.len(),
    ensures
        r == subtree_has_kind(t@, i as int, ks@),
    decreases t@.len() - i,
{
    t.wf();
    let ghost item = kind_marks(t@, ks@);
    proof { lemma_walk_unfold(t@, i as int, item, every_node()); }
    if has_kind_in(t, i, ks) {
        return true;
    }
    let node = t.node(i);
    let m = node.children.len();
    let mut k: usize = 0;
    while k < m
        invariant
            tree_wf(t@),
            i < t@.len(),
            node == t@[i as int],
            m == child_count_of(t@, i as int),
            k <= m,
            !kind_in(t@, i as int, ks@),
            item == kind_marks(t@, ks@),
            walk_children(t@, i as int, k as int, item, every_node()).len() == 0,
        decreases m - k,
    {
        let c = node.children[k];
        proof { lemma_walk_children_step(t@, i as int, k as int, item, every_node()); }
        if has_kind_in_subtree(t, c, ks) {
            proof { lemma_walk_children_grows(t@, i as int, k + 1, m as int, item, every_node()); }
            return true;
        }
        k = k + 1;
    }
    false
}

} // verus!
