//! Finding the syntax node at, containing or inside a byte range, and the chain of
//! nodes that lead to it.
use vstd::prelude::*;

use super::node_at_range_helpers::{
    extract_name, find_smallest_containing, name_of, smallest_containing, spanning_child,
    spanning_child_from, spans,
};
use crate::shared::{AstNodeSummary, NodeAtRangeMode, Range, SummaryView, summary_view};
use crate::syntax::{
    SyntaxNode, SyntaxTree, child_count_of, child_of, every_node, lemma_walk_children_step,
    lemma_walk_unfold, node_range, node_range_spec, tree_wf, walk, walk_children,
};
use crate::text::{capped_bytes, string_bytes, truncate_text};

verus! {

/// Options of a node-at-range request.
pub struct AstNodeAtRangeInput {
    pub file_path: String,
    pub range: Option<Range>,
    pub mode: NodeAtRangeMode,
    pub include_text: bool,
    pub max_text_bytes: usize,
}

impl Default for AstNodeAtRangeInput {
    fn default() -> (r: Self)
        ensures
            r.file_path@ == Seq::<char>::empty(),
            r.range is None,
            r.mode == NodeAtRangeMode::SmallestContaining,
            r.include_text,
            r.max_text_bytes == 12000,
    {
        AstNodeAtRangeInput {
            file_path: String::new(),
            range: None,
            mode: NodeAtRangeMode::SmallestContaining,
            include_text: true,
            max_text_bytes: 12000,
        }
    }
}

/// An optional node index as an optional integer.
pub open spec fn opt_index(o: Option<usize>) -> Option<int> {
    match o {
        Some(b) => Some(b as int),
        None => None,
    }
}

// ---------------------------------------------------------------------------
// Exact match
// ---------------------------------------------------------------------------

/// The node found from `i` whose byte range is exactly `[ts, te)`: node `i` itself if it
/// has that range, else the first match found in the children that span the range.
pub open spec fn exact_at(t: Seq<SyntaxNode>, i: int, ts: int, te: int) -> Option<int>
    decreases t.len() - i, 1nat, 0int,
{
    if 0 <= i < t.len() {
        if t[i].start_byte == ts && t[i].end_byte == te {
            Some(i)
        } else {
            exact_among(t, i, 0, ts, te)
        }
    } else {
        None
    }
}

/// The first exact match found in the children of node `i` from position `k` on,
/// entering only children that span the range.
pub open spec fn exact_among(t: Seq<SyntaxNode>, i: int, k: int, ts: int, te: int) -> Option<int>
    decreases t.len() - i, 0nat, child_count_of(t, i) - k,
{
    if 0 <= i < t.len() && 0 <= k < child_count_of(t, i) && i < child_of(t, i, k) < t.len() {
        let c = child_of(t, i, k);
        if spans(t, c, ts, te) {
            match exact_at(t, c, ts, te) {
                Some(x) => Some(x),
                None => exact_among(t, i, k + 1, ts, te),
            }
        } else {
            exact_among(t, i, k + 1, ts, te)
        }
    } else {
        None
    }
}

fn walk_for_exact(t: &SyntaxTree, i: usize, ts: usize, te: usize) -> (r: Option<usize>)
    requires
        i < t@.len(),
    ensures
        opt_index(r) == exact_at(t@, i as int, ts as int, te as int),
        r matches Some(x) ==> x < t@.len(),
    decreases t@.len() - i, 1nat,
{
    t.wf();
    let node = t.node(i);
    if node.start_byte == ts && node.end_byte == te {
        return Some(i);
    }
    let n = node.children.len();
    let mut k: usize = 0;
    while k < n
        invariant
            tree_wf(t@),
            i < t@.len(),
            node == t@[i as int],
            n == child_count_of(t@, i as int),
            k <= n,
            exact_at(t@, i as int, ts as int, te as int) == exact_among(t@, i as int, k as int, ts as int, te as int),
        decreases n - k,
    {
        let c = node.children[k];
        assert(c as int == child_of(t@, i as int, k as int));
        let cn = t.node(c);
        if cn.start_byte <= ts && cn.end_byte >= te {
            let found = walk_for_exact(t, c, ts, te);
            if found.is_some() {
                return found;
            }
        }
        k = k + 1;
    }
    None
}

/// Find the node whose byte range is exactly `[ts, te)`, descending from `start` through
/// the children that span the range.
pub fn find_exact(t: &SyntaxTree, start: usize, ts: usize, te: usize) -> (r: Option<usize>)
    requires
        start < t@.len(),
    ensures
        opt_index(r) == exact_at(t@, start as int, ts as int, te as int),
        r matches Some(x) ==> x < t@.len(),
{
    walk_for_exact(t, start, ts, te)
}

// ---------------------------------------------------------------------------
// Largest contained node
// ---------------------------------------------------------------------------

/// The byte size of node `i`.
pub open spec fn size_of_node(t: Seq<SyntaxNode>, i: int) -> int {
    t[i].end_byte - t[i].start_byte
}

/// Whether node `i` lies inside `[ts, te)`.
pub open spec fn inside(t: Seq<SyntaxNode>, i: int, ts: int, te: int) -> bool {
    t[i].start_byte >= ts && t[i].end_byte <= te
}

/// The nodes of the pre-order walk from `i` that lie inside `[ts, te)`.
pub open spec fn inside_nodes(t: Seq<SyntaxNode>, i: int, ts: int, te: int) -> Seq<int> {
    walk(t, i, |n: int| if inside(t, n, ts, te) { seq![n] } else { Seq::<int>::empty() }, every_node())
}

/// Visiting nodes `s` in order from the best node so far and its size: a node replaces
/// the best one when it is strictly larger.
pub open spec fn pick_largest(t: Seq<SyntaxNode>, best: (Option<int>, int), s: Seq<int>) -> (Option<int>, int)
    decreases s.len(),
{
    if s.len() == 0 {
        best
    } else {
        let prev = pick_largest(t, best, s.drop_last());
        let x = s.last();
        if size_of_node(t, x) > prev.1 { (Some(x), size_of_node(t, x)) } else { prev }
    }
}

proof fn lemma_pick_append(t: Seq<SyntaxNode>, best: (Option<int>, int), a: Seq<int>, b: Seq<int>)
    ensures
        pick_largest(t, best, a + b) == pick_largest(t, pick_largest(t, best, a), b),
    decreases b.len(),
{
    if b.len() == 0 {
        assert(a + b =~= a);
    } else {
        lemma_pick_append(t, best, a, b.drop_last());
        assert((a + b).drop_last() =~= a + b.drop_last());
        assert((a + b).last() == b.last());
    }
}

fn walk_largest(t: &SyntaxTree, i: usize, ts: usize, te: usize, best: &mut Option<usize>, best_size: &mut usize)
    requires
        i < t@.len(),
        *old(best) matches Some(b) ==> b < t@.len(),
    ensures
        *final(best) matches Some(b) ==> b < t@.len(),
        (opt_index(*final(best)), *final(best_size) as int)
            == pick_largest(t@, (opt_index(*old(best)), *old(best_size) as int),
                inside_nodes(t@, i as int, ts as int, te as int)),
    decreases t@.len() - i,
{
    t.wf();
    let ghost item = |n: int| if inside(t@, n, ts as int, te as int) { seq![n] } else { Seq::<int>::empty() };
    let ghost start = (opt_index(*best), *best_size as int);
    let node = t.node(i);
    if node.start_byte >= ts && node.end_byte <= te {
        let size = node.end_byte - node.start_byte;
        if size > *best_size {
            *best = Some(i);
            *best_size = size;
        }
    }
    proof {
        reveal_with_fuel(pick_largest, 2);
        if inside(t@, i as int, ts as int, te as int) {
            assert(item(i as int).drop_last() =~= Seq::<int>::empty());
        }
    }
    assert((opt_index(*best), *best_size as int)
        == pick_largest(t@, start, item(i as int)));
    let n = node.children.len();
    let mut k: usize = 0;
    while k < n
        invariant
            tree_wf(t@),
            i < t@.len(),
            node == t@[i as int],
            n == child_count_of(t@, i as int),
            k <= n,
            item == (|n: int| if inside(t@, n, ts as int, te as int) { seq![n] } else { Seq::<int>::empty() }),
            opt_index(*best) matches Some(b) ==> b < t@.len(),
            (opt_index(*best), *best_size as int)
                == pick_largest(t@, start, item(i as int) + walk_children(t@, i as int, k as int, item, every_node())),
        decreases n - k,
    {
        let c = node.children[k];
        proof { lemma_walk_children_step(t@, i as int, k as int, item, every_node()); }
        walk_largest(t, c, ts, te, best, best_size);
        proof {
            lemma_pick_append(t@, start, item(i as int) + walk_children(t@, i as int, k as int, item, every_node()),
                walk(t@, c as int, item, every_node()));
            assert(item(i as int) + walk_children(t@, i as int, k as int, item, every_node())
                + walk(t@, c as int, item, every_node())
                =~= item(i as int) + walk_children(t@, i as int, k + 1, item, every_node()));
        }
        k = k + 1;
    }
    proof { lemma_walk_unfold(t@, i as int, item, every_node()); }
}

/// Find the largest node inside `[ts, te)`: the first, in pre-order from `start`, of
/// the nodes of greatest positive size. Nodes of size zero are never chosen.
pub fn find_largest_contained(t: &SyntaxTree, start: usize, ts: usize, te: usize) -> (r: Option<usize>)
    requires
        start < t@.len(),
    ensures
        opt_index(r)
            == pick_largest(t@, (None, 0), inside_nodes(t@, start as int, ts as int, te as int)).0,
        r matches Some(b) ==> b < t@.len(),
{
    let mut best: Option<usize> = None;
    let mut best_size: usize = 0;
    walk_largest(t, start, ts, te, &mut best, &mut best_size);
    best
}

/// The node chosen for `[ts, te)` under `mode`, descending from `start`.
pub open spec fn node_for_mode(t: Seq<SyntaxNode>, start: int, ts: int, te: int, mode: NodeAtRangeMode) -> Option<int> {
    match mode {
        NodeAtRangeMode::Exact => exact_at(t, start, ts, te),
        NodeAtRangeMode::SmallestContaining => Some(smallest_containing(t, start, ts, te)),
        NodeAtRangeMode::LargestContained => pick_largest(t, (None, 0), inside_nodes(t, start, ts, te)).0,
    }
}

/// Find the node for `[ts, te)` under the given mode.
pub fn find_node(t: &SyntaxTree, start: usize, ts: usize, te: usize, mode: NodeAtRangeMode) -> (r: Option<usize>)
    requires
        start < t@.len(),
    ensures
        opt_index(r) == node_for_mode(t@, start as int, ts as int, te as int, mode),
        r matches Some(b) ==> b < t@.len(),
{
    t.wf();
    match mode {
        NodeAtRangeMode::Exact => find_exact(t, start, ts, te),
        NodeAtRangeMode::SmallestContaining => {
            proof { lemma_smallest_in_tree(t@, start as int, ts as int, te as int); }
            let r = find_smallest_containing(t, start, ts, te);
            assert(r.unwrap() as int == smallest_containing(t@, start as int, ts as int, te as int));
            r
        },
        NodeAtRangeMode::LargestContained => find_largest_contained(t, start, ts, te),
    }
}

proof fn lemma_smallest_in_tree(t: Seq<SyntaxNode>, i: int, ts: int, te: int)
    requires
        0 <= i < t.len(),
    ensures
        0 <= smallest_containing(t, i, ts, te) < t.len(),
    decreases t.len() - i,
{
    match spanning_child_from(t, i, 0, ts, te) {
        Some(c) => if i < c < t.len() { lemma_smallest_in_tree(t, c, ts, te); },
        None => {},
    }
}

// ---------------------------------------------------------------------------
// Summaries and ancestors
// ---------------------------------------------------------------------------

/// The summary reported for node `i`: its kind, name, range, byte range, and (when text
/// is wanted) its text cut to `max_text_bytes` bytes on a character boundary.
pub open spec fn node_summary_ok(t: Seq<SyntaxNode>, i: int, include_text: bool, max_text_bytes: int, s: SummaryView) -> bool {
    &&& s.0 == t[i].kind@
    &&& s.1 == name_of(t, i)
    &&& s.2 == node_range_spec(t[i])
    &&& s.3 == Some((t[i].start_byte, t[i].end_byte))
    &&& include_text ==> (s.4 matches Some(x) && string_bytes(x) == capped_bytes(string_bytes(t[i].text@), max_text_bytes))
    &&& !include_text ==> s.4 is None
}

/// Summarise node `i` for a node-at-range answer.
pub fn node_summary(t: &SyntaxTree, i: usize, include_text: bool, max_text_bytes: usize) -> (r: AstNodeSummary)
    requires
        i < t@.len(),
    ensures
        r.id is None,
        r.children is None,
        node_summary_ok(t@, i as int, include_text, max_text_bytes as int, summary_view(r)),
{
    let node = t.node(i);
    let text = if include_text {
        let (s, _) = truncate_text(node.text.as_str(), max_text_bytes);
        Some(s)
    } else {
        None
    };
    AstNodeSummary {
        id: None,
        kind: node.kind.clone(),
        name: extract_name(t, i),
        range: node_range(node),
        byte_range: Some((node.start_byte, node.end_byte)),
        text,
        children: None,
    }
}

/// The chain of nodes from `i` down to the smallest node spanning `[ts, te)`, each step
/// entering the first child that spans the range.
pub open spec fn descent(t: Seq<SyntaxNode>, i: int, ts: int, te: int) -> Seq<int>
    decreases t.len() - i,
{
    if 0 <= i < t.len() {
        match spanning_child_from(t, i, 0, ts, te) {
            Some(c) => if i < c < t.len() { seq![i] + descent(t, c, ts, te) } else { seq![i] },
            None => seq![i],
        }
    } else {
        Seq::empty()
    }
}

/// The summaries of the nodes from the root down to the smallest node spanning
/// `[start_byte, end_byte)`, root first.
pub fn build_ancestors(t: &SyntaxTree, start_byte: usize, end_byte: usize, include_text: bool, max_text_bytes: usize) -> (r: Vec<AstNodeSummary>)
    ensures
        r@.len() == descent(t@, 0, start_byte as int, end_byte as int).len(),
        forall|j: int| 0 <= j < r@.len() ==> (#[trigger] r@[j]).id is None && r@[j].children is None
            && node_summary_ok(t@, descent(t@, 0, start_byte as int, end_byte as int)[j], include_text,
                max_text_bytes as int, summary_view(r@[j])),
{
    t.wf();
    let ghost whole = descent(t@, 0, start_byte as int, end_byte as int);
    let mut out: Vec<AstNodeSummary> = Vec::new();
    let mut cursor: usize = 0;
    loop
        invariant
            tree_wf(t@),
            cursor < t@.len(),
            whole == descent(t@, 0, start_byte as int, end_byte as int),
            out@.len() + descent(t@, cursor as int, start_byte as int, end_byte as int).len() == whole.len(),
            forall|j: int| 0 <= j < descent(t@, cursor as int, start_byte as int, end_byte as int).len() ==>
                whole[out@.len() + j] == #[trigger] descent(t@, cursor as int, start_byte as int, end_byte as int)[j],
            forall|j: int| 0 <= j < out@.len() ==> (#[trigger] out@[j]).id is None && out@[j].children is None
                && node_summary_ok(t@, whole[j], include_text, max_text_bytes as int, summary_view(out@[j])),
        decreases t@.len() - cursor,
    {
        let ghost rest = descent(t@, cursor as int, start_byte as int, end_byte as int);
        let s = node_summary(t, cursor, include_text, max_text_bytes);
        assert(rest[0] == cursor as int);
        assert(whole[out@.len() as int] == cursor as int);
        out.push(s);
        match spanning_child(t, cursor, start_byte, end_byte) {
            Some(c) => {
                let ghost next = descent(t@, c as int, start_byte as int, end_byte as int);
                assert(rest =~= seq![cursor as int] + next);
                assert forall|j: int| 0 <= j < next.len() implies whole[out@.len() + j] == #[trigger] next[j] by {
                    assert(rest[1 + j] == next[j]);
                }
                cursor = c;
            },
            None => {
                assert(rest =~= seq![cursor as int]);
                return out;
            },
        }
    }
}

} // verus!
