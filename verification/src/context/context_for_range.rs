//! Structural context around a byte range: the node that contains it, its parents and
//! siblings, and text blocks that share one byte budget.
use vstd::prelude::*;

use super::node_at_range_helpers::{find_smallest_containing, make_summary, smallest_containing, summarized};
use crate::config::defaults::MAX_CONTEXT_BYTES;
use crate::shared::{AstNodeSummary, BlockView, ContextBlock, Range, blocks_view};
use crate::syntax::{SyntaxNode, SyntaxTree, child_count_of, child_of, node_range, node_range_spec, parent_of, tree_wf};
use crate::text::{
    TextBudget, budget_remaining, budget_spend, capped_bytes, concat2, decimal, string_bytes,
    truncate_text, usize_to_string,
};

verus! {

/// Options of a context-for-range request.
pub struct AstContextForRangeInput {
    pub file_path: String,
    pub range: Option<Range>,
    pub include_parents: bool,
    pub include_siblings: bool,
    pub max_parent_depth: usize,
    pub max_context_bytes: usize,
}

impl Default for AstContextForRangeInput {
    fn default() -> (r: Self)
        ensures
            r.file_path@ == Seq::<char>::empty(),
            r.range is None,
            r.include_parents,
            !r.include_siblings,
            r.max_parent_depth == 4,
            r.max_context_bytes == MAX_CONTEXT_BYTES,
    {
        AstContextForRangeInput {
            file_path: String::new(),
            range: None,
            include_parents: true,
            include_siblings: false,
            max_parent_depth: 4,
            max_context_bytes: MAX_CONTEXT_BYTES,
        }
    }
}

/// The structural context of a range.
pub struct ContextForRange {
    pub target: Option<AstNodeSummary>,
    pub parents: Vec<AstNodeSummary>,
    pub siblings: Vec<AstNodeSummary>,
    pub blocks: Vec<ContextBlock>,
    pub truncated: bool,
}

/// The ancestors of node `i`, nearest first, at most `n` of them.
pub open spec fn up_chain(t: Seq<SyntaxNode>, i: int, n: int) -> Seq<int>
    decreases i,
{
    if 0 <= i < t.len() && n > 0 {
        match t[i].parent {
            Some(p) => if (p as int) < i { seq![p as int] + up_chain(t, p as int, n - 1) } else { Seq::empty() },
            None => Seq::empty(),
        }
    } else {
        Seq::empty()
    }
}

/// The children of node `p` among its first `k`, other than node `skip`, in order.
pub open spec fn siblings_upto(t: Seq<SyntaxNode>, p: int, k: int, skip: int) -> Seq<int>
    decreases k,
{
    if k <= 0 {
        Seq::empty()
    } else {
        siblings_upto(t, p, k - 1, skip) + (if child_of(t, p, k - 1) != skip { seq![child_of(t, p, k - 1)] } else { Seq::empty() })
    }
}

/// The siblings of node `i`: the other children of its parent.
pub open spec fn siblings_of(t: Seq<SyntaxNode>, i: int) -> Seq<int> {
    match t[i].parent {
        Some(p) => siblings_upto(t, p as int, child_count_of(t, p as int), i),
        None => Seq::empty(),
    }
}

/// The label of the block of the `j`-th parent (counting from zero).
pub open spec fn parent_label(j: nat) -> Seq<char> {
    if j == 0 { "parent"@ } else { "parent_"@ + decimal(j + 1) }
}

/// The block for node `i` under `label`, and the budget after it: the node's text cut to
/// what remains of the budget, which is then spent.
pub open spec fn block_step(t: Seq<SyntaxNode>, i: int, label: Seq<char>, file: Seq<char>, b: TextBudget) -> (BlockView, TextBudget) {
    let raw = string_bytes(t[i].text@);
    let rem = budget_remaining(b);
    let cut = capped_bytes(raw, rem);
    let nb = budget_spend(b, cut.len() as int);
    ((label, t[i].kind@, file, node_range_spec(t[i]), vstd::utf8::decode_utf8(cut), raw.len() > rem || nb.exceeded), nb)
}

/// The blocks for the labelled nodes `items`, in order, from budget `b`, and the final budget.
pub open spec fn blocks_for(t: Seq<SyntaxNode>, items: Seq<(Seq<char>, int)>, file: Seq<char>, b: TextBudget) -> (Seq<BlockView>, TextBudget)
    decreases items.len(),
{
    if items.len() == 0 {
        (Seq::empty(), b)
    } else {
        let prev = blocks_for(t, items.drop_last(), file, b);
        let step = block_step(t, items.last().1, items.last().0, file, prev.1);
        (prev.0.push(step.0), step.1)
    }
}

/// The labelled nodes whose blocks a context answer holds: the target, then its parents.
pub open spec fn block_items(target: int, parents: Seq<int>) -> Seq<(Seq<char>, int)> {
    seq![("target_node"@, target)] + Seq::new(parents.len(), |j: int| (parent_label(j as nat), parents[j]))
}

/// Append the block for node `i` under `label`, spending its text from the budget.
pub fn add_block(blocks: &mut Vec<ContextBlock>, budget: &mut TextBudget, label: &str, t: &SyntaxTree, i: usize, file_path: &str)
    requires
        i < t@.len(),
    ensures
        blocks_view(final(blocks)@) == blocks_view(old(blocks)@).push(block_step(t@, i as int, label@, file_path@, *old(budget)).0),
        *final(budget) == block_step(t@, i as int, label@, file_path@, *old(budget)).1,
{
    let node = t.node(i);
    let rem = budget.remaining();
    let (text, truncated) = truncate_text(node.text.as_str(), rem);
    let len = text.as_str().as_bytes().len();
    budget.try_spend(len);
    proof { vstd::utf8::encode_utf8_decode_utf8(text@); }
    let ghost before = blocks_view(blocks@);
    blocks.push(ContextBlock {
        label: label.to_owned(),
        kind: node.kind.clone(),
        file_path: file_path.to_owned(),
        range: node_range(node),
        text,
        truncated: truncated || budget.exceeded,
    });
    assert(blocks_view(blocks@) =~= before.push(block_step(t@, i as int, label@, file_path@, *old(budget)).0));
}

fn parent_label_text(j: usize) -> (r: String)
    requires
        j < usize::MAX,
    ensures
        r@ == parent_label(j as nat),
{
    if j == 0 {
        "parent".to_owned()
    } else {
        let n = usize_to_string(j + 1);
        concat2("parent_", n.as_str())
    }
}

fn collect_siblings(t: &SyntaxTree, p: usize, skip: usize) -> (r: Vec<AstNodeSummary>)
    requires
        p < t@.len(),
    ensures
        r@.len() == siblings_upto(t@, p as int, child_count_of(t@, p as int), skip as int).len(),
        forall|j: int| 0 <= j < r@.len() ==> summarized(t@,
            siblings_upto(t@, p as int, child_count_of(t@, p as int), skip as int)[j], false, 0, #[trigger] r@[j]),
{
    t.wf();
    let node = t.node(p);
    let n = node.children.len();
    let mut out: Vec<AstNodeSummary> = Vec::new();
    let mut k: usize = 0;
    while k < n
        invariant
            tree_wf(t@),
            p < t@.len(),
            node == t@[p as int],
            n == child_count_of(t@, p as int),
            k <= n,
            out@.len() == siblings_upto(t@, p as int, k as int, skip as int).len(),
            forall|j: int| 0 <= j < out@.len() ==> summarized(t@,
                siblings_upto(t@, p as int, k as int, skip as int)[j], false, 0, #[trigger] out@[j]),
        decreases n - k,
    {
        let c = node.children[k];
        assert(c as int == child_of(t@, p as int, k as int));
        let ghost prev = siblings_upto(t@, p as int, k as int, skip as int);
        if c != skip {
            out.push(make_summary(t, c, false, 0));
            assert(siblings_upto(t@, p as int, k + 1, skip as int) == prev.push(c as int));
        } else {
            assert(siblings_upto(t@, p as int, k + 1, skip as int) =~= prev);
        }
        k = k + 1;
    }
    out
}

/// The context of the byte range `[start_byte, end_byte)`: the smallest node containing
/// it (summarised with up to 12000 bytes of text), up to `max_parent_depth` of its
/// ancestors (with up to 8000 bytes each), its siblings when asked (without text), and a
/// block of text for the target and each parent, all drawn from one budget of
/// `max_context_bytes` bytes; `truncated` tells whether the budget ran out.
pub fn context_for_range(t: &SyntaxTree, start_byte: usize, end_byte: usize, input: &AstContextForRangeInput, file_path: &str) -> (r: ContextForRange)
    ensures
        ({
            let target = smallest_containing(t@, 0, start_byte as int, end_byte as int);
            let parents = if input.include_parents { up_chain(t@, target, input.max_parent_depth as int) } else { Seq::empty() };
            let siblings = if input.include_siblings { siblings_of(t@, target) } else { Seq::empty() };
            let fin = blocks_for(t@, block_items(target, parents), file_path@,
                TextBudget { limit: input.max_context_bytes, used: 0, exceeded: false });
            &&& r.target matches Some(s) && summarized(t@, target, true, 12000, s)
            &&& r.parents@.len() == parents.len()
            &&& forall|j: int| 0 <= j < parents.len() ==> summarized(t@, parents[j], true, 8000, #[trigger] r.parents@[j])
            &&& r.siblings@.len() == siblings.len()
            &&& forall|j: int| 0 <= j < siblings.len() ==> summarized(t@, siblings[j], false, 0, #[trigger] r.siblings@[j])
            &&& blocks_view(r.blocks@) == fin.0
            &&& r.truncated == fin.1.exceeded
        }),
{
    t.wf();
    proof { lemma_smallest_bound(t@, 0, start_byte as int, end_byte as int); }
    let target = find_smallest_containing(t, 0, start_byte, end_byte).unwrap();
    let ghost tg = target as int;
    let target_summary = make_summary(t, target, true, 12000);

    // Parents, nearest first.
    let mut parents: Vec<AstNodeSummary> = Vec::new();
    let mut parent_nodes: Vec<usize> = Vec::new();
    if input.include_parents {
        let mut cursor = parent_of(t, target);
        let mut depth: usize = 0;
        assert(parent_nodes@.map_values(|x: usize| x as int) =~= Seq::<int>::empty());
        while cursor.is_some()
            invariant_except_break
                tree_wf(t@),
                target < t@.len(),
                depth <= input.max_parent_depth,
                parent_nodes@.len() == depth,
                parents@.len() == depth,
                cursor matches Some(c) ==> c < t@.len(),
                ({
                    let rest = match cursor {
                        Some(c) => if depth < input.max_parent_depth {
                            seq![c as int] + up_chain(t@, c as int, input.max_parent_depth - depth - 1)
                        } else {
                            Seq::empty()
                        },
                        None => Seq::<int>::empty(),
                    };
                    parent_nodes@.map_values(|x: usize| x as int) + rest == up_chain(t@, tg, input.max_parent_depth as int)
                }),
                forall|j: int| 0 <= j < parents@.len() ==> summarized(t@, parent_nodes@[j] as int, true, 8000, #[trigger] parents@[j]),
                forall|j: int| 0 <= j < parent_nodes@.len() ==> (#[trigger] parent_nodes@[j]) < t@.len(),
            ensures
                parent_nodes@.map_values(|x: usize| x as int) == up_chain(t@, tg, input.max_parent_depth as int),
                parents@.len() == parent_nodes@.len(),
                forall|j: int| 0 <= j < parents@.len() ==> summarized(t@, parent_nodes@[j] as int, true, 8000, #[trigger] parents@[j]),
                forall|j: int| 0 <= j < parent_nodes@.len() ==> (#[trigger] parent_nodes@[j]) < t@.len(),
            decreases match cursor { Some(c) => c as int + 1, None => 0 },
        {
            let p = cursor.unwrap();
            if depth >= input.max_parent_depth {
                break;
            }
            parents.push(make_summary(t, p, true, 8000));
            let ghost before = parent_nodes@.map_values(|x: usize| x as int);
            parent_nodes.push(p);
            assert(parent_nodes@.map_values(|x: usize| x as int) =~= before.push(p as int));
            depth = depth + 1;
            cursor = parent_of(t, p);
            assert(up_chain(t@, p as int, input.max_parent_depth - depth) == (match cursor {
                Some(c) => if depth < input.max_parent_depth {
                    seq![c as int] + up_chain(t@, c as int, input.max_parent_depth - depth - 1)
                } else {
                    Seq::empty()
                },
                None => Seq::<int>::empty(),
            }));
            assert(before.push(p as int) + up_chain(t@, p as int, input.max_parent_depth - depth)
                =~= before + (seq![p as int] + up_chain(t@, p as int, input.max_parent_depth - depth)));
        }
    } else {
        assert(parent_nodes@.map_values(|x: usize| x as int) =~= Seq::<int>::empty());
    }

    // Siblings.
    let siblings: Vec<AstNodeSummary> = if input.include_siblings {
        match parent_of(t, target) {
            Some(p) => collect_siblings(t, p, target),
            None => Vec::new(),
        }
    } else {
        Vec::new()
    };

    // Blocks, sharing one budget.
    let mut budget = TextBudget::new(input.max_context_bytes);
    let mut blocks: Vec<ContextBlock> = Vec::new();
    let ghost chain = parent_nodes@.map_values(|x: usize| x as int);
    let ghost items = block_items(tg, chain);
    let ghost b0 = TextBudget { limit: input.max_context_bytes, used: 0, exceeded: false };
    add_block(&mut blocks, &mut budget, "target_node", t, target, file_path);
    proof {
        assert(items.take(1).drop_last() =~= Seq::<(Seq<char>, int)>::empty());
        assert(items.take(1).last() == ("target_node"@, tg));
        assert(blocks_for(t@, Seq::<(Seq<char>, int)>::empty(), file_path@, b0) == (Seq::<BlockView>::empty(), b0));
        assert(blocks_view(blocks@) =~= blocks_for(t@, items.take(1), file_path@, b0).0);
    }
    let n = parent_nodes.len();
    let mut i: usize = 0;
    while i < n
        invariant
            tree_wf(t@),
            n == parent_nodes@.len(),
            i <= n,
            chain == parent_nodes@.map_values(|x: usize| x as int),
            items == block_items(tg, chain),
            forall|j: int| 0 <= j < parent_nodes@.len() ==> (#[trigger] parent_nodes@[j]) < t@.len(),
            (blocks_view(blocks@), budget) == blocks_for(t@, items.take(i + 1), file_path@, b0),
        decreases n - i,
    {
        let p = parent_nodes[i];
        let label = parent_label_text(i);
        add_block(&mut blocks, &mut budget, label.as_str(), t, p, file_path);
        proof {
            assert(items.take(i + 2).drop_last() =~= items.take(i + 1));
            assert(items.take(i + 2).last() == (parent_label(i as nat), p as int));
        }
        i = i + 1;
    }
    proof {
        assert(items.take(n + 1) =~= items);
    }
    let truncated = budget.exceeded;
    ContextForRange { target: Some(target_summary), parents, siblings, blocks, truncated }
}

proof fn lemma_smallest_bound(t: Seq<SyntaxNode>, i: int, ts: int, te: int)
    requires
        0 <= i < t.len(),
        t.len() <= usize::MAX,
    ensures
        0 <= smallest_containing(t, i, ts, te) < t.len(),
    decreases t.len() - i,
{
    match super::node_at_range_helpers::spanning_child_from(t, i, 0, ts, te) {
        Some(c) => if i < c < t.len() { lemma_smallest_bound(t, c, ts, te); },
        None => {},
    }
}

} // verus!
