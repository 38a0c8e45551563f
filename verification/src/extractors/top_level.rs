//! The named nodes at the top level of a file.
use vstd::prelude::*;

use super::outline::{extract_node_name, node_name};
use crate::config::defaults::MAX_NODES;
use crate::shared::{Range, opt_text};
use crate::syntax::{SyntaxNode, SyntaxTree, child_count_of, child_of, node_range, node_range_spec, tree_wf};

verus! {

/// A named node at the top level of a file.
#[derive(Debug)]
pub struct TopLevelNode {
    pub kind: String,
    pub name: Option<String>,
    pub range: Range,
}

/// The named children of the root among its first `k` children.
pub open spec fn named_top_upto(t: Seq<SyntaxNode>, k: int) -> Seq<int>
    decreases k,
{
    if k <= 0 {
        Seq::empty()
    } else {
        let c = child_of(t, 0, k - 1);
        named_top_upto(t, k - 1) + (if t[c].named { seq![c] } else { Seq::empty() })
    }
}

/// `r` describes node `n`: its kind, its name and its range.
pub open spec fn describes(t: Seq<SyntaxNode>, n: int, r: TopLevelNode) -> bool {
    &&& r.kind@ == t[n].kind@
    &&& opt_text(r.name) == node_name(t, n)
    &&& r.range == node_range_spec(t[n])
}

proof fn lemma_named_top_prefix(t: Seq<SyntaxNode>, k: int, m: int)
    requires
        0 <= k <= m,
    ensures
        named_top_upto(t, k).len() <= named_top_upto(t, m).len(),
        forall|j: int| 0 <= j < named_top_upto(t, k).len() ==> named_top_upto(t, m)[j] == #[trigger] named_top_upto(t, k)[j],
    decreases m - k,
{
    if k < m {
        lemma_named_top_prefix(t, k, m - 1);
    }
}

/// The named top-level nodes of a file, in order, at most `MAX_NODES` of them.
pub fn top_level_nodes(t: &SyntaxTree) -> (r: Vec<TopLevelNode>)
    ensures
        ({
            let all = named_top_upto(t@, child_count_of(t@, 0));
            &&& r@.len() == (if all.len() <= MAX_NODES { all.len() } else { MAX_NODES as nat })
            &&& forall|j: int| 0 <= j < r@.len() ==> describes(t@, all[j], #[trigger] r@[j])
        }),
{
    t.wf();
    let root = t.node(0);
    let m = root.children.len();
    let mut nodes: Vec<TopLevelNode> = Vec::new();
    let mut k: usize = 0;
    while k < m
        invariant_except_break
            tree_wf(t@),
            root == t@[0],
            m == child_count_of(t@, 0),
            k <= m,
            nodes@.len() <= MAX_NODES,
            nodes@.len() == named_top_upto(t@, k as int).len(),
            forall|j: int| 0 <= j < nodes@.len() ==> describes(t@, named_top_upto(t@, k as int)[j], #[trigger] nodes@[j]),
        ensures
            ({
                let all = named_top_upto(t@, m as int);
                &&& nodes@.len() == (if all.len() <= MAX_NODES { all.len() } else { MAX_NODES as nat })
                &&& forall|j: int| 0 <= j < nodes@.len() ==> describes(t@, all[j], #[trigger] nodes@[j])
            }),
        decreases m - k,
    {
        if nodes.len() >= MAX_NODES {
            proof {
                lemma_named_top_prefix(t@, k as int, m as int);
                let all = named_top_upto(t@, m as int);
                assert forall|j: int| 0 <= j < nodes@.len() implies describes(t@, all[j], #[trigger] nodes@[j]) by {
                    assert(all[j] == named_top_upto(t@, k as int)[j]);
                }
            }
            break;
        }
        let c = root.children[k];
        assert(c as int == child_of(t@, 0, k as int));
        let ghost prev = named_top_upto(t@, k as int);
        let cn = t.node(c);
        if cn.named {
            nodes.push(TopLevelNode { kind: cn.kind.clone(), name: extract_node_name(t, c), range: node_range(cn) });
            proof {
                let next = named_top_upto(t@, k + 1);
                assert forall|j: int| 0 <= j < nodes@.len() implies describes(t@, next[j], #[trigger] nodes@[j]) by {
                    if j < prev.len() {
                        assert(next[j] == prev[j]);
                    }
                }
            }
        } else {
            assert(named_top_upto(t@, k + 1) =~= prev);
        }
        k = k + 1;
    }
    nodes
}

} // verus!
