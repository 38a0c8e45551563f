//! The chain of nodes that enclose a byte offset, outermost first.
use vstd::prelude::*;
use vstd::string::*;

use super::outline::{extract_node_name, node_name};
use crate::config::defaults::MAX_TEXT_BYTES;
use crate::shared::{Position, Range, opt_text, texts};
use crate::syntax::{
    SyntaxNode, SyntaxTree, child_count_of, child_of, node_range, node_range_spec, parent_of,
    tree_wf,
};
use crate::text::{capped_bytes, capped_text, str_eq, string_bytes};

verus! {

/// Options of an enclosing-node search.
pub struct EnclosingOptions {
    /// When some and not empty, only nodes of these kinds are reported.
    pub kinds: Option<Vec<String>>,
    /// Whether each node's source text is reported.
    pub include_source_text: bool,
    /// How many nodes to report at most (never more than 64).
    pub max_ancestors: usize,
}

impl Default for EnclosingOptions {
    fn default() -> (r: Self)
        ensures
            r.kinds is None,
            !r.include_source_text,
            r.max_ancestors == 64,
    {
        EnclosingOptions { kinds: None, include_source_text: false, max_ancestors: 64 }
    }
}

/// A node on the enclosing chain.
#[derive(Debug)]
pub struct NodeSummary {
    pub kind: String,
    pub name: Option<String>,
    pub start_byte: usize,
    pub end_byte: usize,
    pub range: Range,
    pub source_text: Option<String>,
}

/// The result of an enclosing-node request.
#[derive(Debug)]
pub struct EnclosingResult {
    pub file_path: String,
    pub language: String,
    pub position: Position,
    pub ancestors: Vec<NodeSummary>,
    pub truncated: bool,
}

/// Whether child `c` reaches byte `b` as tree-sitter's `descendant_for_byte_range` asks:
/// it starts at or before `b` and ends after it, or is empty and sits at `b`.
pub open spec fn reaches(t: Seq<SyntaxNode>, c: int, b: int) -> bool {
    &&& t[c].start_byte <= b
    &&& if t[c].start_byte == t[c].end_byte { t[c].end_byte >= b } else { t[c].end_byte > b }
}

/// The first child of node `i`, from position `k` on, that reaches byte `b`; children
/// ending before `b` are passed and the search stops at the first child starting after it.
pub open spec fn reaching_child_from(t: Seq<SyntaxNode>, i: int, k: int, b: int) -> Option<int>
    decreases child_count_of(t, i) - k,
{
    if 0 <= k < child_count_of(t, i) {
        let c = child_of(t, i, k);
        if t[c].end_byte < b || (if t[c].start_byte == t[c].end_byte { t[c].end_byte < b } else { t[c].end_byte <= b }) {
            reaching_child_from(t, i, k + 1, b)
        } else if b < t[c].start_byte {
            None
        } else {
            Some(c)
        }
    } else {
        None
    }
}

/// The deepest node containing byte `b`, found by descending from node `i` into the
/// first child that reaches it.
pub open spec fn deepest_at(t: Seq<SyntaxNode>, i: int, b: int) -> int
    decreases t.len() - i,
{
    if 0 <= i < t.len() {
        match reaching_child_from(t, i, 0, b) {
            Some(c) => if i < c < t.len() { deepest_at(t, c, b) } else { i },
            None => i,
        }
    } else {
        i
    }
}

/// The first child of node `i` that reaches byte `b`.
fn reaching_child(t: &SyntaxTree, i: usize, b: usize) -> (r: Option<usize>)
    requires
        i < t@.len(),
    ensures
        match r {
            Some(c) => reaching_child_from(t@, i as int, 0, b as int) == Some(c as int) && i < c < t@.len(),
            None => reaching_child_from(t@, i as int, 0, b as int) is None,
        },
{
    t.wf();
    let node = t.node(i);
    let n = node.children.len();
    let mut k: usize = 0;
    while k < n
        invariant
            tree_wf(t@),
            i < t@.len(),
            node == t@[i as int],
            n == child_count_of(t@, i as int),
            k <= n,
            reaching_child_from(t@, i as int, 0, b as int) == reaching_child_from(t@, i as int, k as int, b as int),
        decreases n - k,
    {
        let c = node.children[k];
        assert(c as int == child_of(t@, i as int, k as int));
        let cn = t.node(c);
        let empty = cn.start_byte == cn.end_byte;
        let before = cn.end_byte < b || (if empty { cn.end_byte < b } else { cn.end_byte <= b });
        if !before {
            if b < cn.start_byte {
                return None;
            }
            return Some(c);
        }
        k = k + 1;
    }
    None
}

/// The deepest node, descending from `start`, that contains byte `b` in the sense of
/// tree-sitter's `descendant_for_byte_range(b, b)`.
pub fn descendant_for_byte(t: &SyntaxTree, start: usize, b: usize) -> (r: usize)
    requires
        start < t@.len(),
    ensures
        r as int == deepest_at(t@, start as int, b as int),
        r < t@.len(),
{
    let mut cursor = start;
    loop
        invariant
            cursor < t@.len(),
            deepest_at(t@, start as int, b as int) == deepest_at(t@, cursor as int, b as int),
        decreases t@.len() - cursor,
    {
        match reaching_child(t, cursor, b) {
            Some(c) => {
                cursor = c;
            },
            None => {
                return cursor;
            },
        }
    }
}

/// The texts of an optional list of strings.
pub open spec fn opt_texts(o: Option<Vec<String>>) -> Option<Seq<Seq<char>>> {
    match o {
        Some(ks) => Some(texts(ks@)),
        None => None,
    }
}

/// Whether node `a` is a proper ancestor of node `d`: it lies on `d`'s parent chain.
pub open spec fn is_ancestor(t: Seq<SyntaxNode>, a: int, d: int) -> bool
    decreases d,
{
    if 0 <= d < t.len() {
        match t[d].parent {
            Some(p) => (p as int) < d && ((p as int) == a || is_ancestor(t, a, p as int)),
            None => false,
        }
    } else {
        false
    }
}

proof fn lemma_upward_above(t: Seq<SyntaxNode>, i: int, kinds: Option<Seq<Seq<char>>>)
    requires
        tree_wf(t),
        0 <= i < t.len(),
    ensures
        forall|x: int| #[trigger] upward(t, i, kinds).contains(x) ==> x == i || is_ancestor(t, x, i),
    decreases i,
{
    match t[i].parent {
        Some(p) => {
            if (p as int) < i {
                lemma_upward_above(t, p as int, kinds);
                let own = if kind_selected(t, i, kinds) { seq![i] } else { Seq::<int>::empty() };
                assert forall|x: int| #[trigger] upward(t, i, kinds).contains(x) implies x == i || is_ancestor(t, x, i) by {
                    let k = choose|k: int| 0 <= k < upward(t, i, kinds).len() && upward(t, i, kinds)[k] == x;
                    if k >= own.len() {
                        assert(upward(t, p as int, kinds)[k - own.len()] == x);
                        assert(upward(t, p as int, kinds).contains(x));
                    }
                }
            }
        },
        None => {},
    }
}

/// The enclosing chain is ordered by nesting: in the nodes from a node up to the root,
/// each one is a proper ancestor of every node before it. `enclosing_node` reports that
/// chain reversed, so each reported node encloses every node reported after it, the
/// outermost first; and with no kind filter the chain ends at the root, which is then
/// reported first.
pub proof fn law_enclosing_chain_nests(t: Seq<SyntaxNode>, i: int, kinds: Option<Seq<Seq<char>>>)
    requires
        tree_wf(t),
        0 <= i < t.len(),
    ensures
        forall|j: int, k: int| 0 <= j < k < upward(t, i, kinds).len()
            ==> is_ancestor(t, #[trigger] upward(t, i, kinds)[k], #[trigger] upward(t, i, kinds)[j]),
        kinds is None ==> upward(t, i, kinds).len() > 0 && upward(t, i, kinds).last() == 0,
    decreases i,
{
    let up = upward(t, i, kinds);
    let own = if kind_selected(t, i, kinds) { seq![i] } else { Seq::<int>::empty() };
    match t[i].parent {
        Some(p) => {
            if (p as int) < i {
                law_enclosing_chain_nests(t, p as int, kinds);
                lemma_upward_above(t, p as int, kinds);
                let rest = upward(t, p as int, kinds);
                assert(up == own + rest);
                assert forall|j: int, k: int| 0 <= j < k < up.len() implies is_ancestor(t, #[trigger] up[k], #[trigger] up[j]) by {
                    if j >= own.len() {
                        assert(up[j] == rest[j - own.len()]);
                        assert(up[k] == rest[k - own.len()]);
                    } else {
                        assert(up[j] == i);
                        assert(up[k] == rest[k - own.len()]);
                        assert(rest.contains(up[k]));
                    }
                }
            } else {
                assert(i != 0);
            }
        },
        None => {
            assert(i == 0);
        },
    }
}

/// Whether node `i` is reported under the kind filter.
pub open spec fn kind_selected(t: Seq<SyntaxNode>, i: int, kinds: Option<Seq<Seq<char>>>) -> bool {
    match kinds {
        Some(ks) => ks.len() == 0 || ks.contains(t[i].kind@),
        None => true,
    }
}

/// The nodes from `i` up to the root that pass the kind filter, innermost first.
pub open spec fn upward(t: Seq<SyntaxNode>, i: int, kinds: Option<Seq<Seq<char>>>) -> Seq<int>
    decreases i,
{
    if 0 <= i < t.len() {
        let own = if kind_selected(t, i, kinds) { seq![i] } else { Seq::empty() };
        match t[i].parent {
            Some(p) => if (p as int) < i { own + upward(t, p as int, kinds) } else { own },
            None => own,
        }
    } else {
        Seq::empty()
    }
}

/// `s` summarises node `i`: kind, name, byte offsets, range, and (when asked) the text cut
/// to `MAX_TEXT_BYTES` bytes.
pub open spec fn summarizes(t: Seq<SyntaxNode>, i: int, include_text: bool, s: NodeSummary) -> bool {
    &&& s.kind@ == t[i].kind@
    &&& opt_text(s.name) == node_name(t, i)
    &&& s.start_byte == t[i].start_byte
    &&& s.end_byte == t[i].end_byte
    &&& s.range == node_range_spec(t[i])
    &&& if include_text {
        s.source_text matches Some(x) && string_bytes(x@) == capped_bytes(string_bytes(t[i].text@), MAX_TEXT_BYTES as int)
    } else {
        s.source_text is None
    }
}

fn node_to_summary(t: &SyntaxTree, i: usize, include_text: bool) -> (r: NodeSummary)
    requires
        i < t@.len(),
    ensures
        summarizes(t@, i as int, include_text, r),
{
    let node = t.node(i);
    let source_text = if include_text { Some(capped_text(node.text.as_str(), MAX_TEXT_BYTES)) } else { None };
    NodeSummary {
        kind: node.kind.clone(),
        name: extract_node_name(t, i),
        start_byte: node.start_byte,
        end_byte: node.end_byte,
        range: node_range(node),
        source_text,
    }
}

fn selected(t: &SyntaxTree, i: usize, kinds: &Option<Vec<String>>) -> (r: bool)
    requires
        i < t@.len(),
    ensures
        r == kind_selected(t@, i as int, opt_texts(*kinds)),
{
    match kinds {
        Some(ks) => {
            assert(opt_texts(*kinds) == Some(texts(ks@)));
            if ks.len() == 0 {
                return true;
            }
            let kind = t.node(i).kind.as_str();
            let mut j: usize = 0;
            while j < ks.len()
                invariant
                    j <= ks@.len(),
                    i < t@.len(),
                    opt_texts(*kinds) == Some(texts(ks@)),
                    kind@ == t@[i as int].kind@,
                    forall|q: int| 0 <= q < j ==> texts(ks@)[q] != kind@,
                decreases ks@.len() - j,
            {
                if str_eq(ks[j].as_str(), kind) {
                    assert(texts(ks@)[j as int] == kind@);
                    assert(texts(ks@).contains(kind@));
                    return true;
                }
                j = j + 1;
            }
            false
        },
        None => true,
    }
}

/// The enclosing chain of byte offset `byte_offset` (taken at most at the end of the
/// source): the nodes from the deepest one containing it up to the root that pass the
/// kind filter, at most `min(max_ancestors, 64)` of them counted from the inside,
/// reported outermost first.
pub fn enclosing_node(t: &SyntaxTree, source: &str, byte_offset: usize, opts: &EnclosingOptions) -> (r: Result<Vec<NodeSummary>, ()>)
    ensures
        ({
            let len = source.spec_bytes().len() as int;
            let b = if byte_offset <= len { byte_offset as int } else { len };
            let up = upward(t@, deepest_at(t@, 0, b), opt_texts(opts.kinds));
            let m = if opts.max_ancestors <= 64 { opts.max_ancestors as int } else { 64 };
            let kept = if up.len() <= m { up } else { up.take(m) };
            &&& r matches Ok(v)
            &&& v@.len() == kept.len()
            &&& forall|j: int| 0 <= j < v@.len() ==> summarizes(t@, kept[kept.len() - 1 - j], opts.include_source_text, #[trigger] v@[j])
        }),
{
    t.wf();
    let len = source.as_bytes().len();
    let b = if byte_offset <= len { byte_offset } else { len };
    let deepest = descendant_for_byte(t, 0, b);
    let max_ancestors = if opts.max_ancestors <= 64 { opts.max_ancestors } else { 64 };
    let ghost kinds = opt_texts(opts.kinds);
    let ghost up = upward(t@, deepest as int, kinds);
    let mut inner: Vec<NodeSummary> = Vec::new();
    let mut current = deepest;
    let ghost mut seen: Seq<int> = Seq::empty();
    loop
        invariant_except_break
            tree_wf(t@),
            current < t@.len(),
            kinds == (opt_texts(opts.kinds)),
            up == upward(t@, deepest as int, kinds),
            seen + upward(t@, current as int, kinds) == up,
            inner@.len() == seen.len(),
            inner@.len() <= max_ancestors,
            forall|j: int| 0 <= j < inner@.len() ==> summarizes(t@, seen[j], opts.include_source_text, #[trigger] inner@[j]),
        ensures
            inner@.len() == (if up.len() <= max_ancestors { up.len() } else { max_ancestors as nat }),
            forall|j: int| 0 <= j < inner@.len() ==> summarizes(t@, up[j], opts.include_source_text, #[trigger] inner@[j]),
        decreases current,
    {
        if inner.len() >= max_ancestors {
            proof {
                assert forall|j: int| 0 <= j < inner@.len() implies summarizes(t@, up[j], opts.include_source_text, #[trigger] inner@[j]) by {
                    assert(up[j] == seen[j]);
                }
            }
            break;
        }
        let ghost rest = upward(t@, current as int, kinds);
        let ghost own = if kind_selected(t@, current as int, kinds) { seq![current as int] } else { Seq::<int>::empty() };
        if selected(t, current, &opts.kinds) {
            inner.push(node_to_summary(t, current, opts.include_source_text));
        }
        proof {
            seen = seen + own;
        }
        match parent_of(t, current) {
            Some(p) => {
                assert(rest == own + upward(t@, p as int, kinds));
                assert(seen + upward(t@, p as int, kinds) =~= up);
                current = p;
            },
            None => {
                assert(rest == own);
                assert(seen =~= up);
                break;
            },
        }
    }
    let n = inner.len();
    let ghost kept = if up.len() <= max_ancestors { up } else { up.take(max_ancestors as int) };
    proof {
        assert forall|j: int| 0 <= j < n implies summarizes(t@, kept[j], opts.include_source_text, #[trigger] inner@[j]) by {
            if up.len() > max_ancestors {
                assert(kept[j] == up[j]);
            }
        }
    }
    let mut out: Vec<NodeSummary> = Vec::new();
    let mut k: usize = n;
    while k > 0
        invariant
            k <= n,
            k == inner@.len(),
            n == kept.len(),
            out@.len() == n - k,
            forall|j: int| 0 <= j < k ==> summarizes(t@, kept[j], opts.include_source_text, #[trigger] inner@[j]),
            forall|j: int| 0 <= j < out@.len() ==> summarizes(t@, kept[kept.len() - 1 - j], opts.include_source_text, #[trigger] out@[j]),
        decreases k,
    {
        k = k - 1;
        let s = inner.pop().unwrap();
        out.push(s);
    }
    Ok(out)
}

} // verus!
