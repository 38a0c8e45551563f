//! A plain-value model of a concrete syntax tree, and its construction from a
//! `tree_sitter::Tree`.
use vstd::prelude::*;

use vstd::string::*;

use crate::shared::{Position, Range};

verus! {

/// One node of a syntax tree, as the extractors read it.
#[derive(Debug)]
pub struct SyntaxNode {
    /// The grammar kind, e.g. `function_declaration`.
    pub kind: String,
    /// Whether the node is named in the grammar (not punctuation or a keyword).
    pub named: bool,
    /// The field name under which the parent holds this node, if any.
    pub field: Option<String>,
    /// Byte offsets of the node in the source.
    pub start_byte: usize,
    pub end_byte: usize,
    /// Start and end positions (zero-based line and byte column).
    pub start: Position,
    pub end: Position,
    /// The source text of the node.
    pub text: String,
    /// Index of the parent node; `None` for the root.
    pub parent: Option<usize>,
    /// Indices of the children, in source order.
    pub children: Vec<usize>,
}

/// Well-formedness of a node arena: node 0 is the root, every node ends no earlier than
/// it starts, every other node has a parent with a smaller index, and every child has a
/// larger index than its parent and records it as parent.
pub open spec fn tree_wf(nodes: Seq<SyntaxNode>) -> bool {
    &&& nodes.len() > 0
    &&& nodes.len() <= usize::MAX
    &&& nodes[0].parent is None
    &&& forall|i: int| 0 <= i < nodes.len() ==> (#[trigger] nodes[i]).start_byte <= nodes[i].end_byte
    &&& forall|i: int| 0 < i < nodes.len() ==> ((#[trigger] nodes[i]).parent matches Some(p) && p < i)
    &&& forall|i: int, k: int| 0 <= i < nodes.len() && 0 <= k < nodes[i].children@.len() ==> {
        let c = #[trigger] nodes[i].children@[k];
        &&& i < c < nodes.len()
        &&& nodes[c as int].parent == Some(i as usize)
    }
}

/// A syntax tree: an arena of nodes rooted at index 0.
pub struct SyntaxTree {
    nodes: Vec<SyntaxNode>,
}

impl View for SyntaxTree {
    type V = Seq<SyntaxNode>;

    closed spec fn view(&self) -> Seq<SyntaxNode> {
        self.nodes@
    }
}

impl SyntaxTree {
    #[verifier::type_invariant]
    spec fn inv(self) -> bool {
        tree_wf(self.nodes@)
    }

    /// Build a tree from an arena of nodes, or `None` if the arena is not well formed.
    pub fn from_nodes(nodes: Vec<SyntaxNode>) -> (r: Option<SyntaxTree>)
        ensures
            match r {
                Some(t) => t@ == nodes@,
                None => !tree_wf(nodes@),
            },
    {
        let n = nodes.len();
        if n == 0 {
            return None;
        }
        if nodes[0].parent.is_some() {
            return None;
        }
        let mut i: usize = 0;
        while i < n
            invariant
                n == nodes@.len(),
                nodes@.len() > 0,
                nodes@[0].parent is None,
                i <= n,
                forall|j: int| 0 <= j < i ==> (#[trigger] nodes@[j]).start_byte <= nodes@[j].end_byte,
                forall|j: int| 0 < j < i ==> ((#[trigger] nodes@[j]).parent matches Some(p) && p < j),
                forall|j: int, k: int| 0 <= j < i && 0 <= k < nodes@[j].children@.len() ==> {
                    let c = #[trigger] nodes@[j].children@[k];
                    &&& j < c < n
                    &&& nodes@[c as int].parent == Some(j as usize)
                },
            decreases n - i,
        {
            if nodes[i].start_byte > nodes[i].end_byte {
                return None;
            }
            if i > 0 {
                match nodes[i].parent {
                    Some(p) => {
                        if p >= i {
                            return None;
                        }
                    },
                    None => {
                        return None;
                    },
                }
            }
            let m = nodes[i].children.len();
            let mut k: usize = 0;
            while k < m
                invariant
                    n == nodes@.len(),
                    i < n,
                    m == nodes@[i as int].children@.len(),
                    k <= m,
                    forall|kk: int| 0 <= kk < k ==> {
                        let c = #[trigger] nodes@[i as int].children@[kk];
                        &&& i < c < n
                        &&& nodes@[c as int].parent == Some(i)
                    },
                decreases m - k,
            {
                let c = nodes[i].children[k];
                if c <= i || c >= n {
                    return None;
                }
                match nodes[c].parent {
                    Some(p) => {
                        if p != i {
                            return None;
                        }
                    },
                    None => {
                        return None;
                    },
                }
                k = k + 1;
            }
            i = i + 1;
        }
        Some(SyntaxTree { nodes })
    }

    /// The number of nodes.
    pub fn len(&self) -> (r: usize)
        ensures
            r == self@.len(),
            tree_wf(self@),
    {
        proof { use_type_invariant(self); }
        self.nodes.len()
    }

    /// The node at index `i`.
    pub fn node(&self, i: usize) -> (r: &SyntaxNode)
        requires
            i < self@.len(),
        ensures
            *r == self@[i as int],
            tree_wf(self@),
    {
        proof { use_type_invariant(self); }
        &self.nodes[i]
    }

    /// The well-formedness of the arena, for callers' proofs.
    pub fn wf(&self)
        ensures
            tree_wf(self@),
    {
        proof { use_type_invariant(self); }
    }
}

/// The range a node spans.
pub open spec fn node_range_spec(n: SyntaxNode) -> Range {
    Range { start: n.start, end: n.end }
}

/// The range a node spans.
pub fn node_range(n: &SyntaxNode) -> (r: Range)
    ensures
        r == node_range_spec(*n),
{
    Range { start: n.start, end: n.end }
}


// ---------------------------------------------------------------------------
// Construction from a tree-sitter tree
// ---------------------------------------------------------------------------

#[verifier::external_type_specification]
#[verifier::external_body]
pub struct ExTsTree(tree_sitter::Tree);

#[verifier::external_type_specification]
#[verifier::external_body]
pub struct ExTsNode<'a>(tree_sitter::Node<'a>);

/// `tree_sitter::Tree::root_node`. Nodes are opaque here: nothing is claimed of it.
#[verifier::external_body]
fn ts_root_node(tree: &tree_sitter::Tree) -> tree_sitter::Node<'_> {
    tree.root_node()
}

/// `tree_sitter::Node::descendant_count`: the number of nodes in the subtree, the node
/// included. Nothing is claimed of it; the conversion only uses it to bound its walk.
#[verifier::external_body]
fn ts_descendant_count(node: &tree_sitter::Node) -> usize {
    node.descendant_count()
}

/// `tree_sitter::Node::kind`, copied into a `String`. The node is opaque here, so nothing
/// is claimed of the result.
#[verifier::external_body]
pub(crate) fn ts_kind(node: &tree_sitter::Node) -> String {
    node.kind().to_string()
}

/// `tree_sitter::Node::is_named`. Nothing is claimed of the result.
#[verifier::external_body]
fn ts_is_named(node: &tree_sitter::Node) -> bool {
    node.is_named()
}

/// `tree_sitter::Node::start_byte`. Nothing is claimed of the result; the conversion
/// checks what it relies on.
#[verifier::external_body]
pub(crate) fn ts_start_byte(node: &tree_sitter::Node) -> usize {
    node.start_byte()
}

/// `tree_sitter::Node::end_byte`. Nothing is claimed of the result; the conversion checks
/// what it relies on.
#[verifier::external_body]
pub(crate) fn ts_end_byte(node: &tree_sitter::Node) -> usize {
    node.end_byte()
}

/// `tree_sitter::Node::start_position`, as (row, column). Nothing is claimed of it.
#[verifier::external_body]
pub(crate) fn ts_start_position(node: &tree_sitter::Node) -> (usize, usize) {
    let p = node.start_position();
    (p.row, p.column)
}

/// `tree_sitter::Node::end_position`, as (row, column). Nothing is claimed of it.
#[verifier::external_body]
pub(crate) fn ts_end_position(node: &tree_sitter::Node) -> (usize, usize) {
    let p = node.end_position();
    (p.row, p.column)
}

/// `tree_sitter::Node::child_count`. Nothing is claimed of the result.
#[verifier::external_body]
fn ts_child_count(node: &tree_sitter::Node) -> u32 {
    node.child_count()
}

/// `tree_sitter::Node::child`. Nothing is claimed of the result.
#[verifier::external_body]
fn ts_child<'a>(node: &tree_sitter::Node<'a>, i: u32) -> Option<tree_sitter::Node<'a>> {
    node.child(i)
}

/// `tree_sitter::Node::field_name_for_child`, copied into a `String`. Nothing is claimed
/// of the result.
#[verifier::external_body]
fn ts_field_name_for_child(node: &tree_sitter::Node, i: u32) -> Option<String> {
    node.field_name_for_child(i).map(|s| s.to_string())
}

/// The text of `source` between two byte offsets, or the empty text when the offsets
/// are out of order, out of bounds or not on character boundaries.
pub open spec fn source_slice(source: Seq<u8>, start: int, end: int) -> Seq<u8> {
    if 0 <= start <= end <= source.len() && vstd::utf8::is_char_boundary(source, start)
        && vstd::utf8::is_char_boundary(source, end) {
        source.subrange(start, end)
    } else {
        Seq::empty()
    }
}

/// The text of `source` between two byte offsets (see `source_slice`).
pub fn slice_source(source: &str, start: usize, end: usize) -> (r: String)
    ensures
        vstd::utf8::encode_utf8(r@) == source_slice(source.spec_bytes(), start as int, end as int),
{
    broadcast use vstd::utf8::group_utf8_lib;
    let n = source.as_bytes().len();
    if start <= end && end <= n && source.is_char_boundary(start) && source.is_char_boundary(end) {
        let (_a, rest) = source.split_at(start);
        proof {
            vstd::utf8::valid_utf8_split(source.spec_bytes(), start as int);
        }
        assert(rest.spec_bytes() =~= source.spec_bytes().subrange(start as int, n as int));
        assert(vstd::utf8::is_char_boundary(rest.spec_bytes(), end - start)) by {
            lemma_char_boundary_shift(source.spec_bytes(), start as int, end as int);
        }
        let (mid, _b) = rest.split_at(end - start);
        assert(mid.spec_bytes() =~= source.spec_bytes().subrange(start as int, end as int));
        mid.to_owned()
    } else {
        String::new()
    }
}

proof fn lemma_char_boundary_shift(b: Seq<u8>, start: int, end: int)
    requires
        vstd::utf8::valid_utf8(b),
        0 <= start <= end <= b.len(),
        vstd::utf8::is_char_boundary(b, start),
        vstd::utf8::is_char_boundary(b, end),
    ensures
        vstd::utf8::is_char_boundary(b.subrange(start, b.len() as int), end - start),
{
    broadcast use vstd::utf8::group_utf8_lib;
    let rest = b.subrange(start, b.len() as int);
    vstd::utf8::valid_utf8_split(b, start);
    if end == b.len() {
        vstd::utf8::is_char_boundary_start_end_of_seq(rest);
    } else if end == start {
        vstd::utf8::is_char_boundary_start_end_of_seq(rest);
    } else {
        vstd::utf8::is_char_boundary_iff_not_is_continuation_byte(b, end);
        vstd::utf8::is_char_boundary_iff_not_is_continuation_byte(rest, end - start);
        assert(rest[end - start] == b[end]);
    }
}

/// Every node's text is the source between its byte offsets.
pub open spec fn texts_match_source(nodes: Seq<SyntaxNode>, source: Seq<u8>) -> bool {
    forall|i: int| 0 <= i < nodes.len() ==> vstd::utf8::encode_utf8((#[trigger] nodes[i]).text@)
        == source_slice(source, nodes[i].start_byte as int, nodes[i].end_byte as int)
}

pub(crate) fn to_u32_pos(row: usize, col: usize) -> (r: Position)
    ensures
        r.line as int == (if row <= u32::MAX { row as int } else { u32::MAX as int }),
        r.character as int == (if col <= u32::MAX { col as int } else { u32::MAX as int }),
{
    let line: u32 = if row <= u32::MAX as usize { row as u32 } else { u32::MAX };
    let character: u32 = if col <= u32::MAX as usize { col as u32 } else { u32::MAX };
    Position { line, character }
}

/// Convert a tree-sitter tree into a syntax tree, in pre-order with children in source
/// order. Every node's text is the source between the node's byte offsets. It gives
/// `None` when the walk meets more nodes than the root's descendant count, or when the
/// nodes tree-sitter reports do not form a well-formed tree (`SyntaxTree::from_nodes`
/// decides that exactly). What tree-sitter reports is not stated, so success is not
/// promised here.
pub fn from_tree_sitter(tree: &tree_sitter::Tree, source: &str) -> (r: Option<SyntaxTree>)
    ensures
        r matches Some(t) ==> texts_match_source(t@, source.spec_bytes()),
{
    let root = ts_root_node(tree);
    let budget = ts_descendant_count(&root);
    let mut nodes: Vec<SyntaxNode> = Vec::new();
    let mut stack: Vec<(tree_sitter::Node, Option<usize>, Option<String>)> = Vec::new();
    stack.push((root, None, None));
    while stack.len() > 0 && nodes.len() < budget
        invariant
            nodes@.len() <= budget,
            texts_match_source(nodes@, source.spec_bytes()),
            forall|j: int| 0 <= j < stack@.len() ==> ((#[trigger] stack@[j]).1 matches Some(p)
                ==> p < nodes@.len()),
        decreases budget - nodes@.len(),
    {
        let (node, parent, field) = stack.pop().unwrap();
        let idx = nodes.len();
        let start_byte = ts_start_byte(&node);
        let end_byte = ts_end_byte(&node);
        let (sr, sc) = ts_start_position(&node);
        let (er, ec) = ts_end_position(&node);
        let text = slice_source(source, start_byte, end_byte);
        let sn = SyntaxNode {
            kind: ts_kind(&node),
            named: ts_is_named(&node),
            field,
            start_byte,
            end_byte,
            start: to_u32_pos(sr, sc),
            end: to_u32_pos(er, ec),
            text,
            parent,
            children: Vec::new(),
        };
        nodes.push(sn);
        if let Some(p) = parent {
            nodes[p].children.push(idx);
        }
        let count = ts_child_count(&node);
        let mut k: u32 = count;
        while k > 0
            invariant
                idx < nodes@.len(),
                k <= count,
                forall|j: int| 0 <= j < stack@.len() ==> ((#[trigger] stack@[j]).1 matches Some(p)
                    ==> p < nodes@.len()),
            decreases k,
        {
            k = k - 1;
            if let Some(c) = ts_child(&node, k) {
                let f = ts_field_name_for_child(&node, k);
                stack.push((c, Some(idx), f));
            }
        }
    }
    if stack.len() > 0 {
        return None;
    }
    SyntaxTree::from_nodes(nodes)
}


// ---------------------------------------------------------------------------
// Specifications of tree walks
// ---------------------------------------------------------------------------

/// The `k`-th child of node `i`.
pub open spec fn child_of(t: Seq<SyntaxNode>, i: int, k: int) -> int {
    t[i].children@[k] as int
}

/// The number of children of node `i`.
pub open spec fn child_count_of(t: Seq<SyntaxNode>, i: int) -> int {
    t[i].children@.len() as int
}

/// What a pre-order walk from node `i` yields when every node contributes `item(node)`
/// and the walk enters the children of a node only when `descend(node)` holds.
pub open spec fn walk<A>(
    t: Seq<SyntaxNode>,
    i: int,
    item: spec_fn(int) -> Seq<A>,
    descend: spec_fn(int) -> bool,
) -> Seq<A>
    decreases t.len() - i, 1nat, 0nat,
{
    if 0 <= i < t.len() {
        if descend(i) {
            item(i) + walk_children(t, i, child_count_of(t, i), item, descend)
        } else {
            item(i)
        }
    } else {
        Seq::empty()
    }
}

/// What the walk yields from the first `k` children of node `i`, in order.
pub open spec fn walk_children<A>(
    t: Seq<SyntaxNode>,
    i: int,
    k: int,
    item: spec_fn(int) -> Seq<A>,
    descend: spec_fn(int) -> bool,
) -> Seq<A>
    decreases t.len() - i, 0nat, k,
{
    if 0 <= i < t.len() && 0 < k <= child_count_of(t, i) && i < child_of(t, i, k - 1) < t.len() {
        walk_children(t, i, k - 1, item, descend) + walk(t, child_of(t, i, k - 1), item, descend)
    } else {
        Seq::empty()
    }
}

/// `s` cut to at most `max` elements.
pub open spec fn cap<A>(s: Seq<A>, max: int) -> Seq<A> {
    if s.len() <= max { s } else { s.take(max) }
}

/// Capping twice is capping once.
pub proof fn lemma_cap_append<A>(x: Seq<A>, y: Seq<A>, m: int)
    requires
        0 <= m,
    ensures
        cap(cap(x, m) + y, m) == cap(x + y, m),
{
    if x.len() <= m {
    } else {
        assert(cap(x, m) + y == x.take(m) + y);
        assert((x.take(m) + y).take(m) =~= x.take(m));
        assert((x + y).take(m) =~= x.take(m));
    }
}

/// A full sequence is unchanged by appending and capping.
pub proof fn lemma_cap_full<A>(x: Seq<A>, y: Seq<A>, m: int)
    requires
        0 <= m <= x.len(),
        cap(x, m) == x,
    ensures
        cap(x + y, m) == x,
{
    assert((x + y).take(m) =~= x);
}

/// The first child of node `i` held under field `name`, as tree-sitter's
/// `child_by_field_name` finds it.
pub open spec fn field_child(t: Seq<SyntaxNode>, i: int, name: Seq<char>) -> Option<int> {
    field_child_from(t, i, 0, name)
}

/// Whether node `c` is held under field `name`.
pub open spec fn has_field(t: Seq<SyntaxNode>, c: int, name: Seq<char>) -> bool {
    t[c].field matches Some(f) && f@ == name
}

/// The first child of node `i`, from position `k` on, held under field `name`.
pub open spec fn field_child_from(t: Seq<SyntaxNode>, i: int, k: int, name: Seq<char>) -> Option<int>
    decreases child_count_of(t, i) - k,
{
    if 0 <= k < child_count_of(t, i) {
        if has_field(t, child_of(t, i, k), name) {
            Some(child_of(t, i, k))
        } else {
            field_child_from(t, i, k + 1, name)
        }
    } else {
        None
    }
}

/// The first child of node `i`, from position `k` on, that satisfies `p`.
pub open spec fn first_child_from(t: Seq<SyntaxNode>, i: int, k: int, p: spec_fn(int) -> bool) -> Option<int>
    decreases child_count_of(t, i) - k,
{
    if 0 <= k < child_count_of(t, i) {
        if p(child_of(t, i, k)) {
            Some(child_of(t, i, k))
        } else {
            first_child_from(t, i, k + 1, p)
        }
    } else {
        None
    }
}

/// The nearest strict ancestor of node `i` that satisfies `p`.
pub open spec fn first_ancestor(t: Seq<SyntaxNode>, i: int, p: spec_fn(int) -> bool) -> Option<int>
    decreases i,
{
    if 0 <= i < t.len() {
        match t[i].parent {
            Some(q) => if (q as int) < i {
                if p(q as int) { Some(q as int) } else { first_ancestor(t, q as int, p) }
            } else {
                None
            },
            None => None,
        }
    } else {
        None
    }
}

/// Whether node `n`'s kind is one of `ks`, as a predicate.
pub open spec fn kind_among(t: Seq<SyntaxNode>, ks: Seq<&str>) -> spec_fn(int) -> bool {
    |n: int| kind_in(t, n, ks)
}

/// The nearest strict ancestor of node `i` whose kind is one of `ks`.
pub fn ancestor_with_kind_in(t: &SyntaxTree, i: usize, ks: &[&str]) -> (r: Option<usize>)
    requires
        i < t@.len(),
    ensures
        match r {
            Some(p) => first_ancestor(t@, i as int, kind_among(t@, ks@)) == Some(p as int) && p < t@.len(),
            None => first_ancestor(t@, i as int, kind_among(t@, ks@)) is None,
        },
{
    t.wf();
    let ghost pred = kind_among(t@, ks@);
    let mut cur = i;
    loop
        invariant
            cur < t@.len(),
            tree_wf(t@),
            pred == kind_among(t@, ks@),
            first_ancestor(t@, i as int, pred) == first_ancestor(t@, cur as int, pred),
        decreases cur,
    {
        match parent_of(t, cur) {
            None => {
                return None;
            },
            Some(p) => {
                if has_kind_in(t, p, ks) {
                    return Some(p);
                }
                cur = p;
            },
        }
    }
}

/// Whether node `i` has the given kind.
pub open spec fn kind_is(t: Seq<SyntaxNode>, i: int, k: Seq<char>) -> bool {
    t[i].kind@ == k
}

/// Whether node `i`'s kind is `k`.
pub fn has_kind(t: &SyntaxTree, i: usize, k: &str) -> (r: bool)
    requires
        i < t@.len(),
    ensures
        r == kind_is(t@, i as int, k@),
{
    crate::text::str_eq(t.node(i).kind.as_str(), k)
}

/// The first child of node `i` held under field `name`.
pub fn child_by_field(t: &SyntaxTree, i: usize, name: &str) -> (r: Option<usize>)
    requires
        i < t@.len(),
    ensures
        match r {
            Some(c) => field_child(t@, i as int, name@) == Some(c as int) && i < c < t@.len(),
            None => field_child(t@, i as int, name@) is None,
        },
{
    let node = t.node(i);
    let n = node.children.len();
    let mut k: usize = 0;
    while k < n
        invariant
            node == t@[i as int],
            tree_wf(t@),
            i < t@.len(),
            n == child_count_of(t@, i as int),
            k <= n,
            field_child(t@, i as int, name@) == field_child_from(t@, i as int, k as int, name@),
        decreases n - k,
    {
        let c = node.children[k];
        assert(child_of(t@, i as int, k as int) == c);
        let hit = match &t.node(c).field {
            Some(f) => crate::text::str_eq(f.as_str(), name),
            None => false,
        };
        if hit {
            return Some(c);
        }
        k = k + 1;
    }
    None
}


/// Whether node `c`'s kind is one of `ks`.
pub open spec fn kind_in(t: Seq<SyntaxNode>, c: int, ks: Seq<&str>) -> bool {
    exists|j: int| 0 <= j < ks.len() && t[c].kind@ == (#[trigger] ks[j])@
}

/// Whether a kind is one of `ks`.
pub open spec fn text_in(k: Seq<char>, ks: Seq<&str>) -> bool {
    exists|j: int| 0 <= j < ks.len() && k == (#[trigger] ks[j])@
}

/// Whether `k` is one of the texts `ks`.
pub fn str_in(k: &str, ks: &[&str]) -> (r: bool)
    ensures
        r == text_in(k@, ks@),
{
    let mut j: usize = 0;
    while j < ks.len()
        invariant
            j <= ks@.len(),
            forall|jj: int| 0 <= jj < j ==> k@ != (#[trigger] ks@[jj])@,
        decreases ks@.len() - j,
    {
        if crate::text::str_eq(k, ks[j]) {
            return true;
        }
        j = j + 1;
    }
    false
}

/// Whether node `i`'s kind is one of `ks`.
pub fn has_kind_in(t: &SyntaxTree, i: usize, ks: &[&str]) -> (r: bool)
    requires
        i < t@.len(),
    ensures
        r == kind_in(t@, i as int, ks@),
{
    str_in(t.node(i).kind.as_str(), ks)
}

/// The first child of node `i`, from position `k` on, whose kind is one of `ks`.
pub open spec fn kind_child_from(t: Seq<SyntaxNode>, i: int, k: int, ks: Seq<&str>) -> Option<int>
    decreases child_count_of(t, i) - k,
{
    if 0 <= k < child_count_of(t, i) {
        if kind_in(t, child_of(t, i, k), ks) {
            Some(child_of(t, i, k))
        } else {
            kind_child_from(t, i, k + 1, ks)
        }
    } else {
        None
    }
}

/// The first child of node `i` whose kind is one of `ks`.
pub fn child_with_kind_in(t: &SyntaxTree, i: usize, ks: &[&str]) -> (r: Option<usize>)
    requires
        i < t@.len(),
    ensures
        match r {
            Some(c) => kind_child_from(t@, i as int, 0, ks@) == Some(c as int) && i < c < t@.len(),
            None => kind_child_from(t@, i as int, 0, ks@) is None,
        },
{
    let node = t.node(i);
    let n = node.children.len();
    let mut k: usize = 0;
    while k < n
        invariant
            node == t@[i as int],
            tree_wf(t@),
            i < t@.len(),
            n == child_count_of(t@, i as int),
            k <= n,
            kind_child_from(t@, i as int, 0, ks@) == kind_child_from(t@, i as int, k as int, ks@),
        decreases n - k,
    {
        let c = node.children[k];
        if has_kind_in(t, c, ks) {
            return Some(c);
        }
        k = k + 1;
    }
    None
}

/// The first named child of node `i`, from position `k` on.
pub open spec fn named_child_from(t: Seq<SyntaxNode>, i: int, k: int) -> Option<int>
    decreases child_count_of(t, i) - k,
{
    if 0 <= k < child_count_of(t, i) {
        if t[child_of(t, i, k)].named {
            Some(child_of(t, i, k))
        } else {
            named_child_from(t, i, k + 1)
        }
    } else {
        None
    }
}

/// The first named child of node `i`.
pub fn first_named_child(t: &SyntaxTree, i: usize) -> (r: Option<usize>)
    requires
        i < t@.len(),
    ensures
        match r {
            Some(c) => named_child_from(t@, i as int, 0) == Some(c as int) && i < c < t@.len(),
            None => named_child_from(t@, i as int, 0) is None,
        },
{
    let node = t.node(i);
    let n = node.children.len();
    let mut k: usize = 0;
    while k < n
        invariant
            node == t@[i as int],
            tree_wf(t@),
            i < t@.len(),
            n == child_count_of(t@, i as int),
            k <= n,
            named_child_from(t@, i as int, 0) == named_child_from(t@, i as int, k as int),
        decreases n - k,
    {
        let c = node.children[k];
        if t.node(c).named {
            return Some(c);
        }
        k = k + 1;
    }
    None
}

/// The `m`-th named child (counting from 0) of node `i`, among its children from
/// position `k` on.
pub open spec fn named_child_at(t: Seq<SyntaxNode>, i: int, k: int, m: int) -> Option<int>
    decreases child_count_of(t, i) - k,
{
    if 0 <= k < child_count_of(t, i) {
        if t[child_of(t, i, k)].named {
            if m == 0 { Some(child_of(t, i, k)) } else { named_child_at(t, i, k + 1, m - 1) }
        } else {
            named_child_at(t, i, k + 1, m)
        }
    } else {
        None
    }
}

/// The `m`-th named child (counting from 0) of node `i`.
pub fn nth_named_child(t: &SyntaxTree, i: usize, m: usize) -> (r: Option<usize>)
    requires
        i < t@.len(),
    ensures
        match r {
            Some(c) => named_child_at(t@, i as int, 0, m as int) == Some(c as int) && i < c < t@.len(),
            None => named_child_at(t@, i as int, 0, m as int) is None,
        },
{
    let node = t.node(i);
    let n = node.children.len();
    let mut left: usize = m;
    let mut k: usize = 0;
    while k < n
        invariant
            node == t@[i as int],
            tree_wf(t@),
            i < t@.len(),
            n == child_count_of(t@, i as int),
            k <= n,
            left <= m,
            named_child_at(t@, i as int, 0, m as int) == named_child_at(t@, i as int, k as int, left as int),
        decreases n - k,
    {
        let c = node.children[k];
        if t.node(c).named {
            if left == 0 {
                return Some(c);
            }
            left = left - 1;
        }
        k = k + 1;
    }
    None
}

/// The texts of the named children among the first `k` children of node `i`.
pub open spec fn named_child_texts(t: Seq<SyntaxNode>, i: int, k: int) -> Seq<Seq<char>>
    decreases k,
{
    if 0 < k <= child_count_of(t, i) {
        let c = child_of(t, i, k - 1);
        if t[c].named {
            named_child_texts(t, i, k - 1).push(t[c].text@)
        } else {
            named_child_texts(t, i, k - 1)
        }
    } else {
        Seq::empty()
    }
}

/// The texts of the named children of node `i`, in order.
pub fn collect_named_child_texts(t: &SyntaxTree, i: usize) -> (r: Vec<String>)
    requires
        i < t@.len(),
    ensures
        crate::shared::texts(r@) == named_child_texts(t@, i as int, child_count_of(t@, i as int)),
{
    let node = t.node(i);
    let n = node.children.len();
    let mut out: Vec<String> = Vec::new();
    let mut k: usize = 0;
    while k < n
        invariant
            node == t@[i as int],
            tree_wf(t@),
            i < t@.len(),
            n == child_count_of(t@, i as int),
            k <= n,
            crate::shared::texts(out@) == named_child_texts(t@, i as int, k as int),
        decreases n - k,
    {
        let c = node.children[k];
        let ghost before = out@;
        if t.node(c).named {
            out.push(t.node(c).text.clone());
            assert(crate::shared::texts(out@) =~= crate::shared::texts(before).push(t@[c as int].text@));
        }
        k = k + 1;
    }
    out
}

/// The parent of node `i`, which has a smaller index.
pub fn parent_of(t: &SyntaxTree, i: usize) -> (r: Option<usize>)
    requires
        i < t@.len(),
    ensures
        r == t@[i as int].parent,
        r matches Some(p) ==> p < i,
        r is None ==> i == 0,
{
    t.wf();
    t.node(i).parent
}


/// The walk that enters every node.
pub open spec fn every_node() -> spec_fn(int) -> bool {
    |n: int| true
}

/// An optional item as a sequence of zero or one items.
pub open spec fn opt_seq<A>(o: Option<A>) -> Seq<A> {
    match o {
        Some(a) => seq![a],
        None => Seq::empty(),
    }
}

/// One step of a capped collection: capping after each part equals capping the whole.
pub proof fn lemma_cap_step<A>(old: Seq<A>, a: Seq<A>, b: Seq<A>, m: int)
    requires
        0 <= m,
    ensures
        cap(cap(old + a, m) + b, m) == cap(old + (a + b), m),
{
    lemma_cap_append(old + a, b, m);
    assert(old + a + b =~= old + (a + b));
}

/// The walk of a node splits into its item and the walks of its children.
pub proof fn lemma_walk_unfold<A>(t: Seq<SyntaxNode>, i: int, item: spec_fn(int) -> Seq<A>, descend: spec_fn(int) -> bool)
    requires
        0 <= i < t.len(),
    ensures
        walk(t, i, item, descend) == (if descend(i) {
            item(i) + walk_children(t, i, child_count_of(t, i), item, descend)
        } else {
            item(i)
        }),
{
}

/// Appending one more child to the walk of the first `k` children.
pub proof fn lemma_walk_children_step<A>(t: Seq<SyntaxNode>, i: int, k: int, item: spec_fn(int) -> Seq<A>, descend: spec_fn(int) -> bool)
    requires
        tree_wf(t),
        0 <= i < t.len(),
        0 <= k < child_count_of(t, i),
    ensures
        walk_children(t, i, k + 1, item, descend)
            == walk_children(t, i, k, item, descend) + walk(t, child_of(t, i, k), item, descend),
{
    let c = t[i].children@[k];
    assert(i < c < t.len());
}

} // verus!
