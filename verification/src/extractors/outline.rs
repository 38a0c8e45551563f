//! File outlines: the significant nodes of a file, as a tree of kinds and names and as
//! indented text.
use vstd::prelude::*;

use super::OutlineCandidate;
use crate::config::defaults::MAX_NODES;
use crate::shared::{LanguageId, Range, language_name, opt_text};
use crate::syntax::{
    SyntaxNode, SyntaxTree, child_by_field, child_count_of, child_of, field_child, has_kind,
    kind_is, node_range, node_range_spec, str_in, text_in, tree_wf,
};
use crate::text::{concat2, str_eq};

verus! {

/// A node of a file outline.
#[derive(Debug)]
pub struct OutlineNode {
    pub kind: String,
    pub name: Option<String>,
    pub range: Option<Range>,
    pub children: Option<Vec<OutlineNode>>,
}

/// Options of an outline.
#[derive(Debug, Clone, Copy)]
pub struct OutlineOptions {
    /// How deep to descend.
    pub max_depth: usize,
    /// Whether nodes carry their ranges.
    pub include_ranges: bool,
    /// Whether import statements are kept.
    pub include_imports: bool,
    /// Whether export statements are kept.
    pub include_exports: bool,
}

impl Default for OutlineOptions {
    fn default() -> (r: Self)
        ensures
            r.max_depth == 4,
            r.include_ranges,
            !r.include_imports,
            !r.include_exports,
    {
        OutlineOptions { max_depth: 4, include_ranges: true, include_imports: false, include_exports: false }
    }
}

/// The outline of a file.
#[derive(Debug)]
pub struct AstFileOutlineResult {
    pub file_path: String,
    pub language: String,
    pub outline_text: String,
    pub nodes: Vec<OutlineNode>,
    pub truncated: bool,
}

// ---------------------------------------------------------------------------
// Names
// ---------------------------------------------------------------------------

/// Kinds of identifier-like nodes that name a declaration.
pub open spec fn name_ident_kinds() -> Seq<&'static str> {
    seq!["identifier", "property_identifier", "shorthand_property_identifier", "statement_identifier"]
}

/// The name of node `n`: the first named child that is identifier-like, or that has a
/// name of its own (searched in depth).
pub open spec fn node_name(t: Seq<SyntaxNode>, n: int) -> Option<Seq<char>>
    decreases t.len() - n, 1nat, 0int,
{
    if 0 <= n < t.len() { node_name_from(t, n, 0) } else { None }
}

/// The name found among the children of node `n` from position `k` on.
pub open spec fn node_name_from(t: Seq<SyntaxNode>, n: int, k: int) -> Option<Seq<char>>
    decreases t.len() - n, 0nat, child_count_of(t, n) - k,
{
    if 0 <= n < t.len() && 0 <= k < child_count_of(t, n) && n < child_of(t, n, k) < t.len() {
        let c = child_of(t, n, k);
        if t[c].named && text_in(t[c].kind@, name_ident_kinds()) {
            Some(t[c].text@)
        } else if t[c].named && node_name(t, c) is Some {
            node_name(t, c)
        } else {
            node_name_from(t, n, k + 1)
        }
    } else {
        None
    }
}

/// The name of a node, searched in depth among its named children.
pub fn extract_node_name(t: &SyntaxTree, n: usize) -> (r: Option<String>)
    requires
        n < t@.len(),
    ensures
        opt_text(r) == node_name(t@, n as int),
    decreases t@.len() - n,
{
    t.wf();
    let ks: &[&str] = &["identifier", "property_identifier", "shorthand_property_identifier", "statement_identifier"];
    assert(ks@ =~= name_ident_kinds());
    let node = t.node(n);
    let m = node.children.len();
    let mut k: usize = 0;
    while k < m
        invariant
            tree_wf(t@),
            n < t@.len(),
            node == t@[n as int],
            m == child_count_of(t@, n as int),
            k <= m,
            ks@ == name_ident_kinds(),
            node_name(t@, n as int) == node_name_from(t@, n as int, k as int),
        decreases m - k,
    {
        let c = node.children[k];
        assert(c as int == child_of(t@, n as int, k as int));
        let cn = t.node(c);
        if cn.named {
            if str_in(cn.kind.as_str(), ks) {
                return Some(cn.text.clone());
            }
            let found = extract_node_name(t, c);
            if found.is_some() {
                return found;
            }
        }
        k = k + 1;
    }
    None
}

/// Whether a kind is a string or a string fragment.
pub open spec fn is_string_kind(t: Seq<SyntaxNode>, c: int) -> bool {
    kind_is(t, c, "string"@) || kind_is(t, c, "string_fragment"@)
}

/// The first pass over an import's children from position `k` on: a string gives its
/// text, an import clause its name; `import` keywords and other children are passed.
pub open spec fn import_first_pass(t: Seq<SyntaxNode>, n: int, k: int) -> Option<Seq<char>>
    decreases child_count_of(t, n) - k,
{
    if 0 <= k < child_count_of(t, n) {
        let c = child_of(t, n, k);
        if kind_is(t, c, "import"@) {
            import_first_pass(t, n, k + 1)
        } else if is_string_kind(t, c) {
            Some(t[c].text@)
        } else if kind_is(t, c, "import_clause"@) && node_name(t, c) is Some {
            node_name(t, c)
        } else {
            import_first_pass(t, n, k + 1)
        }
    } else {
        None
    }
}

/// The second pass: the first string, string fragment or dotted name child.
pub open spec fn import_second_pass(t: Seq<SyntaxNode>, n: int, k: int) -> Option<Seq<char>>
    decreases child_count_of(t, n) - k,
{
    if 0 <= k < child_count_of(t, n) {
        let c = child_of(t, n, k);
        if is_string_kind(t, c) || kind_is(t, c, "dotted_name"@) {
            Some(t[c].text@)
        } else {
            import_second_pass(t, n, k + 1)
        }
    } else {
        None
    }
}

/// The name of import node `n`: from the first pass, else the second, else its name.
pub open spec fn import_name(t: Seq<SyntaxNode>, n: int) -> Option<Seq<char>> {
    match import_first_pass(t, n, 0) {
        Some(x) => Some(x),
        None => match import_second_pass(t, n, 0) {
            Some(x) => Some(x),
            None => node_name(t, n),
        },
    }
}

fn extract_import_name(t: &SyntaxTree, n: usize) -> (r: Option<String>)
    requires
        n < t@.len(),
    ensures
        opt_text(r) == import_name(t@, n as int),
{
    t.wf();
    let node = t.node(n);
    let m = node.children.len();
    let mut k: usize = 0;
    while k < m
        invariant
            tree_wf(t@),
            n < t@.len(),
            node == t@[n as int],
            m == child_count_of(t@, n as int),
            k <= m,
            import_first_pass(t@, n as int, 0) == import_first_pass(t@, n as int, k as int),
        decreases m - k,
    {
        let c = node.children[k];
        assert(c as int == child_of(t@, n as int, k as int));
        if has_kind(t, c, "import") {
        } else if has_kind(t, c, "string") || has_kind(t, c, "string_fragment") {
            return Some(t.node(c).text.clone());
        } else if has_kind(t, c, "import_clause") {
            let found = extract_node_name(t, c);
            if found.is_some() {
                return found;
            }
        }
        k = k + 1;
    }
    let mut k: usize = 0;
    while k < m
        invariant
            tree_wf(t@),
            n < t@.len(),
            node == t@[n as int],
            m == child_count_of(t@, n as int),
            k <= m,
            import_first_pass(t@, n as int, 0) is None,
            import_second_pass(t@, n as int, 0) == import_second_pass(t@, n as int, k as int),
        decreases m - k,
    {
        let c = node.children[k];
        assert(c as int == child_of(t@, n as int, k as int));
        if has_kind(t, c, "string") || has_kind(t, c, "string_fragment") || has_kind(t, c, "dotted_name") {
            return Some(t.node(c).text.clone());
        }
        k = k + 1;
    }
    extract_node_name(t, n)
}

/// Whether a kind is an import statement.
pub open spec fn import_kind(k: Seq<char>) -> bool {
    k == "import_statement"@ || k == "import_from_statement"@
}

/// Whether a kind is an import statement.
pub fn is_import_kind(kind: &str) -> (r: bool)
    ensures
        r == import_kind(kind@),
{
    str_eq(kind, "import_statement") || str_eq(kind, "import_from_statement")
}

/// Whether a kind is an export statement.
pub fn is_export_kind(kind: &str) -> (r: bool)
    ensures
        r == (kind@ == "export_statement"@),
{
    str_eq(kind, "export_statement")
}

// ---------------------------------------------------------------------------
// Candidates
// ---------------------------------------------------------------------------

/// `c` is the candidate for node `n`: its kind, its name (an import's module, else its
/// name), its range, and no children.
pub open spec fn is_candidate_for(t: Seq<SyntaxNode>, n: int, c: OutlineCandidate) -> bool {
    &&& c.kind@ == t[n].kind@
    &&& opt_text(c.name) == (if import_kind(t[n].kind@) { import_name(t, n) } else { node_name(t, n) })
    &&& c.range == node_range_spec(t[n])
    &&& c.children@.len() == 0
}

/// The outline candidate for node `n`.
pub fn make_candidate(t: &SyntaxTree, n: usize) -> (r: OutlineCandidate)
    requires
        n < t@.len(),
    ensures
        is_candidate_for(t@, n as int, r),
{
    let node = t.node(n);
    let kind = node.kind.clone();
    let name = if is_import_kind(kind.as_str()) { extract_import_name(t, n) } else { extract_node_name(t, n) };
    OutlineCandidate { kind, name, range: node_range(node), children: Vec::new() }
}

/// The node a named child `c` stands for among candidates: a decorated definition stands
/// for its `definition`; `None` when that field is missing.
pub open spec fn candidate_node(t: Seq<SyntaxNode>, c: int) -> Option<int> {
    if kind_is(t, c, "decorated_definition"@) { field_child(t, c, "definition"@) } else { Some(c) }
}

/// The significant nodes among the first `k` children of `parent`, in order: named
/// children (decorated definitions unwrapped) whose kind is one of `kinds`.
pub open spec fn significant_upto(t: Seq<SyntaxNode>, parent: int, k: int, kinds: Seq<&str>) -> Seq<int>
    decreases k,
{
    if k <= 0 {
        Seq::empty()
    } else {
        let c = child_of(t, parent, k - 1);
        significant_upto(t, parent, k - 1, kinds) + match candidate_node(t, c) {
            Some(x) => if t[c].named && text_in(t[x].kind@, kinds) { seq![x] } else { Seq::empty() },
            None => Seq::empty(),
        }
    }
}

/// The candidates of the significant children of `parent`, whose kinds are those in
/// `kinds`, at most `MAX_NODES` of them.
pub fn collect_candidates(t: &SyntaxTree, parent: usize, kinds: &[&str]) -> (r: Vec<OutlineCandidate>)
    requires
        parent < t@.len(),
    ensures
        ({
            let sig = significant_upto(t@, parent as int, child_count_of(t@, parent as int), kinds@);
            &&& r@.len() == (if sig.len() <= MAX_NODES { sig.len() } else { MAX_NODES as nat })
            &&& forall|j: int| 0 <= j < r@.len() ==> is_candidate_for(t@, sig[j], #[trigger] r@[j])
        }),
{
    t.wf();
    let node = t.node(parent);
    let m = node.children.len();
    let mut out: Vec<OutlineCandidate> = Vec::new();
    let mut k: usize = 0;
    while k < m
        invariant
            tree_wf(t@),
            parent < t@.len(),
            node == t@[parent as int],
            m == child_count_of(t@, parent as int),
            k <= m,
            out@.len() <= MAX_NODES,
            out@.len() == significant_upto(t@, parent as int, k as int, kinds@).len(),
            forall|j: int| 0 <= j < out@.len() ==> is_candidate_for(t@, significant_upto(t@, parent as int, k as int, kinds@)[j], #[trigger] out@[j]),
        ensures
            ({
                let sig = significant_upto(t@, parent as int, m as int, kinds@);
                &&& out@.len() == (if sig.len() <= MAX_NODES { sig.len() } else { MAX_NODES as nat })
                &&& forall|j: int| 0 <= j < out@.len() ==> is_candidate_for(t@, sig[j], #[trigger] out@[j])
            }),
        decreases m - k,
    {
        if out.len() >= MAX_NODES {
            proof { lemma_significant_prefix(t@, parent as int, k as int, m as int, kinds@); }
            break;
        }
        let c = node.children[k];
        assert(c as int == child_of(t@, parent as int, k as int));
        let ghost prev = significant_upto(t@, parent as int, k as int, kinds@);
        if t.node(c).named {
            if has_kind(t, c, "decorated_definition") {
                if let Some(inner) = child_by_field(t, c, "definition") {
                    if str_in(t.node(inner).kind.as_str(), kinds) {
                        out.push(make_candidate(t, inner));
                    }
                }
            } else if str_in(t.node(c).kind.as_str(), kinds) {
                out.push(make_candidate(t, c));
            }
        }
        proof {
            let next = significant_upto(t@, parent as int, k + 1, kinds@);
            assert(next.len() == out@.len());
            assert forall|j: int| 0 <= j < out@.len() implies is_candidate_for(t@, next[j], #[trigger] out@[j]) by {
                if j < prev.len() {
                    assert(next[j] == prev[j]);
                }
            }
        }
        k = k + 1;
    }
    out
}

proof fn lemma_significant_prefix(t: Seq<SyntaxNode>, parent: int, k: int, m: int, kinds: Seq<&str>)
    requires
        0 <= k <= m,
    ensures
        significant_upto(t, parent, m, kinds).len() >= significant_upto(t, parent, k, kinds).len(),
        forall|j: int| 0 <= j < significant_upto(t, parent, k, kinds).len() ==>
            significant_upto(t, parent, m, kinds)[j] == #[trigger] significant_upto(t, parent, k, kinds)[j],
    decreases m - k,
{
    if k < m {
        lemma_significant_prefix(t, parent, k, m - 1, kinds);
    }
}

// ---------------------------------------------------------------------------
// Outline nodes
// ---------------------------------------------------------------------------

/// The number of children kept at one level: at most `MAX_NODES`.
pub open spec fn kept(n: nat) -> nat {
    if n <= MAX_NODES { n } else { MAX_NODES as nat }
}

/// `o` is the outline node of candidate `c` at depth `depth`: same kind and name, the
/// range when ranges are wanted, and (below the depth limit) the outline nodes of the
/// first `MAX_NODES` children; at the limit, an empty child list marks that children
/// exist.
pub open spec fn outline_of(c: OutlineCandidate, depth: int, opts: OutlineOptions, o: OutlineNode) -> bool
    decreases c,
{
    &&& o.kind@ == c.kind@
    &&& opt_text(o.name) == opt_text(c.name)
    &&& o.range == (if opts.include_ranges { Some(c.range) } else { None })
    &&& if c.children@.len() == 0 {
        o.children is None
    } else if depth < opts.max_depth {
        &&& o.children matches Some(ks)
        &&& ks@.len() == kept(c.children@.len())
        &&& forall|i: int| 0 <= i < ks@.len() ==> outline_of(c.children@[i], depth + 1, opts, #[trigger] ks@[i])
    } else {
        o.children matches Some(ks) && ks@.len() == 0
    }
}

/// Whether converting candidate `c` at depth `depth` drops children: some level below
/// the depth limit has more than `MAX_NODES` children.
pub open spec fn truncates(c: OutlineCandidate, depth: int, opts: OutlineOptions) -> bool
    decreases c, 1nat, 0int,
{
    &&& c.children@.len() > 0
    &&& depth < opts.max_depth
    &&& (c.children@.len() > MAX_NODES || children_truncate(c, depth, opts, kept(c.children@.len()) as int))
}

/// Whether converting one of the first `k` children of candidate `c` drops children.
pub open spec fn children_truncate(c: OutlineCandidate, depth: int, opts: OutlineOptions, k: int) -> bool
    decreases c, 0nat, k,
{
    if 0 < k <= c.children@.len() {
        children_truncate(c, depth, opts, k - 1) || truncates(c.children@[k - 1], depth + 1, opts)
    } else {
        false
    }
}

/// Whether converting one of the first `k` candidates of `cs` at depth zero drops
/// children.
pub open spec fn list_truncates(cs: Seq<OutlineCandidate>, opts: OutlineOptions, k: int) -> bool
    decreases k,
{
    if 0 < k <= cs.len() {
        list_truncates(cs, opts, k - 1) || truncates(cs[k - 1], 0, opts)
    } else {
        false
    }
}

/// Convert a candidate to an outline node, descending to `opts.max_depth`; `truncated`
/// is set when children are dropped for the node limit.
pub fn candidate_to_outline_node(c: &OutlineCandidate, opts: &OutlineOptions, depth: usize, truncated: &mut bool) -> (r: OutlineNode)
    ensures
        outline_of(*c, depth as int, *opts, r),
        *final(truncated) == (*old(truncated) || truncates(*c, depth as int, *opts)),
    decreases c,
{
    let range = if opts.include_ranges { Some(c.range) } else { None };
    let n = c.children.len();
    let children: Option<Vec<OutlineNode>> = if depth < opts.max_depth && n > 0 {
        let ghost t0 = *truncated;
        let mut kids: Vec<OutlineNode> = Vec::new();
        let mut i: usize = 0;
        while i < n
            invariant_except_break
                n == c.children@.len(),
                i <= n,
                kids@.len() == i,
                i <= MAX_NODES,
                depth < opts.max_depth,
                forall|j: int| 0 <= j < i ==> outline_of(c.children@[j], depth + 1, *opts, #[trigger] kids@[j]),
                *truncated == (t0 || children_truncate(*c, depth as int, *opts, i as int)),
            ensures
                kids@.len() == kept(n as nat),
                forall|j: int| 0 <= j < kids@.len() ==> outline_of(c.children@[j], depth + 1, *opts, #[trigger] kids@[j]),
                *truncated == (t0 || n > MAX_NODES || children_truncate(*c, depth as int, *opts, kept(n as nat) as int)),
            decreases n - i,
        {
            if kids.len() >= MAX_NODES {
                *truncated = true;
                break;
            }
            let ghost before = *truncated;
            let kid = candidate_to_outline_node(&c.children[i], opts, depth + 1, truncated);
            kids.push(kid);
            assert(*truncated == (t0 || children_truncate(*c, depth as int, *opts, i + 1)));
            i = i + 1;
        }
        Some(kids)
    } else if n > 0 {
        Some(Vec::new())
    } else {
        None
    };
    let r = OutlineNode { kind: c.kind.clone(), name: c.name.clone(), range, children };
    r
}

// ---------------------------------------------------------------------------
// Outline text
// ---------------------------------------------------------------------------

/// Two spaces per level of depth.
pub open spec fn indent(depth: nat) -> Seq<char>
    decreases depth,
{
    if depth == 0 { Seq::empty() } else { indent((depth - 1) as nat) + "  "@ }
}

/// The text line of an outline node: indentation, kind, `: ` and name (`<anonymous>`
/// when it has none).
pub open spec fn outline_line(n: OutlineNode, depth: nat) -> Seq<char> {
    indent(depth) + n.kind@ + ": "@ + (match n.name { Some(x) => x@, None => "<anonymous>"@ })
}

/// The text lines of an outline node and its descendants, depth first.
pub open spec fn node_lines(n: OutlineNode, depth: nat) -> Seq<Seq<char>>
    decreases n, 1nat,
{
    seq![outline_line(n, depth)] + match n.children {
        Some(ks) => nodes_lines(ks@, depth + 1),
        None => Seq::empty(),
    }
}

/// The text lines of a list of outline nodes, in order.
pub open spec fn nodes_lines(ns: Seq<OutlineNode>, depth: nat) -> Seq<Seq<char>>
    decreases ns, 0nat,
{
    if ns.len() == 0 {
        Seq::empty()
    } else {
        nodes_lines(ns.drop_last(), depth) + node_lines(ns.last(), depth)
    }
}

fn outline_line_text(node: &OutlineNode, depth: usize) -> (r: String)
    ensures
        r@ == outline_line(*node, depth as nat),
{
    let mut s = String::new();
    let mut d: usize = 0;
    assert(s@ =~= indent(0));
    while d < depth
        invariant
            d <= depth,
            s@ == indent(d as nat),
        decreases depth - d,
    {
        s = concat2(s.as_str(), "  ");
        d = d + 1;
    }
    let name: &str = match &node.name {
        Some(x) => x.as_str(),
        None => "<anonymous>",
    };
    let a = concat2(s.as_str(), node.kind.as_str());
    let b = concat2(a.as_str(), ": ");
    concat2(b.as_str(), name)
}

/// Append the text lines of an outline node and its descendants, indented by depth.
pub fn append_outline_text(node: &OutlineNode, depth: usize, lines: &mut Vec<String>)
    requires
        depth < usize::MAX - outline_height(*node),
    ensures
        crate::shared::texts(final(lines)@) == crate::shared::texts(old(lines)@) + node_lines(*node, depth as nat),
    decreases node,
{
    let ghost base = crate::shared::texts(lines@);
    lines.push(outline_line_text(node, depth));
    assert(crate::shared::texts(lines@) =~= base + seq![outline_line(*node, depth as nat)]);
    match &node.children {
        Some(ks) => {
            let n = ks.len();
            let mut i: usize = 0;
            let ghost mid = crate::shared::texts(lines@);
            assert(nodes_lines(ks@.take(0), depth as nat + 1) =~= Seq::<Seq<char>>::empty());
            assert(mid + nodes_lines(ks@.take(0), depth as nat + 1) =~= mid);
            while i < n
                invariant
                    n == ks@.len(),
                    i <= n,
                    node.children == Some(*ks),
                    depth < usize::MAX - outline_height(*node),
                    crate::shared::texts(lines@) == mid + nodes_lines(ks@.take(i as int), depth as nat + 1),
                decreases n - i,
            {
                proof { lemma_child_height(*node, *ks, i as int); }
                append_outline_text(&ks[i], depth + 1, lines);
                proof {
                    assert(ks@.take(i + 1).drop_last() =~= ks@.take(i as int));
                    assert(ks@.take(i + 1).last() == ks@[i as int]);
                }
                i = i + 1;
            }
            assert(ks@.take(n as int) =~= ks@);
        },
        None => {
            assert(base + node_lines(*node, depth as nat) =~= base + seq![outline_line(*node, depth as nat)]);
        },
    }
}

/// The depth of an outline node's tree (a leaf has height zero).
pub open spec fn outline_height(n: OutlineNode) -> nat
    decreases n, 1nat,
{
    match n.children {
        Some(ks) => 1 + max_height(ks@),
        None => 0,
    }
}

/// The largest height in a list of outline nodes.
pub open spec fn max_height(ns: Seq<OutlineNode>) -> nat
    decreases ns, 0nat,
{
    if ns.len() == 0 {
        0
    } else {
        let a = max_height(ns.drop_last());
        let b = outline_height(ns.last());
        if a >= b { a } else { b }
    }
}

proof fn lemma_max_height(ns: Seq<OutlineNode>, i: int)
    requires
        0 <= i < ns.len(),
    ensures
        outline_height(ns[i]) <= max_height(ns),
    decreases ns.len(),
{
    if i < ns.len() - 1 {
        lemma_max_height(ns.drop_last(), i);
        assert(ns.drop_last()[i] == ns[i]);
    }
}

proof fn lemma_child_height(n: OutlineNode, ks: Vec<OutlineNode>, i: int)
    requires
        n.children == Some(ks),
        0 <= i < ks@.len(),
    ensures
        outline_height(ks@[i]) + 1 <= outline_height(n),
{
    lemma_max_height(ks@, i);
}

/// The lines joined with line feeds.
pub open spec fn join_lines(ls: Seq<Seq<char>>) -> Seq<char>
    decreases ls.len(),
{
    if ls.len() == 0 {
        Seq::empty()
    } else if ls.len() == 1 {
        ls[0]
    } else {
        join_lines(ls.drop_last()) + "\n"@ + ls.last()
    }
}

fn join_with_newlines(lines: &Vec<String>) -> (r: String)
    ensures
        r@ == join_lines(crate::shared::texts(lines@)),
{
    let n = lines.len();
    let mut out = String::new();
    let mut i: usize = 0;
    while i < n
        invariant
            n == lines@.len(),
            i <= n,
            out@ == join_lines(crate::shared::texts(lines@.take(i as int))),
        decreases n - i,
    {
        proof {
            assert(crate::shared::texts(lines@.take(i + 1)).drop_last() =~= crate::shared::texts(lines@.take(i as int)));
        }
        if i == 0 {
            out = lines[0].clone();
            assert(crate::shared::texts(lines@.take(1)) =~= seq![lines@[0]@]);
        } else {
            let with_sep = concat2(out.as_str(), "\n");
            out = concat2(with_sep.as_str(), lines[i].as_str());
        }
        i = i + 1;
    }
    assert(lines@.take(n as int) =~= lines@);
    out
}

// ---------------------------------------------------------------------------
// The outline of a file
// ---------------------------------------------------------------------------

/// Whether a candidate is kept under the import and export filters.
pub open spec fn candidate_kept(c: OutlineCandidate, opts: OutlineOptions) -> bool {
    &&& (opts.include_imports || !import_kind(c.kind@))
    &&& (opts.include_exports || c.kind@ != "export_statement"@)
}

/// The candidates kept under the filters, in order.
pub open spec fn kept_candidates(cs: Seq<OutlineCandidate>, opts: OutlineOptions) -> Seq<OutlineCandidate> {
    cs.filter(|c: OutlineCandidate| candidate_kept(c, opts))
}

/// The height of a candidate tree (a candidate without children has height zero).
pub open spec fn candidate_height(c: OutlineCandidate) -> nat
    decreases c, 1nat,
{
    if c.children@.len() == 0 { 0 } else { 1 + max_candidate_height(c.children@) }
}

/// The largest height in a list of candidates.
pub open spec fn max_candidate_height(cs: Seq<OutlineCandidate>) -> nat
    decreases cs, 0nat,
{
    if cs.len() == 0 {
        0
    } else {
        let a = max_candidate_height(cs.drop_last());
        let b = candidate_height(cs.last());
        if a >= b { a } else { b }
    }
}

proof fn lemma_max_candidate_height(cs: Seq<OutlineCandidate>, i: int)
    requires
        0 <= i < cs.len(),
    ensures
        candidate_height(cs[i]) <= max_candidate_height(cs),
    decreases cs.len(),
{
    if i < cs.len() - 1 {
        lemma_max_candidate_height(cs.drop_last(), i);
        assert(cs.drop_last()[i] == cs[i]);
    }
}

proof fn lemma_max_height_bound(ns: Seq<OutlineNode>, m: nat)
    requires
        forall|i: int| 0 <= i < ns.len() ==> outline_height(#[trigger] ns[i]) <= m,
    ensures
        max_height(ns) <= m,
    decreases ns.len(),
{
    if ns.len() > 0 {
        assert forall|i: int| 0 <= i < ns.drop_last().len() implies outline_height(#[trigger] ns.drop_last()[i]) <= m by {
            assert(ns.drop_last()[i] == ns[i]);
        }
        lemma_max_height_bound(ns.drop_last(), m);
        assert(outline_height(ns.last()) <= m);
    }
}

/// An outline node is no taller than its candidate.
proof fn lemma_outline_height(c: OutlineCandidate, depth: int, opts: OutlineOptions, o: OutlineNode)
    requires
        outline_of(c, depth, opts, o),
    ensures
        outline_height(o) <= candidate_height(c),
    decreases c,
{
    if c.children@.len() > 0 {
        let ks = o.children.unwrap();
        if depth < opts.max_depth {
            assert forall|i: int| 0 <= i < ks@.len() implies outline_height(#[trigger] ks@[i]) <= max_candidate_height(c.children@) by {
                lemma_outline_height(c.children@[i], depth + 1, opts, ks@[i]);
                lemma_max_candidate_height(c.children@, i);
            }
            lemma_max_height_bound(ks@, max_candidate_height(c.children@));
        } else {
            assert(max_height(ks@) == 0);
        }
    }
}

/// Build the outline of a file from its outline candidates: the kept candidates (at
/// most `MAX_NODES` of them) converted to outline nodes, their text lines joined with
/// line feeds, and whether anything was dropped for the node limit.
pub fn file_outline(candidates: &Vec<OutlineCandidate>, opts: &OutlineOptions, lang: LanguageId, file_path: &str) -> (r: AstFileOutlineResult)
    requires
        forall|i: int| 0 <= i < candidates@.len() ==> candidate_height(#[trigger] candidates@[i]) < usize::MAX,
    ensures
        r.file_path@ == file_path@,
        r.language@ == language_name(lang),
        ({
            let ks = kept_candidates(candidates@, *opts);
            &&& r.nodes@.len() == kept(ks.len())
            &&& forall|j: int| 0 <= j < r.nodes@.len() ==> outline_of(ks[j], 0, *opts, #[trigger] r.nodes@[j])
            &&& r.truncated == (ks.len() > MAX_NODES || list_truncates(ks, *opts, kept(ks.len()) as int))
            &&& r.outline_text@ == join_lines(nodes_lines(r.nodes@, 0))
        }),
{
    let n = candidates.len();
    let mut nodes: Vec<OutlineNode> = Vec::new();
    let mut lines: Vec<String> = Vec::new();
    let mut truncated = false;
    let mut i: usize = 0;
    proof {
        reveal(Seq::filter);
        assert(candidates@.take(0) =~= Seq::<OutlineCandidate>::empty());
    }
    assert(kept_candidates(candidates@.take(0), *opts) =~= Seq::<OutlineCandidate>::empty());
    assert(crate::shared::texts(lines@) =~= nodes_lines(nodes@, 0));
    assert(candidates@.take(n as int) =~= candidates@);
    while i < n
        invariant_except_break
            n == candidates@.len(),
            i <= n,
            candidates@.take(n as int) == candidates@,
            forall|k: int| 0 <= k < candidates@.len() ==> candidate_height(#[trigger] candidates@[k]) < usize::MAX,
            nodes@.len() == kept_candidates(candidates@.take(i as int), *opts).len(),
            nodes@.len() <= MAX_NODES,
            forall|j: int| 0 <= j < nodes@.len() ==> outline_of(kept_candidates(candidates@.take(i as int), *opts)[j], 0, *opts, #[trigger] nodes@[j]),
            truncated == list_truncates(kept_candidates(candidates@.take(i as int), *opts), *opts, nodes@.len() as int),
            crate::shared::texts(lines@) == nodes_lines(nodes@, 0),
        ensures
            ({
                let ks = kept_candidates(candidates@, *opts);
                &&& nodes@.len() == kept(ks.len())
                &&& forall|j: int| 0 <= j < nodes@.len() ==> outline_of(ks[j], 0, *opts, #[trigger] nodes@[j])
                &&& truncated == (ks.len() > MAX_NODES || list_truncates(ks, *opts, kept(ks.len()) as int))
                &&& crate::shared::texts(lines@) == nodes_lines(nodes@, 0)
            }),
        decreases n - i,
    {
        let ghost prefix = kept_candidates(candidates@.take(i as int), *opts);
        proof { lemma_kept_step(candidates@, i as int, *opts); }
        let c = &candidates[i];
        let skip = (!opts.include_imports && is_import_kind(c.kind.as_str()))
            || (!opts.include_exports && is_export_kind(c.kind.as_str()));
        if skip {
            assert(kept_candidates(candidates@.take(i + 1), *opts) == prefix);
        } else {
            if nodes.len() >= MAX_NODES {
                truncated = true;
                proof {
                    lemma_kept_prefix(candidates@, i as int, *opts);
                    lemma_kept_prefix(candidates@, i + 1, *opts);
                    let ks = kept_candidates(candidates@, *opts);
                    assert(ks.len() > MAX_NODES);
                    assert forall|j: int| 0 <= j < nodes@.len() implies outline_of(ks[j], 0, *opts, #[trigger] nodes@[j]) by {
                        assert(ks[j] == prefix[j]);
                    }
                }
                break;
            }
            let ghost before = truncated;
            let node = candidate_to_outline_node(c, opts, 0, &mut truncated);
            proof { lemma_outline_height(*c, 0, *opts, node); }
            append_outline_text(&node, 0, &mut lines);
            let ghost old_nodes = nodes@;
            nodes.push(node);
            proof {
                let next = kept_candidates(candidates@.take(i + 1), *opts);
                assert(next == prefix.push(*c));
                assert(nodes_lines(nodes@, 0) == nodes_lines(old_nodes, 0) + node_lines(node, 0)) by {
                    assert(nodes@.drop_last() =~= old_nodes);
                }
                assert forall|j: int| 0 <= j < nodes@.len() implies outline_of(next[j], 0, *opts, #[trigger] nodes@[j]) by {
                    if j < old_nodes.len() {
                        assert(next[j] == prefix[j]);
                        assert(nodes@[j] == old_nodes[j]);
                    }
                }
                lemma_list_truncates_prefix(prefix, next, *opts, old_nodes.len() as int);
                assert(truncated == list_truncates(next, *opts, nodes@.len() as int));
            }
        }
        i = i + 1;
    }
    proof {
        if i == n {
            assert(candidates@.take(n as int) =~= candidates@);
        }
    }
    let outline_text = join_with_newlines(&lines);
    AstFileOutlineResult {
        file_path: file_path.to_owned(),
        language: lang.as_str().to_owned(),
        outline_text,
        nodes,
        truncated,
    }
}

/// The truncation of a list's first `k` candidates depends only on those candidates.
proof fn lemma_list_truncates_prefix(a: Seq<OutlineCandidate>, b: Seq<OutlineCandidate>, opts: OutlineOptions, k: int)
    requires
        0 <= k <= a.len(),
        k <= b.len(),
        forall|j: int| 0 <= j < k ==> a[j] == b[j],
    ensures
        list_truncates(a, opts, k) == list_truncates(b, opts, k),
    decreases k,
{
    if k > 0 {
        lemma_list_truncates_prefix(a, b, opts, k - 1);
    }
}

/// Keeping the candidates of a prefix one longer.
proof fn lemma_kept_step(cs: Seq<OutlineCandidate>, i: int, opts: OutlineOptions)
    requires
        0 <= i < cs.len(),
    ensures
        kept_candidates(cs.take(i + 1), opts) == (if candidate_kept(cs[i], opts) {
            kept_candidates(cs.take(i), opts).push(cs[i])
        } else {
            kept_candidates(cs.take(i), opts)
        }),
{
    reveal(Seq::filter);
    assert(cs.take(i + 1).drop_last() =~= cs.take(i));
    assert(cs.take(i + 1).last() == cs[i]);
}

/// The kept candidates of a prefix are a prefix of the kept candidates.
proof fn lemma_kept_prefix(cs: Seq<OutlineCandidate>, i: int, opts: OutlineOptions)
    requires
        0 <= i <= cs.len(),
    ensures
        kept_candidates(cs.take(i), opts).len()
            <= kept_candidates(cs, opts).len(),
        forall|j: int| 0 <= j < kept_candidates(cs.take(i), opts).len() ==>
            kept_candidates(cs, opts)[j] == #[trigger] kept_candidates(cs.take(i), opts)[j],
    decreases cs.len() - i,
{
    if i < cs.len() {
        lemma_kept_prefix(cs, i + 1, opts);
        lemma_kept_step(cs, i, opts);
        let small = kept_candidates(cs.take(i), opts);
        let big = kept_candidates(cs.take(i + 1), opts);
        assert forall|j: int| 0 <= j < small.len() implies kept_candidates(cs, opts)[j] == #[trigger] small[j] by {
            assert(big[j] == small[j]);
        }
    } else {
        assert(cs.take(i) =~= cs);
    }
}

} // verus!
