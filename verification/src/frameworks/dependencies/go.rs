//! Go dependencies: the import specs of `import` declarations.
use vstd::prelude::*;

use super::{AstDependencyEdge, EdgeKind, EdgeView, dot_relative, starts_with_dot};
use crate::frameworks::{AstDetector, AstFileContext, Confidence, evidence_list, node_evidence};
use crate::syntax::{
    SyntaxNode, SyntaxTree, child_count_of, child_of, has_kind, kind_is, node_range,
    node_range_spec, opt_seq, tree_wf, walk,
};
use crate::text::{CharSet, trim_set, trim_str};
use crate::visit::{NodeVisitor, collect_all, views};

verus! {

/// Detects Go import dependencies.
pub struct GoDependencyDetector;

/// The path of import spec `s` from its first `k` children: its last interpreted string
/// literal without double quotes.
pub open spec fn import_spec_path(t: Seq<SyntaxNode>, s: int, k: int) -> Seq<char>
    decreases k,
{
    if 0 < k <= child_count_of(t, s) {
        let c = child_of(t, s, k - 1);
        if kind_is(t, c, "interpreted_string_literal"@) {
            trim_set(t[c].text@, CharSet::DoubleQuote)
        } else {
            import_spec_path(t, s, k - 1)
        }
    } else {
        Seq::empty()
    }
}

/// The edge of import spec `s`, if it has a non-empty path.
pub open spec fn import_spec_edge(t: Seq<SyntaxNode>, s: int, path: Seq<char>) -> Option<EdgeView> {
    let p = import_spec_path(t, s, child_count_of(t, s));
    if p.len() == 0 {
        None
    } else {
        Some(EdgeView {
            from_file: path,
            to_specifier: p,
            kind: EdgeKind::Import,
            is_relative: dot_relative(p),
            is_type_only: None,
            range: node_range_spec(t[s]),
            confidence: Confidence::High,
            evidence: seq![node_evidence(t, s, "import_spec"@)],
        })
    }
}

/// The edges of the import specs among the first `k` children of node `l`.
pub open spec fn spec_list_edges(t: Seq<SyntaxNode>, l: int, k: int, path: Seq<char>) -> Seq<EdgeView>
    decreases k,
{
    if 0 < k <= child_count_of(t, l) {
        let c = child_of(t, l, k - 1);
        spec_list_edges(t, l, k - 1, path) + if kind_is(t, c, "import_spec"@) { opt_seq(import_spec_edge(t, c, path)) } else { Seq::empty() }
    } else {
        Seq::empty()
    }
}

/// The edges of the first `k` children of import declaration `d`: its import specs and
/// those of its import spec lists.
pub open spec fn declaration_edges(t: Seq<SyntaxNode>, d: int, k: int, path: Seq<char>) -> Seq<EdgeView>
    decreases k,
{
    if 0 < k <= child_count_of(t, d) {
        let c = child_of(t, d, k - 1);
        declaration_edges(t, d, k - 1, path) + if kind_is(t, c, "import_spec"@) {
            opt_seq(import_spec_edge(t, c, path))
        } else if kind_is(t, c, "import_spec_list"@) {
            spec_list_edges(t, c, child_count_of(t, c), path)
        } else {
            Seq::empty()
        }
    } else {
        Seq::empty()
    }
}

/// What node `n` contributes: the edges of an import declaration.
pub open spec fn go_edge_item(t: Seq<SyntaxNode>, path: Seq<char>) -> spec_fn(int) -> Seq<EdgeView> {
    |n: int| if kind_is(t, n, "import_declaration"@) { declaration_edges(t, n, child_count_of(t, n), path) } else { Seq::empty() }
}

/// The walk enters every node but import declarations.
pub open spec fn outside_imports(t: Seq<SyntaxNode>) -> spec_fn(int) -> bool {
    |n: int| !kind_is(t, n, "import_declaration"@)
}

/// The import dependencies of a Go file, in pre-order.
pub open spec fn go_edges(t: Seq<SyntaxNode>, path: Seq<char>) -> Seq<EdgeView> {
    walk(t, 0, go_edge_item(t, path), outside_imports(t))
}

fn extract_import_spec(t: &SyntaxTree, s: usize, ctx: &AstFileContext) -> (r: Option<AstDependencyEdge>)
    requires
        s < t@.len(),
    ensures
        match r {
            Some(x) => import_spec_edge(t@, s as int, ctx.relative_path@) == Some(x@),
            None => import_spec_edge(t@, s as int, ctx.relative_path@) is None,
        },
{
    t.wf();
    let node = t.node(s);
    let m = node.children.len();
    let mut path = String::new();
    let mut k: usize = 0;
    while k < m
        invariant
            tree_wf(t@),
            s < t@.len(),
            node == t@[s as int],
            m == child_count_of(t@, s as int),
            k <= m,
            path@ == import_spec_path(t@, s as int, k as int),
        decreases m - k,
    {
        let c = node.children[k];
        assert(c as int == child_of(t@, s as int, k as int));
        if has_kind(t, c, "interpreted_string_literal") {
            path = trim_str(t.node(c).text.as_str(), CharSet::DoubleQuote);
        }
        k = k + 1;
    }
    if path.as_str().unicode_len() == 0 {
        return None;
    }
    let is_relative = starts_with_dot(path.as_str());
    Some(AstDependencyEdge {
        from_file: ctx.relative_path.clone(),
        to_specifier: path,
        kind: EdgeKind::Import,
        is_relative,
        is_type_only: None,
        range: node_range(t.node(s)),
        confidence: Confidence::High,
        evidence: evidence_list(t, s, "import_spec"),
    })
}

fn push_edge(out: &mut Vec<AstDependencyEdge>, r: Option<AstDependencyEdge>)
    ensures
        views(final(out)@) == views(old(out)@) + match r { Some(x) => seq![x@], None => Seq::empty() },
{
    if let Some(x) = r {
        out.push(x);
    }
    assert(views(out@) =~= views(old(out)@) + match r { Some(x) => seq![x@], None => Seq::empty() });
}

fn spec_list_exec(t: &SyntaxTree, l: usize, ctx: &AstFileContext, out: &mut Vec<AstDependencyEdge>)
    requires
        l < t@.len(),
    ensures
        views(final(out)@) == views(old(out)@) + spec_list_edges(t@, l as int, child_count_of(t@, l as int), ctx.relative_path@),
{
    t.wf();
    let node = t.node(l);
    let m = node.children.len();
    let ghost base = views(out@);
    let mut k: usize = 0;
    assert(base + spec_list_edges(t@, l as int, 0, ctx.relative_path@) =~= base);
    while k < m
        invariant
            tree_wf(t@),
            l < t@.len(),
            node == t@[l as int],
            m == child_count_of(t@, l as int),
            k <= m,
            views(out@) == base + spec_list_edges(t@, l as int, k as int, ctx.relative_path@),
        decreases m - k,
    {
        let c = node.children[k];
        assert(c as int == child_of(t@, l as int, k as int));
        let ghost before = views(out@);
        if has_kind(t, c, "import_spec") {
            push_edge(out, extract_import_spec(t, c, ctx));
        }
        assert(before + (if kind_is(t@, c as int, "import_spec"@) { opt_seq(import_spec_edge(t@, c as int, ctx.relative_path@)) } else { Seq::empty() })
            =~= views(out@));
        k = k + 1;
    }
}

fn declaration_exec(t: &SyntaxTree, d: usize, ctx: &AstFileContext, out: &mut Vec<AstDependencyEdge>)
    requires
        d < t@.len(),
    ensures
        views(final(out)@) == views(old(out)@) + declaration_edges(t@, d as int, child_count_of(t@, d as int), ctx.relative_path@),
{
    t.wf();
    let node = t.node(d);
    let m = node.children.len();
    let ghost base = views(out@);
    let mut k: usize = 0;
    assert(base + declaration_edges(t@, d as int, 0, ctx.relative_path@) =~= base);
    while k < m
        invariant
            tree_wf(t@),
            d < t@.len(),
            node == t@[d as int],
            m == child_count_of(t@, d as int),
            k <= m,
            views(out@) == base + declaration_edges(t@, d as int, k as int, ctx.relative_path@),
        decreases m - k,
    {
        let c = node.children[k];
        assert(c as int == child_of(t@, d as int, k as int));
        let ghost before = views(out@);
        let ghost part = if kind_is(t@, c as int, "import_spec"@) {
            opt_seq(import_spec_edge(t@, c as int, ctx.relative_path@))
        } else if kind_is(t@, c as int, "import_spec_list"@) {
            spec_list_edges(t@, c as int, child_count_of(t@, c as int), ctx.relative_path@)
        } else {
            Seq::empty()
        };
        if has_kind(t, c, "import_spec") {
            push_edge(out, extract_import_spec(t, c, ctx));
        } else if has_kind(t, c, "import_spec_list") {
            spec_list_exec(t, c, ctx, out);
        }
        assert(before + part =~= views(out@));
        assert(base + declaration_edges(t@, d as int, k + 1, ctx.relative_path@) =~= base + declaration_edges(t@, d as int, k as int, ctx.relative_path@) + part);
        k = k + 1;
    }
}

struct GoImportVisitor<'a> {
    ctx: &'a AstFileContext,
}

impl<'a> NodeVisitor for GoImportVisitor<'a> {
    type Item = AstDependencyEdge;

    closed spec fn items_at(&self, t: Seq<SyntaxNode>, n: int) -> Seq<EdgeView> {
        go_edge_item(t, self.ctx.relative_path@)(n)
    }

    closed spec fn descends(&self, t: Seq<SyntaxNode>, n: int) -> bool {
        outside_imports(t)(n)
    }

    fn visit(&self, t: &SyntaxTree, n: usize, out: &mut Vec<AstDependencyEdge>) {
        if has_kind(t, n, "import_declaration") {
            declaration_exec(t, n, self.ctx, out);
        }
        assert(views(out@) =~= views(old(out)@) + self.items_at(t@, n as int));
    }

    fn enters(&self, t: &SyntaxTree, n: usize) -> (r: bool) {
        !has_kind(t, n, "import_declaration")
    }
}

impl GoDependencyDetector {
    /// The import dependencies of a Go file, in pre-order: one edge per import spec with
    /// a non-empty path; relative when the path starts with `.`.
    pub fn find_edges(&self, ctx: &AstFileContext) -> (r: Vec<AstDependencyEdge>)
        ensures
            views(r@) == go_edges(ctx.tree@, ctx.relative_path@),
    {
        let v = GoImportVisitor { ctx };
        let r = collect_all(&v, &ctx.tree);
        assert(crate::visit::item_fn(&v, ctx.tree@) =~= go_edge_item(ctx.tree@, ctx.relative_path@));
        assert(crate::visit::descend_fn(&v, ctx.tree@) =~= outside_imports(ctx.tree@));
        r
    }
}

impl AstDetector<AstDependencyEdge> for GoDependencyDetector {
    fn detect(&self, ctx: &AstFileContext) -> (r: Vec<AstDependencyEdge>)
        ensures
            views(r@) == go_edges(ctx.tree@, ctx.relative_path@),
    {
        self.find_edges(ctx)
    }
}

} // verus!
