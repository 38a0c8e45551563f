//! Rust dependencies: `use` declarations, `mod` items and `extern crate` declarations.
use vstd::prelude::*;

use super::{AstDependencyEdge, EdgeKind, EdgeView};
use crate::frameworks::{AstDetector, AstFileContext, Confidence, evidence_list, node_evidence};
use crate::shared::texts;
use crate::syntax::{
    SyntaxNode, SyntaxTree, child_count_of, child_of, child_with_kind_in, has_kind, has_kind_in,
    kind_child_from, kind_in, kind_is, lemma_walk_children_step, node_range, node_range_spec,
    opt_seq, tree_wf, walk, walk_children,
};
use crate::text::{chars_of, chars_start_with, join_strings, join_with, starts_with_seq};
use crate::visit::{NodeVisitor, collect_all, collect_from, descend_fn, item_fn, views};

verus! {

/// Detects Rust dependencies.
pub struct RustDependencyDetector;

/// The kinds that are one part of a `use` path.
pub open spec fn path_part_kinds() -> Seq<&'static str> {
    seq!["identifier", "scoped_identifier"]
}

/// The kinds a `use` path is read without entering: path parts and use lists.
pub open spec fn use_stop_kinds() -> Seq<&'static str> {
    seq!["identifier", "scoped_identifier", "scoped_use_list", "use_list"]
}

/// What node `n` gives to a `use` path: its text, if it is a path part.
pub open spec fn use_part_item(t: Seq<SyntaxNode>) -> spec_fn(int) -> Seq<Seq<char>> {
    |n: int| if kind_in(t, n, path_part_kinds()) { seq![t[n].text@] } else { Seq::empty() }
}

/// Whether reading a `use` path enters node `n`.
pub open spec fn use_part_descend(t: Seq<SyntaxNode>) -> spec_fn(int) -> bool {
    |n: int| !kind_in(t, n, use_stop_kinds())
}

/// The parts of the `use` path of declaration `d`, in source order: the path parts among
/// its descendants, not looking into use lists.
pub open spec fn use_parts(t: Seq<SyntaxNode>, d: int) -> Seq<Seq<char>> {
    walk_children(t, d, child_count_of(t, d), use_part_item(t), use_part_descend(t))
}

/// The path of `use` declaration `d`: its parts joined with `::`.
pub open spec fn use_path(t: Seq<SyntaxNode>, d: int) -> Seq<char> {
    join_with(use_parts(t, d), "::"@)
}

/// Whether a `use` path is relative to the crate: it starts with `crate::`, `super::` or
/// `self::`.
pub open spec fn crate_relative(p: Seq<char>) -> bool {
    starts_with_seq(p, "crate::"@) || starts_with_seq(p, "super::"@) || starts_with_seq(p, "self::"@)
}

/// The edge of a `use` declaration with a non-empty path.
pub open spec fn use_edge(t: Seq<SyntaxNode>, d: int, path: Seq<char>) -> Option<EdgeView> {
    let p = use_path(t, d);
    if p.len() == 0 {
        None
    } else {
        Some(EdgeView {
            from_file: path,
            to_specifier: p,
            kind: EdgeKind::Use,
            is_relative: crate_relative(p),
            is_type_only: None,
            range: node_range_spec(t[d]),
            confidence: Confidence::High,
            evidence: seq![node_evidence(t, d, "use_declaration"@)],
        })
    }
}

/// The edge of a `mod` item or `extern crate` declaration `n`: named by its first
/// identifier child, when that name is not empty.
pub open spec fn named_edge(t: Seq<SyntaxNode>, n: int, kind: EdgeKind, relative: bool, label: Seq<char>, path: Seq<char>) -> Option<EdgeView> {
    match kind_child_from(t, n, 0, seq!["identifier"]) {
        Some(c) => if t[c].text@.len() == 0 {
            None
        } else {
            Some(EdgeView {
                from_file: path,
                to_specifier: t[c].text@,
                kind,
                is_relative: relative,
                is_type_only: None,
                range: node_range_spec(t[n]),
                confidence: Confidence::High,
                evidence: seq![node_evidence(t, n, label)],
            })
        },
        None => None,
    }
}

/// The kinds of node the detector reads without entering.
pub open spec fn rust_dependency_kinds() -> Seq<&'static str> {
    seq!["use_declaration", "mod_item", "extern_crate_declaration"]
}

/// What node `n` contributes.
pub open spec fn rust_edge_item(t: Seq<SyntaxNode>, path: Seq<char>) -> spec_fn(int) -> Seq<EdgeView> {
    |n: int| if kind_is(t, n, "use_declaration"@) {
        opt_seq(use_edge(t, n, path))
    } else if kind_is(t, n, "mod_item"@) {
        opt_seq(named_edge(t, n, EdgeKind::Mod, true, "mod_item"@, path))
    } else if kind_is(t, n, "extern_crate_declaration"@) {
        opt_seq(named_edge(t, n, EdgeKind::Package, false, "extern_crate_declaration"@, path))
    } else {
        Seq::empty()
    }
}

/// The walk enters every node but the dependency items.
pub open spec fn outside_rust_dependencies(t: Seq<SyntaxNode>) -> spec_fn(int) -> bool {
    |n: int| !kind_in(t, n, rust_dependency_kinds())
}

/// The dependencies of a Rust file, in pre-order.
pub open spec fn rust_edges(t: Seq<SyntaxNode>, path: Seq<char>) -> Seq<EdgeView> {
    walk(t, 0, rust_edge_item(t, path), outside_rust_dependencies(t))
}

struct UsePathVisitor;

impl NodeVisitor for UsePathVisitor {
    type Item = String;

    closed spec fn items_at(&self, t: Seq<SyntaxNode>, n: int) -> Seq<Seq<char>> {
        use_part_item(t)(n)
    }

    closed spec fn descends(&self, t: Seq<SyntaxNode>, n: int) -> bool {
        use_part_descend(t)(n)
    }

    fn visit(&self, t: &SyntaxTree, n: usize, out: &mut Vec<String>) {
        let kinds: &[&str] = &["identifier", "scoped_identifier"];
        assert(kinds@ =~= path_part_kinds());
        if has_kind_in(t, n, kinds) {
            out.push(t.node(n).text.clone());
        }
        assert(views(out@) =~= views(old(out)@) + self.items_at(t@, n as int));
    }

    fn enters(&self, t: &SyntaxTree, n: usize) -> (r: bool) {
        let kinds: &[&str] = &["identifier", "scoped_identifier", "scoped_use_list", "use_list"];
        assert(kinds@ =~= use_stop_kinds());
        !has_kind_in(t, n, kinds)
    }
}

fn collect_use_parts(t: &SyntaxTree, d: usize) -> (r: String)
    requires
        d < t@.len(),
    ensures
        r@ == use_path(t@, d as int),
{
    t.wf();
    let v = UsePathVisitor;
    let ghost item = item_fn(&v, t@);
    let ghost desc = descend_fn(&v, t@);
    assert(item =~= use_part_item(t@));
    assert(desc =~= use_part_descend(t@));
    let node = t.node(d);
    let m = node.children.len();
    let mut parts: Vec<String> = Vec::new();
    let mut k: usize = 0;
    assert(views(parts@) =~= walk_children(t@, d as int, 0, item, desc));
    while k < m
        invariant
            tree_wf(t@),
            d < t@.len(),
            node == t@[d as int],
            m == child_count_of(t@, d as int),
            k <= m,
            item == item_fn(&v, t@),
            desc == descend_fn(&v, t@),
            views(parts@) == walk_children(t@, d as int, k as int, item, desc),
        decreases m - k,
    {
        let c = node.children[k];
        proof { lemma_walk_children_step(t@, d as int, k as int, item, desc); }
        collect_from(&v, t, c, &mut parts);
        k = k + 1;
    }
    assert(texts(parts@) =~= views(parts@));
    proof { reveal_strlit("::"); }
    join_strings(&parts, "::")
}

fn is_crate_relative(p: &str) -> (r: bool)
    ensures
        r == crate_relative(p@),
{
    let chars = chars_of(p);
    let a = chars_of("crate::");
    let b = chars_of("super::");
    let c = chars_of("self::");
    chars_start_with(chars.as_slice(), a.as_slice()) || chars_start_with(chars.as_slice(), b.as_slice())
        || chars_start_with(chars.as_slice(), c.as_slice())
}

fn extract_use_declaration(t: &SyntaxTree, d: usize, ctx: &AstFileContext) -> (r: Option<AstDependencyEdge>)
    requires
        d < t@.len(),
    ensures
        views(opt_seq(r)) == opt_seq(use_edge(t@, d as int, ctx.relative_path@)),
{
    let p = collect_use_parts(t, d);
    if p.as_str().unicode_len() == 0 {
        return None;
    }
    let is_relative = is_crate_relative(p.as_str());
    Some(AstDependencyEdge {
        from_file: ctx.relative_path.clone(),
        to_specifier: p,
        kind: EdgeKind::Use,
        is_relative,
        is_type_only: None,
        range: node_range(t.node(d)),
        confidence: Confidence::High,
        evidence: evidence_list(t, d, "use_declaration"),
    })
}

fn named_edge_exec(t: &SyntaxTree, n: usize, kind: EdgeKind, relative: bool, label: &str, ctx: &AstFileContext) -> (r: Option<AstDependencyEdge>)
    requires
        n < t@.len(),
    ensures
        views(opt_seq(r)) == opt_seq(named_edge(t@, n as int, kind, relative, label@, ctx.relative_path@)),
{
    let kinds: &[&str] = &["identifier"];
    assert(kinds@ =~= seq!["identifier"]);
    let c = match child_with_kind_in(t, n, kinds) {
        Some(c) => c,
        None => {
            return None;
        },
    };
    let name = t.node(c).text.clone();
    if name.as_str().unicode_len() == 0 {
        return None;
    }
    Some(AstDependencyEdge {
        from_file: ctx.relative_path.clone(),
        to_specifier: name,
        kind,
        is_relative: relative,
        is_type_only: None,
        range: node_range(t.node(n)),
        confidence: Confidence::High,
        evidence: evidence_list(t, n, label),
    })
}

fn push_edge(out: &mut Vec<AstDependencyEdge>, r: Option<AstDependencyEdge>)
    ensures
        views(final(out)@) == views(old(out)@) + views(opt_seq(r)),
{
    if let Some(x) = r {
        out.push(x);
    }
    assert(views(out@) =~= views(old(out)@) + views(opt_seq(r)));
}

struct RustDependencyVisitor<'a> {
    ctx: &'a AstFileContext,
}

impl<'a> NodeVisitor for RustDependencyVisitor<'a> {
    type Item = AstDependencyEdge;

    closed spec fn items_at(&self, t: Seq<SyntaxNode>, n: int) -> Seq<EdgeView> {
        rust_edge_item(t, self.ctx.relative_path@)(n)
    }

    closed spec fn descends(&self, t: Seq<SyntaxNode>, n: int) -> bool {
        outside_rust_dependencies(t)(n)
    }

    fn visit(&self, t: &SyntaxTree, n: usize, out: &mut Vec<AstDependencyEdge>) {
        if has_kind(t, n, "use_declaration") {
            push_edge(out, extract_use_declaration(t, n, self.ctx));
        } else if has_kind(t, n, "mod_item") {
            let e = named_edge_exec(t, n, EdgeKind::Mod, true, "mod_item", self.ctx);
            proof { reveal_strlit("mod_item"); }
            push_edge(out, e);
        } else if has_kind(t, n, "extern_crate_declaration") {
            let e = named_edge_exec(t, n, EdgeKind::Package, false, "extern_crate_declaration", self.ctx);
            proof { reveal_strlit("extern_crate_declaration"); }
            push_edge(out, e);
        }
        assert(views(out@) =~= views(old(out)@) + self.items_at(t@, n as int));
    }

    fn enters(&self, t: &SyntaxTree, n: usize) -> (r: bool) {
        let kinds: &[&str] = &["use_declaration", "mod_item", "extern_crate_declaration"];
        assert(kinds@ =~= rust_dependency_kinds());
        !has_kind_in(t, n, kinds)
    }
}

impl RustDependencyDetector {
    /// The dependencies of a Rust file, in pre-order: `use` declarations with a non-empty
    /// path (relative when it starts with `crate::`, `super::` or `self::`), `mod` items
    /// (relative) and `extern crate` declarations (packages).
    pub fn find_edges(&self, ctx: &AstFileContext) -> (r: Vec<AstDependencyEdge>)
        ensures
            views(r@) == rust_edges(ctx.tree@, ctx.relative_path@),
    {
        let v = RustDependencyVisitor { ctx };
        let r = collect_all(&v, &ctx.tree);
        assert(item_fn(&v, ctx.tree@) =~= rust_edge_item(ctx.tree@, ctx.relative_path@));
        assert(descend_fn(&v, ctx.tree@) =~= outside_rust_dependencies(ctx.tree@));
        r
    }
}

impl AstDetector<AstDependencyEdge> for RustDependencyDetector {
    fn detect(&self, ctx: &AstFileContext) -> (r: Vec<AstDependencyEdge>)
        ensures
            views(r@) == rust_edges(ctx.tree@, ctx.relative_path@),
    {
        self.find_edges(ctx)
    }
}

} // verus!
