//! Python dependencies: `import` and `from ... import` statements.
use vstd::prelude::*;

use super::{AstDependencyEdge, EdgeKind, EdgeView, dot_relative, starts_with_dot};
use crate::frameworks::{AstDetector, AstFileContext, Confidence, evidence_list, node_evidence};
use crate::syntax::{
    SyntaxNode, SyntaxTree, child_with_kind_in, has_kind, kind_child_from, kind_is, node_range,
    node_range_spec, walk,
};
use crate::visit::{NodeVisitor, collect_all, views};

verus! {

/// Detects Python import dependencies.
pub struct PythonDependencyDetector;

/// The module an import statement `n` names: the text of its first dotted name, or the
/// empty text.
pub open spec fn imported_module(t: Seq<SyntaxNode>, n: int) -> Seq<char> {
    match kind_child_from(t, n, 0, seq!["dotted_name"]) {
        Some(c) => t[c].text@,
        None => Seq::empty(),
    }
}

/// The edge of import statement `n`, whose evidence is labelled `label`.
pub open spec fn python_edge(t: Seq<SyntaxNode>, n: int, label: Seq<char>, path: Seq<char>) -> EdgeView {
    EdgeView {
        from_file: path,
        to_specifier: imported_module(t, n),
        kind: EdgeKind::Import,
        is_relative: dot_relative(imported_module(t, n)),
        is_type_only: None,
        range: node_range_spec(t[n]),
        confidence: Confidence::High,
        evidence: seq![node_evidence(t, n, label)],
    }
}

/// Whether node `n` is an import statement.
pub open spec fn is_import(t: Seq<SyntaxNode>, n: int) -> bool {
    kind_is(t, n, "import_statement"@) || kind_is(t, n, "import_from_statement"@)
}

/// What node `n` contributes: the edge of an import statement.
pub open spec fn python_edge_item(t: Seq<SyntaxNode>, path: Seq<char>) -> spec_fn(int) -> Seq<EdgeView> {
    |n: int| if kind_is(t, n, "import_statement"@) {
        seq![python_edge(t, n, "import_statement"@, path)]
    } else if kind_is(t, n, "import_from_statement"@) {
        seq![python_edge(t, n, "import_from_statement"@, path)]
    } else {
        Seq::empty()
    }
}

/// The walk enters every node but import statements.
pub open spec fn outside_python_imports(t: Seq<SyntaxNode>) -> spec_fn(int) -> bool {
    |n: int| !is_import(t, n)
}

/// The import dependencies of a Python file, in pre-order.
pub open spec fn python_edges(t: Seq<SyntaxNode>, path: Seq<char>) -> Seq<EdgeView> {
    walk(t, 0, python_edge_item(t, path), outside_python_imports(t))
}

fn python_edge_exec(t: &SyntaxTree, n: usize, label: &str, ctx: &AstFileContext) -> (r: AstDependencyEdge)
    requires
        n < t@.len(),
    ensures
        r@ == python_edge(t@, n as int, label@, ctx.relative_path@),
{
    let kinds: &[&str] = &["dotted_name"];
    assert(kinds@ =~= seq!["dotted_name"]);
    let module = match child_with_kind_in(t, n, kinds) {
        Some(c) => t.node(c).text.clone(),
        None => String::new(),
    };
    let is_relative = starts_with_dot(module.as_str());
    AstDependencyEdge {
        from_file: ctx.relative_path.clone(),
        to_specifier: module,
        kind: EdgeKind::Import,
        is_relative,
        is_type_only: None,
        range: node_range(t.node(n)),
        confidence: Confidence::High,
        evidence: evidence_list(t, n, label),
    }
}

struct PythonImportVisitor<'a> {
    ctx: &'a AstFileContext,
}

impl<'a> NodeVisitor for PythonImportVisitor<'a> {
    type Item = AstDependencyEdge;

    closed spec fn items_at(&self, t: Seq<SyntaxNode>, n: int) -> Seq<EdgeView> {
        python_edge_item(t, self.ctx.relative_path@)(n)
    }

    closed spec fn descends(&self, t: Seq<SyntaxNode>, n: int) -> bool {
        outside_python_imports(t)(n)
    }

    fn visit(&self, t: &SyntaxTree, n: usize, out: &mut Vec<AstDependencyEdge>) {
        if has_kind(t, n, "import_statement") {
            let e = python_edge_exec(t, n, "import_statement", self.ctx);
            proof { reveal_strlit("import_statement"); }
            out.push(e);
        } else if has_kind(t, n, "import_from_statement") {
            let e = python_edge_exec(t, n, "import_from_statement", self.ctx);
            proof { reveal_strlit("import_from_statement"); }
            out.push(e);
        }
        assert(views(out@) =~= views(old(out)@) + self.items_at(t@, n as int));
    }

    fn enters(&self, t: &SyntaxTree, n: usize) -> (r: bool) {
        !(has_kind(t, n, "import_statement") || has_kind(t, n, "import_from_statement"))
    }
}

impl PythonDependencyDetector {
    /// The import dependencies of a Python file, in pre-order: one edge per `import` or
    /// `from ... import` statement, naming its first dotted name.
    pub fn find_edges(&self, ctx: &AstFileContext) -> (r: Vec<AstDependencyEdge>)
        ensures
            views(r@) == python_edges(ctx.tree@, ctx.relative_path@),
    {
        let v = PythonImportVisitor { ctx };
        let r = collect_all(&v, &ctx.tree);
        assert(crate::visit::item_fn(&v, ctx.tree@) =~= python_edge_item(ctx.tree@, ctx.relative_path@));
        assert(crate::visit::descend_fn(&v, ctx.tree@) =~= outside_python_imports(ctx.tree@));
        r
    }
}

impl AstDetector<AstDependencyEdge> for PythonDependencyDetector {
    fn detect(&self, ctx: &AstFileContext) -> (r: Vec<AstDependencyEdge>)
        ensures
            views(r@) == python_edges(ctx.tree@, ctx.relative_path@),
    {
        self.find_edges(ctx)
    }
}

} // verus!
