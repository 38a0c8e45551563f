//! TypeScript and JavaScript dependencies: imports, re-exports, `require(..)` and
//! `import(..)` calls.
use vstd::prelude::*;

use super::{AstDependencyEdge, EdgeKind, EdgeView, dot_relative, starts_with_dot};
use crate::extractors::imports::{first_string_arg, first_string_from, from_clause_exec, from_clause_path, strip_quotes, strip_quotes_text, ts_statement_upto};
use crate::frameworks::{AstDetector, AstFileContext, Confidence, evidence_list, node_evidence};
use crate::shared::opt_text;
use crate::syntax::{
    SyntaxNode, SyntaxTree, child_by_field, child_count_of, child_of, field_child, has_kind,
    kind_is, node_range, node_range_spec, opt_seq, tree_wf, walk,
};
use crate::text::str_eq;
use crate::visit::{NodeVisitor, collect_all, views};

verus! {

/// Detects TypeScript and JavaScript dependencies.
pub struct TypeScriptDependencyDetector;

/// The edge of import statement `n`, if it names a module.
pub open spec fn import_edge(t: Seq<SyntaxNode>, n: int, path: Seq<char>) -> Option<EdgeView> {
    let st = ts_statement_upto(t, n, child_count_of(t, n));
    match st.0 {
        Some(p) => Some(EdgeView {
            from_file: path,
            to_specifier: p,
            kind: EdgeKind::Import,
            is_relative: dot_relative(p),
            is_type_only: Some(st.2),
            range: node_range_spec(t[n]),
            confidence: Confidence::High,
            evidence: seq![node_evidence(t, n, "import_statement"@)],
        }),
        None => None,
    }
}

/// The module the first `k` children of export statement `n` re-export from: the last
/// string of its `from` clauses.
pub open spec fn export_source(t: Seq<SyntaxNode>, n: int, k: int) -> Option<Seq<char>>
    decreases k,
{
    if 0 < k <= child_count_of(t, n) {
        let c = child_of(t, n, k - 1);
        let prev = export_source(t, n, k - 1);
        if kind_is(t, c, "from_clause"@) { from_clause_path(t, c, child_count_of(t, c), prev) } else { prev }
    } else {
        None
    }
}

/// The edge of export statement `n`, if it re-exports from a module.
pub open spec fn export_edge(t: Seq<SyntaxNode>, n: int, path: Seq<char>) -> Option<EdgeView> {
    match export_source(t, n, child_count_of(t, n)) {
        Some(p) => Some(EdgeView {
            from_file: path,
            to_specifier: p,
            kind: EdgeKind::Export,
            is_relative: dot_relative(p),
            is_type_only: None,
            range: node_range_spec(t[n]),
            confidence: Confidence::High,
            evidence: seq![node_evidence(t, n, "export_statement"@)],
        }),
        None => None,
    }
}

/// The kind of dependency a call's function makes: `require` or a dynamic `import`.
pub open spec fn call_kind(t: Seq<SyntaxNode>, f: int) -> Option<EdgeKind> {
    if kind_is(t, f, "identifier"@) {
        if t[f].text@ == "require"@ { Some(EdgeKind::Require) } else { None }
    } else if kind_is(t, f, "import"@) {
        Some(EdgeKind::Import)
    } else {
        None
    }
}

/// The edge of call `n`: a `require(..)` or `import(..)` call with a string argument.
pub open spec fn call_edge(t: Seq<SyntaxNode>, n: int, path: Seq<char>) -> Option<EdgeView> {
    match field_child(t, n, "function"@) {
        None => None,
        Some(f) => match call_kind(t, f) {
            None => None,
            Some(kind) => match field_child(t, n, "arguments"@) {
                None => None,
                Some(a) => match first_string_from(t, a, 0) {
                    None => None,
                    Some(p) => Some(EdgeView {
                        from_file: path,
                        to_specifier: p,
                        kind,
                        is_relative: dot_relative(p),
                        is_type_only: None,
                        range: node_range_spec(t[n]),
                        confidence: Confidence::High,
                        evidence: seq![node_evidence(t, n, "call_expression"@)],
                    }),
                },
            },
        },
    }
}

/// What node `n` contributes.
pub open spec fn ts_edge_item(t: Seq<SyntaxNode>, path: Seq<char>) -> spec_fn(int) -> Seq<EdgeView> {
    |n: int| if kind_is(t, n, "import_statement"@) {
        opt_seq(import_edge(t, n, path))
    } else if kind_is(t, n, "export_statement"@) {
        opt_seq(export_edge(t, n, path))
    } else if kind_is(t, n, "call_expression"@) {
        opt_seq(call_edge(t, n, path))
    } else {
        Seq::empty()
    }
}

/// The walk enters every node but import statements.
pub open spec fn outside_import_statements(t: Seq<SyntaxNode>) -> spec_fn(int) -> bool {
    |n: int| !kind_is(t, n, "import_statement"@)
}

/// The dependencies of a TypeScript or JavaScript file, in pre-order.
pub open spec fn ts_edges(t: Seq<SyntaxNode>, path: Seq<char>) -> Seq<EdgeView> {
    walk(t, 0, ts_edge_item(t, path), outside_import_statements(t))
}

fn extract_import_statement(t: &SyntaxTree, n: usize, ctx: &AstFileContext) -> (r: Option<AstDependencyEdge>)
    requires
        n < t@.len(),
    ensures
        match r {
            Some(x) => import_edge(t@, n as int, ctx.relative_path@) == Some(x@),
            None => import_edge(t@, n as int, ctx.relative_path@) is None,
        },
{
    t.wf();
    let node = t.node(n);
    let m = node.children.len();
    let mut module: Option<String> = None;
    let mut type_only = false;
    let mut k: usize = 0;
    while k < m
        invariant
            tree_wf(t@),
            n < t@.len(),
            node == t@[n as int],
            m == child_count_of(t@, n as int),
            k <= m,
            opt_text(module) == ts_statement_upto(t@, n as int, k as int).0,
            type_only == ts_statement_upto(t@, n as int, k as int).2,
        decreases m - k,
    {
        let x = node.children[k];
        assert(x as int == child_of(t@, n as int, k as int));
        if has_kind(t, x, "type") {
            type_only = true;
        } else if has_kind(t, x, "string") {
            module = Some(strip_quotes_text(t.node(x).text.as_str()));
        } else if has_kind(t, x, "from_clause") {
            proof { reveal_strlit("import_clause"); reveal_strlit("from_clause"); }
            assert("import_clause"@[0] != "from_clause"@[0]);
            module = from_clause_exec(t, x, module);
        }
        k = k + 1;
    }
    let p = match module {
        Some(p) => p,
        None => {
            return None;
        },
    };
    let is_relative = starts_with_dot(p.as_str());
    Some(AstDependencyEdge {
        from_file: ctx.relative_path.clone(),
        to_specifier: p,
        kind: EdgeKind::Import,
        is_relative,
        is_type_only: Some(type_only),
        range: node_range(t.node(n)),
        confidence: Confidence::High,
        evidence: evidence_list(t, n, "import_statement"),
    })
}

fn extract_export_statement(t: &SyntaxTree, n: usize, ctx: &AstFileContext) -> (r: Option<AstDependencyEdge>)
    requires
        n < t@.len(),
    ensures
        match r {
            Some(x) => export_edge(t@, n as int, ctx.relative_path@) == Some(x@),
            None => export_edge(t@, n as int, ctx.relative_path@) is None,
        },
{
    t.wf();
    let node = t.node(n);
    let m = node.children.len();
    let mut module: Option<String> = None;
    let mut k: usize = 0;
    while k < m
        invariant
            tree_wf(t@),
            n < t@.len(),
            node == t@[n as int],
            m == child_count_of(t@, n as int),
            k <= m,
            opt_text(module) == export_source(t@, n as int, k as int),
        decreases m - k,
    {
        let x = node.children[k];
        assert(x as int == child_of(t@, n as int, k as int));
        if has_kind(t, x, "from_clause") {
            module = from_clause_exec(t, x, module);
        }
        k = k + 1;
    }
    let p = match module {
        Some(p) => p,
        None => {
            return None;
        },
    };
    let is_relative = starts_with_dot(p.as_str());
    Some(AstDependencyEdge {
        from_file: ctx.relative_path.clone(),
        to_specifier: p,
        kind: EdgeKind::Export,
        is_relative,
        is_type_only: None,
        range: node_range(t.node(n)),
        confidence: Confidence::High,
        evidence: evidence_list(t, n, "export_statement"),
    })
}

fn extract_call_import(t: &SyntaxTree, n: usize, ctx: &AstFileContext) -> (r: Option<AstDependencyEdge>)
    requires
        n < t@.len(),
    ensures
        match r {
            Some(x) => call_edge(t@, n as int, ctx.relative_path@) == Some(x@),
            None => call_edge(t@, n as int, ctx.relative_path@) is None,
        },
{
    let f = match child_by_field(t, n, "function") {
        Some(f) => f,
        None => {
            return None;
        },
    };
    let kind = if has_kind(t, f, "identifier") {
        if str_eq(t.node(f).text.as_str(), "require") {
            EdgeKind::Require
        } else {
            return None;
        }
    } else if has_kind(t, f, "import") {
        EdgeKind::Import
    } else {
        return None;
    };
    let a = match child_by_field(t, n, "arguments") {
        Some(a) => a,
        None => {
            return None;
        },
    };
    let p = match first_string_arg(t, a) {
        Some(p) => p,
        None => {
            return None;
        },
    };
    let is_relative = starts_with_dot(p.as_str());
    Some(AstDependencyEdge {
        from_file: ctx.relative_path.clone(),
        to_specifier: p,
        kind,
        is_relative,
        is_type_only: None,
        range: node_range(t.node(n)),
        confidence: Confidence::High,
        evidence: evidence_list(t, n, "call_expression"),
    })
}

fn push_edge(out: &mut Vec<AstDependencyEdge>, r: Option<AstDependencyEdge>)
    ensures
        views(final(out)@) == views(old(out)@) + opt_seq(match r { Some(x) => Some(x@), None => None }),
{
    if let Some(x) = r {
        out.push(x);
    }
    assert(views(out@) =~= views(old(out)@) + opt_seq(match r { Some(x) => Some(x@), None => None }));
}

struct TsDependencyVisitor<'a> {
    ctx: &'a AstFileContext,
}

impl<'a> NodeVisitor for TsDependencyVisitor<'a> {
    type Item = AstDependencyEdge;

    closed spec fn items_at(&self, t: Seq<SyntaxNode>, n: int) -> Seq<EdgeView> {
        ts_edge_item(t, self.ctx.relative_path@)(n)
    }

    closed spec fn descends(&self, t: Seq<SyntaxNode>, n: int) -> bool {
        outside_import_statements(t)(n)
    }

    fn visit(&self, t: &SyntaxTree, n: usize, out: &mut Vec<AstDependencyEdge>) {
        if has_kind(t, n, "import_statement") {
            push_edge(out, extract_import_statement(t, n, self.ctx));
        } else if has_kind(t, n, "export_statement") {
            push_edge(out, extract_export_statement(t, n, self.ctx));
        } else if has_kind(t, n, "call_expression") {
            push_edge(out, extract_call_import(t, n, self.ctx));
        }
        assert(views(out@) =~= views(old(out)@) + self.items_at(t@, n as int));
    }

    fn enters(&self, t: &SyntaxTree, n: usize) -> (r: bool) {
        !has_kind(t, n, "import_statement")
    }
}

impl TypeScriptDependencyDetector {
    /// The dependencies of a TypeScript or JavaScript file, in pre-order: import
    /// statements that name a module (not entered), re-exports from a module, and
    /// `require(..)` / `import(..)` calls with a string argument; relative when the
    /// specifier starts with `.`.
    pub fn find_edges(&self, ctx: &AstFileContext) -> (r: Vec<AstDependencyEdge>)
        ensures
            views(r@) == ts_edges(ctx.tree@, ctx.relative_path@),
    {
        let v = TsDependencyVisitor { ctx };
        let r = collect_all(&v, &ctx.tree);
        assert(crate::visit::item_fn(&v, ctx.tree@) =~= ts_edge_item(ctx.tree@, ctx.relative_path@));
        assert(crate::visit::descend_fn(&v, ctx.tree@) =~= outside_import_statements(ctx.tree@));
        r
    }
}

impl AstDetector<AstDependencyEdge> for TypeScriptDependencyDetector {
    fn detect(&self, ctx: &AstFileContext) -> (r: Vec<AstDependencyEdge>)
        ensures
            views(r@) == ts_edges(ctx.tree@, ctx.relative_path@),
    {
        self.find_edges(ctx)
    }
}

} // verus!
