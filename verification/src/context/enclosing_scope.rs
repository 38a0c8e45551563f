//! The chain of lexical scopes that enclose a position.
use vstd::prelude::*;

use super::node_at_range_helpers::{find_smallest_containing, smallest_containing};
use crate::shared::{Position, Range, ScopeKind, ScopeSummary, ScopeView, opt_scope_view, scopes_view};
use crate::syntax::{
    SyntaxNode, SyntaxTree, child_by_field, child_with_kind_in, field_child, kind_child_from,
    node_range, node_range_spec, opt_seq, parent_of, tree_wf,
};
use crate::text::str_eq;

verus! {

/// Options of an enclosing-scope request.
pub struct AstEnclosingScopeInput {
    pub file_path: String,
    pub position: Option<Position>,
    pub include_block_scopes: bool,
}

impl Default for AstEnclosingScopeInput {
    fn default() -> (r: Self)
        ensures
            r.file_path@ == Seq::<char>::empty(),
            r.position is None,
            !r.include_block_scopes,
    {
        AstEnclosingScopeInput { file_path: String::new(), position: None, include_block_scopes: false }
    }
}

/// The deepest node, descending from `start`, whose byte range contains `byte` (ends
/// included).
pub fn find_leaf_at(t: &SyntaxTree, start: usize, byte: usize) -> (r: Option<usize>)
    requires
        start < t@.len(),
    ensures
        r == Some(smallest_containing(t@, start as int, byte as int, byte as int) as usize),
{
    find_smallest_containing(t, start, byte, byte)
}

/// The scope kind of a node kind; block kinds count only when blocks are wanted.
pub open spec fn scope_kind_of(k: Seq<char>, include_blocks: bool) -> Option<ScopeKind> {
    if k == "program"@ || k == "module"@ {
        Some(ScopeKind::Module)
    } else if k == "class_declaration"@ || k == "class_definition"@ {
        Some(ScopeKind::Class)
    } else if k == "interface_declaration"@ {
        Some(ScopeKind::Interface)
    } else if k == "function_declaration"@ || k == "function_definition"@ {
        Some(ScopeKind::Function)
    } else if k == "method_definition"@ {
        Some(ScopeKind::Method)
    } else if k == "constructor"@ || k == "constructor_declaration"@ {
        Some(ScopeKind::Constructor)
    } else if k == "arrow_function"@ {
        Some(ScopeKind::ArrowFunction)
    } else if k == "lambda"@ || k == "lambda_expression"@ {
        Some(ScopeKind::Lambda)
    } else if include_blocks && (k == "block"@ || k == "statement_block"@ || k == "_block"@ || k == "block_statement"@) {
        Some(ScopeKind::Block)
    } else if k == "impl_item"@ || k == "trait_item"@ {
        Some(ScopeKind::Class)
    } else {
        None
    }
}

/// The name of scope node `i`: its `name` field, else its first `identifier` child.
pub open spec fn scope_name_of(t: Seq<SyntaxNode>, i: int) -> Option<Seq<char>> {
    match field_child(t, i, "name"@) {
        Some(c) => Some(t[c].text@),
        None => match kind_child_from(t, i, 0, seq!["identifier"]) {
            Some(c) => Some(t[c].text@),
            None => None,
        },
    }
}

/// The range of the `body` field of node `i`, if it has one.
pub open spec fn body_range_of(t: Seq<SyntaxNode>, i: int) -> Option<Range> {
    match field_child(t, i, "body"@) {
        Some(b) => Some(node_range_spec(t[b])),
        None => None,
    }
}

/// Node `i` as a scope, if its kind is one.
pub open spec fn scope_of(t: Seq<SyntaxNode>, i: int, include_blocks: bool) -> Option<ScopeView> {
    match scope_kind_of(t[i].kind@, include_blocks) {
        Some(k) => Some((k, scope_name_of(t, i), t[i].kind@, node_range_spec(t[i]), body_range_of(t, i))),
        None => None,
    }
}

/// The scopes among node `i` and its ancestors, outermost first.
pub open spec fn scope_chain(t: Seq<SyntaxNode>, i: int, include_blocks: bool) -> Seq<ScopeView>
    decreases i,
{
    if 0 <= i < t.len() {
        let own = opt_seq(scope_of(t, i, include_blocks));
        match t[i].parent {
            Some(p) => if (p as int) < i { scope_chain(t, p as int, include_blocks) + own } else { own },
            None => own,
        }
    } else {
        Seq::empty()
    }
}

fn scope_kind_for(k: &str, include_blocks: bool) -> (r: Option<ScopeKind>)
    ensures
        r == scope_kind_of(k@, include_blocks),
{
    if str_eq(k, "program") || str_eq(k, "module") {
        Some(ScopeKind::Module)
    } else if str_eq(k, "class_declaration") || str_eq(k, "class_definition") {
        Some(ScopeKind::Class)
    } else if str_eq(k, "interface_declaration") {
        Some(ScopeKind::Interface)
    } else if str_eq(k, "function_declaration") || str_eq(k, "function_definition") {
        Some(ScopeKind::Function)
    } else if str_eq(k, "method_definition") {
        Some(ScopeKind::Method)
    } else if str_eq(k, "constructor") || str_eq(k, "constructor_declaration") {
        Some(ScopeKind::Constructor)
    } else if str_eq(k, "arrow_function") {
        Some(ScopeKind::ArrowFunction)
    } else if str_eq(k, "lambda") || str_eq(k, "lambda_expression") {
        Some(ScopeKind::Lambda)
    } else if include_blocks && (str_eq(k, "block") || str_eq(k, "statement_block") || str_eq(k, "_block")
        || str_eq(k, "block_statement")) {
        Some(ScopeKind::Block)
    } else if str_eq(k, "impl_item") || str_eq(k, "trait_item") {
        Some(ScopeKind::Class)
    } else {
        None
    }
}

/// The name of a scope node.
pub fn extract_scope_name(t: &SyntaxTree, i: usize) -> (r: Option<String>)
    requires
        i < t@.len(),
    ensures
        crate::shared::opt_text(r) == scope_name_of(t@, i as int),
{
    if let Some(c) = child_by_field(t, i, "name") {
        return Some(t.node(c).text.clone());
    }
    let ks: &[&str] = &["identifier"];
    assert(ks@ =~= seq!["identifier"]);
    match child_with_kind_in(t, i, ks) {
        Some(c) => Some(t.node(c).text.clone()),
        None => None,
    }
}

/// The range of a node's `body` field.
pub fn node_body_range(t: &SyntaxTree, i: usize) -> (r: Option<Range>)
    requires
        i < t@.len(),
    ensures
        r == body_range_of(t@, i as int),
{
    match child_by_field(t, i, "body") {
        Some(b) => Some(node_range(t.node(b))),
        None => None,
    }
}

/// Node `i` as a scope, if its kind is one.
pub fn classify_scope(t: &SyntaxTree, i: usize, include_blocks: bool) -> (r: Option<ScopeSummary>)
    requires
        i < t@.len(),
    ensures
        opt_scope_view(r) == scope_of(t@, i as int, include_blocks),
{
    let node = t.node(i);
    match scope_kind_for(node.kind.as_str(), include_blocks) {
        Some(kind) => Some(ScopeSummary {
            kind,
            name: extract_scope_name(t, i),
            node_kind: node.kind.clone(),
            range: node_range(node),
            selection_range: node_body_range(t, i),
        }),
        None => None,
    }
}

fn push_scope_chain(t: &SyntaxTree, i: usize, include_blocks: bool, out: &mut Vec<ScopeSummary>)
    requires
        i < t@.len(),
    ensures
        scopes_view(final(out)@) == scopes_view(old(out)@) + scope_chain(t@, i as int, include_blocks),
    decreases i,
{
    t.wf();
    let ghost before = scopes_view(out@);
    if let Some(p) = parent_of(t, i) {
        push_scope_chain(t, p, include_blocks, out);
    }
    let ghost mid = scopes_view(out@);
    if let Some(s) = classify_scope(t, i, include_blocks) {
        out.push(s);
        assert(scopes_view(out@) =~= mid + opt_seq(scope_of(t@, i as int, include_blocks)));
    } else {
        assert(scopes_view(out@) =~= mid + opt_seq(scope_of(t@, i as int, include_blocks)));
    }
    assert(before + scope_chain(t@, i as int, include_blocks) =~= scopes_view(out@));
}

/// The scopes enclosing node `leaf` (itself included), outermost first.
pub fn ancestor_scopes(t: &SyntaxTree, leaf: usize, include_blocks: bool) -> (r: Vec<ScopeSummary>)
    requires
        leaf < t@.len(),
    ensures
        scopes_view(r@) == scope_chain(t@, leaf as int, include_blocks),
{
    let mut out: Vec<ScopeSummary> = Vec::new();
    assert(scopes_view(out@) =~= Seq::<ScopeView>::empty());
    push_scope_chain(t, leaf, include_blocks, &mut out);
    assert(Seq::<ScopeView>::empty() + scope_chain(t@, leaf as int, include_blocks)
        =~= scope_chain(t@, leaf as int, include_blocks));
    out
}

/// The scopes enclosing byte offset `byte`, outermost first: those among the deepest
/// node containing it and that node's ancestors.
pub fn enclosing_scopes_at(t: &SyntaxTree, byte: usize, include_blocks: bool) -> (r: Vec<ScopeSummary>)
    ensures
        scopes_view(r@) == scope_chain(t@, smallest_containing(t@, 0, byte as int, byte as int), include_blocks),
{
    t.wf();
    proof { lemma_leaf_in_tree(t@, 0, byte as int); }
    let leaf = find_leaf_at(t, 0, byte);
    match leaf {
        Some(lf) => ancestor_scopes(t, lf, include_blocks),
        None => Vec::new(),
    }
}

proof fn lemma_leaf_in_tree(t: Seq<SyntaxNode>, i: int, b: int)
    requires
        0 <= i < t.len(),
        t.len() <= usize::MAX,
    ensures
        0 <= smallest_containing(t, i, b, b) < t.len(),
    decreases t.len() - i,
{
    match super::node_at_range_helpers::spanning_child_from(t, i, 0, b, b) {
        Some(c) => if i < c < t.len() { lemma_leaf_in_tree(t, c, b); },
        None => {},
    }
}

} // verus!
