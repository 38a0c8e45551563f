//! Call expressions in a file, with optional callee filters.
use vstd::prelude::*;

use crate::context::node_at_range_helpers::{extract_name, name_of};
use crate::shared::{
    CallExpression, CallView, ScopeKind, ScopeSummary, ScopeView, call_view, opt_scope_view,
    opt_text, texts,
};
use crate::syntax::{
    SyntaxNode, SyntaxTree, cap, child_by_field, child_count_of, child_of, collect_named_child_texts,
    every_node, field_child, first_ancestor, first_named_child, has_kind_in, kind_in,
    lemma_cap_full, lemma_cap_step, lemma_walk_children_step, named_child_from, named_child_texts,
    node_range, node_range_spec, opt_seq, parent_of, text_in, tree_wf, walk, walk_children,
};
use crate::text::{chars_contain, chars_of, contains_seq, str_eq};

verus! {

/// Options of a call search.
pub struct AstFindCallsInput {
    pub file_path: String,
    pub callee: Option<String>,
    pub callee_contains: Option<String>,
    pub include_arguments: bool,
    pub include_enclosing_scope: bool,
    pub max_results: usize,
}

impl Default for AstFindCallsInput {
    fn default() -> (r: Self)
        ensures
            r.file_path@ == Seq::<char>::empty(),
            r.callee is None,
            r.callee_contains is None,
            r.include_arguments,
            r.include_enclosing_scope,
            r.max_results == 200,
    {
        AstFindCallsInput {
            file_path: String::new(),
            callee: None,
            callee_contains: None,
            include_arguments: true,
            include_enclosing_scope: true,
            max_results: 200,
        }
    }
}

// ---------------------------------------------------------------------------
// Enclosing scope
// ---------------------------------------------------------------------------

/// Kinds of node that count as an enclosing scope of a call, literal or member access.
pub open spec fn enclosing_kinds() -> Seq<&'static str> {
    seq![
        "function_declaration", "function_definition", "method_definition", "arrow_function",
        "class_declaration", "class_definition", "lambda", "program", "module"
    ]
}

/// Whether a node is an enclosing scope.
pub open spec fn is_enclosing(t: Seq<SyntaxNode>) -> spec_fn(int) -> bool {
    |q: int| kind_in(t, q, enclosing_kinds())
}

/// The scope kind of an enclosing-scope node kind.
pub open spec fn enclosing_scope_kind(k: Seq<char>) -> ScopeKind {
    if k == "program"@ || k == "module"@ {
        ScopeKind::Module
    } else if k == "class_declaration"@ || k == "class_definition"@ {
        ScopeKind::Class
    } else if k == "method_definition"@ {
        ScopeKind::Method
    } else if k == "arrow_function"@ {
        ScopeKind::ArrowFunction
    } else if k == "lambda"@ {
        ScopeKind::Lambda
    } else {
        ScopeKind::Function
    }
}

/// The nearest strict ancestor of node `i` that is an enclosing scope, summarised.
pub open spec fn enclosing_scope_of(t: Seq<SyntaxNode>, i: int) -> Option<ScopeView> {
    match first_ancestor(t, i, is_enclosing(t)) {
        Some(p) => Some((enclosing_scope_kind(t[p].kind@), name_of(t, p), t[p].kind@, node_range_spec(t[p]), None)),
        None => None,
    }
}

fn scope_kind_for(k: &str) -> (r: ScopeKind)
    ensures
        r == enclosing_scope_kind(k@),
{
    if str_eq(k, "program") || str_eq(k, "module") {
        ScopeKind::Module
    } else if str_eq(k, "class_declaration") || str_eq(k, "class_definition") {
        ScopeKind::Class
    } else if str_eq(k, "method_definition") {
        ScopeKind::Method
    } else if str_eq(k, "arrow_function") {
        ScopeKind::ArrowFunction
    } else if str_eq(k, "lambda") {
        ScopeKind::Lambda
    } else {
        ScopeKind::Function
    }
}

/// The nearest enclosing function, method, class, lambda or module of node `i`.
pub fn find_enclosing_scope(t: &SyntaxTree, i: usize) -> (r: Option<ScopeSummary>)
    requires
        i < t@.len(),
    ensures
        opt_scope_view(r) == enclosing_scope_of(t@, i as int),
{
    let ks: &[&str] = &[
        "function_declaration", "function_definition", "method_definition", "arrow_function",
        "class_declaration", "class_definition", "lambda", "program", "module",
    ];
    assert(ks@ =~= enclosing_kinds());
    t.wf();
    let ghost pred = is_enclosing(t@);
    let mut cur = i;
    loop
        invariant
            cur < t@.len(),
            tree_wf(t@),
            first_ancestor(t@, i as int, pred) == first_ancestor(t@, cur as int, pred),
            pred == is_enclosing(t@),
            ks@ == enclosing_kinds(),
        decreases cur,
    {
        match parent_of(t, cur) {
            None => {
                assert(first_ancestor(t@, cur as int, pred) is None);
                assert(first_ancestor(t@, i as int, is_enclosing(t@)) is None);
                return None;
            },
            Some(p) => {
                if has_kind_in(t, p, ks) {
                    assert(pred(p as int));
                    assert(first_ancestor(t@, cur as int, pred) == Some(p as int));
                    let node = t.node(p);
                    return Some(ScopeSummary {
                        kind: scope_kind_for(node.kind.as_str()),
                        name: extract_name(t, p),
                        node_kind: node.kind.clone(),
                        range: node_range(node),
                        selection_range: None,
                    });
                }
                cur = p;
            },
        }
    }
}

// ---------------------------------------------------------------------------
// Calls
// ---------------------------------------------------------------------------

/// Kinds of call nodes.
pub open spec fn call_kinds() -> Seq<&'static str> {
    seq!["call_expression", "new_expression", "method_invocation"]
}

/// The callee text of call node `i`: its `function` field, else its first named child.
pub open spec fn callee_of(t: Seq<SyntaxNode>, i: int) -> Option<Seq<char>> {
    match field_child(t, i, "function"@) {
        Some(c) => Some(t[c].text@),
        None => match named_child_from(t, i, 0) {
            Some(c) => Some(t[c].text@),
            None => None,
        },
    }
}

/// The texts of the named children of the `arguments` field of call node `i`.
pub open spec fn arguments_of(t: Seq<SyntaxNode>, i: int) -> Seq<Seq<char>> {
    match field_child(t, i, "arguments"@) {
        Some(a) => named_child_texts(t, a, child_count_of(t, a)),
        None => Seq::empty(),
    }
}

/// The call reported for call node `i` under the given filters, if it passes them.
pub open spec fn call_match(t: Seq<SyntaxNode>, i: int, input: AstFindCallsInput) -> Option<CallView> {
    let callee = callee_of(t, i);
    if input.callee matches Some(exact) && callee != Some(exact@) {
        None
    } else if input.callee_contains matches Some(sub) && !(callee matches Some(ct) && contains_seq(ct, sub@)) {
        None
    } else {
        Some((
            match callee { Some(c) => c, None => Seq::empty() },
            if input.include_arguments { arguments_of(t, i) } else { Seq::empty() },
            node_range_spec(t[i]),
            if input.include_enclosing_scope { enclosing_scope_of(t, i) } else { None },
        ))
    }
}

/// What each node contributes to a call search.
pub open spec fn call_item(t: Seq<SyntaxNode>, input: AstFindCallsInput) -> spec_fn(int) -> Seq<CallView> {
    |n: int| if kind_in(t, n, call_kinds()) { opt_seq(call_match(t, n, input)) } else { Seq::empty() }
}

/// The plain-value view of a list of calls.
pub open spec fn calls_view(v: Seq<CallExpression>) -> Seq<CallView> {
    v.map_values(|c: CallExpression| call_view(c))
}

fn extract_callee(t: &SyntaxTree, i: usize) -> (r: Option<String>)
    requires
        i < t@.len(),
    ensures
        opt_text(r) == callee_of(t@, i as int),
{
    if let Some(c) = child_by_field(t, i, "function") {
        return Some(t.node(c).text.clone());
    }
    match first_named_child(t, i) {
        Some(c) => Some(t.node(c).text.clone()),
        None => None,
    }
}

fn extract_arguments(t: &SyntaxTree, i: usize) -> (r: Vec<String>)
    requires
        i < t@.len(),
    ensures
        texts(r@) == arguments_of(t@, i as int),
{
    match child_by_field(t, i, "arguments") {
        Some(a) => collect_named_child_texts(t, a),
        None => {
            let v: Vec<String> = Vec::new();
            assert(texts(v@) =~= Seq::<Seq<char>>::empty());
            v
        },
    }
}

fn build_call(t: &SyntaxTree, i: usize, input: &AstFindCallsInput) -> (r: Option<CallExpression>)
    requires
        i < t@.len(),
    ensures
        match r {
            Some(c) => call_match(t@, i as int, *input) == Some(call_view(c)),
            None => call_match(t@, i as int, *input) is None,
        },
{
    let callee_text = extract_callee(t, i);
    if let Some(exact) = &input.callee {
        match &callee_text {
            Some(ct) => {
                if !str_eq(ct.as_str(), exact.as_str()) {
                    return None;
                }
            },
            None => {
                return None;
            },
        }
    }
    if let Some(sub) = &input.callee_contains {
        match &callee_text {
            Some(ct) => {
                let hay = chars_of(ct.as_str());
                let needle = chars_of(sub.as_str());
                if !chars_contain(hay.as_slice(), needle.as_slice()) {
                    return None;
                }
            },
            None => {
                return None;
            },
        }
    }
    let arguments_text = if input.include_arguments {
        extract_arguments(t, i)
    } else {
        let v: Vec<String> = Vec::new();
        assert(texts(v@) =~= Seq::<Seq<char>>::empty());
        v
    };
    let enclosing_scope = if input.include_enclosing_scope { find_enclosing_scope(t, i) } else { None };
    let callee = match callee_text {
        Some(c) => c,
        None => String::new(),
    };
    Some(CallExpression { callee_text: callee, arguments_text, range: node_range(t.node(i)), enclosing_scope })
}

/// Whether a node kind is a call.
pub fn is_call_node(kind: &str) -> (r: bool)
    ensures
        r == text_in(kind@, call_kinds()),
{
    let ks: &[&str] = &["call_expression", "new_expression", "method_invocation"];
    assert(ks@ =~= call_kinds());
    crate::syntax::str_in(kind, ks)
}

fn collect_calls(t: &SyntaxTree, i: usize, calls: &mut Vec<CallExpression>, input: &AstFindCallsInput, max: usize)
    requires
        i < t@.len(),
        old(calls)@.len() <= max,
    ensures
        final(calls)@.len() <= max,
        calls_view(final(calls)@) == cap(calls_view(old(calls)@) + walk(t@, i as int, call_item(t@, *input), every_node()), max as int),
    decreases t@.len() - i,
{
    t.wf();
    let ghost item = call_item(t@, *input);
    let ghost base = calls_view(calls@);
    let ghost whole = walk(t@, i as int, item, every_node());
    if calls.len() >= max {
        proof { lemma_cap_full(base, whole, max as int); }
        return;
    }
    let node = t.node(i);
    if is_call_node(node.kind.as_str()) {
        if let Some(ce) = build_call(t, i, input) {
            calls.push(ce);
        }
    }
    assert(calls_view(calls@) =~= cap(base + item(i as int), max as int));
    let n = node.children.len();
    let mut k: usize = 0;
    while k < n
        invariant
            tree_wf(t@),
            i < t@.len(),
            node == t@[i as int],
            n == child_count_of(t@, i as int),
            k <= n,
            item == call_item(t@, *input),
            calls@.len() <= max,
            calls_view(calls@) == cap(base + (item(i as int) + walk_children(t@, i as int, k as int, item, every_node())), max as int),
        decreases n - k,
    {
        let c = node.children[k];
        proof { lemma_walk_children_step(t@, i as int, k as int, item, every_node()); }
        collect_calls(t, c, calls, input, max);
        proof {
            lemma_cap_step(base, item(i as int) + walk_children(t@, i as int, k as int, item, every_node()),
                walk(t@, c as int, item, every_node()), max as int);
            assert(item(i as int) + walk_children(t@, i as int, k as int, item, every_node())
                + walk(t@, c as int, item, every_node())
                =~= item(i as int) + walk_children(t@, i as int, k + 1, item, every_node()));
        }
        k = k + 1;
    }
}

/// Find the call expressions of a file in pre-order, up to `max_results`; the flag
/// reports whether the limit was reached.
pub fn find_calls(t: &SyntaxTree, input: &AstFindCallsInput) -> (r: (Vec<CallExpression>, bool))
    ensures
        calls_view(r.0@) == cap(walk(t@, 0, call_item(t@, *input), every_node()), input.max_results as int),
        r.1 == (r.0@.len() >= input.max_results),
{
    t.wf();
    let mut calls: Vec<CallExpression> = Vec::new();
    assert(calls_view(calls@) =~= Seq::<CallView>::empty());
    collect_calls(t, 0, &mut calls, input, input.max_results);
    assert(Seq::<CallView>::empty() + walk(t@, 0, call_item(t@, *input), every_node())
        =~= walk(t@, 0, call_item(t@, *input), every_node()));
    let truncated = calls.len() >= input.max_results;
    (calls, truncated)
}

} // verus!
