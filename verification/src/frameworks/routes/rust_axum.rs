//! Axum routes: `get(handler)`-style method routers and `.route("/path", ..)` calls.
use vstd::prelude::*;

use super::{AstRoute, RouteView, route_view, routes_view};
use crate::frameworks::{AstDetector, AstFileContext, Confidence, evidence_list, node_evidence};
use crate::syntax::{
    SyntaxNode, SyntaxTree, child_by_field, child_count_of, child_of, every_node, field_child,
    first_named_child, has_kind, kind_is, named_child_from, lemma_walk_children_step, lemma_walk_unfold, node_range, node_range_spec,
    opt_seq, tree_wf, walk, walk_children,
};
use crate::text::{
    CharSet, chars_end_with, chars_of, ends_with_seq, str_eq, string_from_chars, trim_chars,
    trim_set,
};

verus! {

/// Detects Axum routes.
pub struct RustAxumRouteDetector;

/// The HTTP methods Axum's method routers are named after, in the order they are tried.
pub open spec fn axum_methods() -> Seq<&'static str> {
    seq!["get", "post", "put", "patch", "delete", "head", "options", "trace", "connect"]
}

/// Whether `text` names Axum method router `m`: it is `m` or ends with `::m`.
pub open spec fn names_method(text: Seq<char>, m: Seq<char>) -> bool {
    text == m || ends_with_seq(text, "::"@ + m)
}

/// The first method of `ms`, from position `k` on, that `text` names.
pub open spec fn axum_method_from(text: Seq<char>, ms: Seq<&str>, k: int) -> Option<Seq<char>>
    decreases ms.len() - k,
{
    if 0 <= k < ms.len() {
        if names_method(text, ms[k]@) { Some(ms[k]@) } else { axum_method_from(text, ms, k + 1) }
    } else {
        None
    }
}

/// The HTTP method an Axum function path names (`get`, `axum::routing::post`, ...).
pub fn detect_axum_method(func_text: &str) -> (r: Option<String>)
    ensures
        crate::shared::opt_text(r) == axum_method_from(func_text@, axum_methods(), 0),
{
    let methods: &[&str] = &["get", "post", "put", "patch", "delete", "head", "options", "trace", "connect"];
    assert(methods@ =~= axum_methods());
    let text = chars_of(func_text);
    let mut k: usize = 0;
    while k < methods.len()
        invariant
            k <= methods@.len(),
            methods@ == axum_methods(),
            text@ == func_text@,
            axum_method_from(func_text@, methods@, 0) == axum_method_from(func_text@, methods@, k as int),
        decreases methods@.len() - k,
    {
        let m = methods[k];
        let mut suffix = chars_of("::");
        let mc = chars_of(m);
        let mut j: usize = 0;
        proof { reveal_strlit("::"); }
        while j < mc.len()
            invariant
                j <= mc@.len(),
                suffix@ == "::"@ + mc@.take(j as int),
            decreases mc@.len() - j,
        {
            suffix.push(mc[j]);
            assert(mc@.take(j + 1) =~= mc@.take(j as int).push(mc@[j as int]));
            j = j + 1;
        }
        assert(mc@.take(mc@.len() as int) =~= mc@);
        if str_eq(func_text, m) || chars_end_with(text.as_slice(), suffix.as_slice()) {
            return Some(m.to_owned());
        }
        k = k + 1;
    }
    None
}

/// The path of a `.route(..)` call: its first string argument without double quotes.
pub open spec fn first_rust_string_from(t: Seq<SyntaxNode>, a: int, k: int) -> Option<Seq<char>>
    decreases child_count_of(t, a) - k,
{
    if 0 <= k < child_count_of(t, a) {
        let x = child_of(t, a, k);
        if kind_is(t, x, "string_literal"@) || kind_is(t, x, "raw_string_literal"@) {
            Some(trim_set(t[x].text@, CharSet::DoubleQuote))
        } else {
            first_rust_string_from(t, a, k + 1)
        }
    } else {
        None
    }
}

/// The method of a `.route(..)` call among the first `k` arguments: that named by the
/// function of the last call argument that has one.
pub open spec fn route_method_upto(t: Seq<SyntaxNode>, a: int, k: int) -> Option<Seq<char>>
    decreases k,
{
    if k <= 0 {
        None
    } else {
        let x = child_of(t, a, k - 1);
        let prev = route_method_upto(t, a, k - 1);
        if kind_is(t, x, "call_expression"@) {
            match field_child(t, x, "function"@) {
                Some(f) => axum_method_from(t[f].text@, axum_methods(), 0),
                None => prev,
            }
        } else {
            prev
        }
    }
}

/// An Axum route found at call node `n` of a file at `path` in `language`.
pub open spec fn axum_route(t: Seq<SyntaxNode>, n: int, path: Seq<char>, language: Seq<char>) -> Option<RouteView> {
    match field_child(t, n, "function"@) {
        None => None,
        Some(f) => match axum_method_from(t[f].text@, axum_methods(), 0) {
            Some(m) => match field_child(t, n, "arguments"@) {
                None => None,
                Some(a) => Some(RouteView {
                    file_path: path,
                    language,
                    framework: "axum"@,
                    method: Some(m),
                    path: None,
                    handler_name: match named_child_from(t, a, 0) { Some(h) => Some(t[h].text@), None => None },
                    handler_kind: None,
                    range: node_range_spec(t[n]),
                    path_range: None,
                    handler_range: None,
                    confidence: Confidence::Medium,
                    evidence: seq![node_evidence(t, n, "call_expression"@)],
                }),
            },
            None => if kind_is(t, f, "field_expression"@) {
                match field_child(t, f, "field"@) {
                    None => None,
                    Some(fd) => if t[fd].text@ == "route"@ {
                        match field_child(t, n, "arguments"@) {
                            None => None,
                            Some(a) => Some(RouteView {
                                file_path: path,
                                language,
                                framework: "axum"@,
                                method: route_method_upto(t, a, child_count_of(t, a)),
                                path: first_rust_string_from(t, a, 0),
                                handler_name: None,
                                handler_kind: None,
                                range: node_range_spec(t[n]),
                                path_range: None,
                                handler_range: None,
                                confidence: Confidence::Medium,
                                evidence: seq![node_evidence(t, n, "method_call"@)],
                            }),
                        }
                    } else {
                        None
                    },
                }
            } else {
                None
            },
        },
    }
}

/// What node `n` contributes: the route of a call expression, if it is one.
pub open spec fn axum_item(t: Seq<SyntaxNode>, path: Seq<char>, language: Seq<char>) -> spec_fn(int) -> Seq<RouteView> {
    |n: int| if kind_is(t, n, "call_expression"@) { opt_seq(axum_route(t, n, path, language)) } else { Seq::empty() }
}

fn first_rust_string(t: &SyntaxTree, a: usize) -> (r: Option<String>)
    requires
        a < t@.len(),
    ensures
        crate::shared::opt_text(r) == first_rust_string_from(t@, a as int, 0),
{
    t.wf();
    let node = t.node(a);
    let m = node.children.len();
    let mut k: usize = 0;
    while k < m
        invariant
            tree_wf(t@),
            a < t@.len(),
            node == t@[a as int],
            m == child_count_of(t@, a as int),
            k <= m,
            first_rust_string_from(t@, a as int, 0) == first_rust_string_from(t@, a as int, k as int),
        decreases m - k,
    {
        let x = node.children[k];
        assert(x as int == child_of(t@, a as int, k as int));
        if has_kind(t, x, "string_literal") || has_kind(t, x, "raw_string_literal") {
            let chars = chars_of(t.node(x).text.as_str());
            let trimmed = trim_chars(chars.as_slice(), CharSet::DoubleQuote);
            return Some(string_from_chars(trimmed.as_slice()));
        }
        k = k + 1;
    }
    None
}

fn route_method(t: &SyntaxTree, a: usize) -> (r: Option<String>)
    requires
        a < t@.len(),
    ensures
        crate::shared::opt_text(r) == route_method_upto(t@, a as int, child_count_of(t@, a as int)),
{
    t.wf();
    let node = t.node(a);
    let m = node.children.len();
    let mut method: Option<String> = None;
    let mut k: usize = 0;
    while k < m
        invariant
            tree_wf(t@),
            a < t@.len(),
            node == t@[a as int],
            m == child_count_of(t@, a as int),
            k <= m,
            crate::shared::opt_text(method) == route_method_upto(t@, a as int, k as int),
        decreases m - k,
    {
        let x = node.children[k];
        assert(x as int == child_of(t@, a as int, k as int));
        if has_kind(t, x, "call_expression") {
            if let Some(f) = child_by_field(t, x, "function") {
                method = detect_axum_method(t.node(f).text.as_str());
            }
        }
        k = k + 1;
    }
    method
}

fn extract_axum_call(t: &SyntaxTree, n: usize, ctx: &AstFileContext) -> (r: Option<AstRoute>)
    requires
        n < t@.len(),
    ensures
        match r {
            Some(x) => axum_route(t@, n as int, ctx.relative_path@, ctx.language@) == Some(route_view(x)),
            None => axum_route(t@, n as int, ctx.relative_path@, ctx.language@) is None,
        },
{
    let f = match child_by_field(t, n, "function") {
        Some(f) => f,
        None => {
            return None;
        },
    };
    let func_text = t.node(f).text.as_str();
    if let Some(method) = detect_axum_method(func_text) {
        let a = match child_by_field(t, n, "arguments") {
            Some(a) => a,
            None => {
                return None;
            },
        };
        let handler_name = match first_named_child(t, a) {
            Some(h) => Some(t.node(h).text.clone()),
            None => None,
        };
        return Some(AstRoute {
            file_path: ctx.relative_path.clone(),
            language: ctx.language.clone(),
            framework: "axum".to_owned(),
            method: Some(method),
            path: None,
            handler_name,
            handler_kind: None,
            range: node_range(t.node(n)),
            path_range: None,
            handler_range: None,
            confidence: Confidence::Medium,
            evidence: evidence_list(t, n, "call_expression"),
        });
    }
    if has_kind(t, f, "field_expression") {
        let fd = match child_by_field(t, f, "field") {
            Some(fd) => fd,
            None => {
                return None;
            },
        };
        if str_eq(t.node(fd).text.as_str(), "route") {
            let a = match child_by_field(t, n, "arguments") {
                Some(a) => a,
                None => {
                    return None;
                },
            };
            return Some(AstRoute {
                file_path: ctx.relative_path.clone(),
                language: ctx.language.clone(),
                framework: "axum".to_owned(),
                method: route_method(t, a),
                path: first_rust_string(t, a),
                handler_name: None,
                handler_kind: None,
                range: node_range(t.node(n)),
                path_range: None,
                handler_range: None,
                confidence: Confidence::Medium,
                evidence: evidence_list(t, n, "method_call"),
            });
        }
    }
    None
}

fn collect_axum_routes(t: &SyntaxTree, i: usize, ctx: &AstFileContext, out: &mut Vec<AstRoute>)
    requires
        i < t@.len(),
    ensures
        routes_view(final(out)@) == routes_view(old(out)@) + walk(t@, i as int, axum_item(t@, ctx.relative_path@, ctx.language@), every_node()),
    decreases t@.len() - i,
{
    t.wf();
    let ghost item = axum_item(t@, ctx.relative_path@, ctx.language@);
    let ghost base = routes_view(out@);
    proof { lemma_walk_unfold(t@, i as int, item, every_node()); }
    if has_kind(t, i, "call_expression") {
        if let Some(r) = extract_axum_call(t, i, ctx) {
            out.push(r);
        }
    }
    assert(routes_view(out@) =~= base + item(i as int));
    let node = t.node(i);
    let m = node.children.len();
    let mut k: usize = 0;
    while k < m
        invariant
            tree_wf(t@),
            i < t@.len(),
            node == t@[i as int],
            m == child_count_of(t@, i as int),
            k <= m,
            item == axum_item(t@, ctx.relative_path@, ctx.language@),
            routes_view(out@) == base + (item(i as int) + walk_children(t@, i as int, k as int, item, every_node())),
        decreases m - k,
    {
        let c = node.children[k];
        proof { lemma_walk_children_step(t@, i as int, k as int, item, every_node()); }
        collect_axum_routes(t, c, ctx, out);
        assert(base + (item(i as int) + walk_children(t@, i as int, k as int, item, every_node())) + walk(t@, c as int, item, every_node())
            =~= base + (item(i as int) + walk_children(t@, i as int, k + 1, item, every_node())));
        k = k + 1;
    }
}

impl RustAxumRouteDetector {
    /// The Axum routes of a file, in pre-order: calls of a method router
    /// (`get(handler)`, `axum::routing::post(..)`), whose handler is the text of the first
    /// named argument, and `.route("/path", ..)` calls.
    pub fn find_routes(&self, ctx: &AstFileContext) -> (r: Vec<AstRoute>)
        ensures
            routes_view(r@) == walk(ctx.tree@, 0, axum_item(ctx.tree@, ctx.relative_path@, ctx.language@), every_node()),
    {
        let t = &ctx.tree;
        t.wf();
        let mut out: Vec<AstRoute> = Vec::new();
        assert(routes_view(out@) =~= Seq::<RouteView>::empty());
        collect_axum_routes(t, 0, ctx, &mut out);
        assert(Seq::<RouteView>::empty() + walk(t@, 0, axum_item(t@, ctx.relative_path@, ctx.language@), every_node())
            =~= walk(t@, 0, axum_item(t@, ctx.relative_path@, ctx.language@), every_node()));
        out
    }
}

impl AstDetector<AstRoute> for RustAxumRouteDetector {
    fn detect(&self, ctx: &AstFileContext) -> (r: Vec<AstRoute>)
        ensures
            routes_view(r@) == walk(ctx.tree@, 0, axum_item(ctx.tree@, ctx.relative_path@, ctx.language@), every_node()),
    {
        self.find_routes(ctx)
    }
}

} // verus!
