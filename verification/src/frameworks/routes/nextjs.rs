//! Next.js route handlers: exported `GET`, `POST`, ... functions and arrow functions,
//! with the path taken from the file's place under `app/` or `pages/api/`.
use vstd::prelude::*;

use super::{AstRoute, RouteView};
use crate::frameworks::{AstDetector, AstFileContext, Confidence, evidence_list, node_evidence};
use crate::shared::opt_text;
use crate::syntax::{
    SyntaxNode, SyntaxTree, child_by_field, child_count_of, child_of, field_child, has_kind,
    kind_is, node_range, node_range_spec, opt_seq, str_in, text_in, tree_wf, walk,
};
use crate::text::{
    chars_contain, chars_end_with, concat2, chars_of, contains_seq, ends_with_seq, find_chars, find_seq,
    lowercase, replace_all, replace_str, string_from_chars, to_lowercase_text,
};
use crate::visit::{NodeVisitor, collect_all, views};

verus! {

/// Detects Next.js route handlers.
pub struct NextJsRouteDetector;

/// The names of route handlers.
pub open spec fn handler_names() -> Seq<&'static str> {
    seq!["GET", "POST", "PUT", "PATCH", "DELETE", "HEAD", "OPTIONS"]
}

/// Whether a path names an App Router route file: under `app/` and ending in `route.ts`,
/// or ending in `route.tsx`, `route.js` or `route.jsx`.
pub open spec fn app_route_file(rel: Seq<char>) -> bool {
    (contains_seq(rel, "app/"@) && ends_with_seq(rel, "route.ts"@)) || ends_with_seq(rel, "route.tsx"@)
        || ends_with_seq(rel, "route.js"@) || ends_with_seq(rel, "route.jsx"@)
}

/// The route path of an App Router file: `app/` and the `/route.*` file name dropped,
/// `[param]` written `:param`, behind a `/`.
pub open spec fn app_route_path(rel: Seq<char>) -> Seq<char> {
    let a = replace_all(rel, "app/"@, ""@);
    let b = replace_all(a, "/route.ts"@, ""@);
    let c = replace_all(b, "/route.tsx"@, ""@);
    let d = replace_all(c, "/route.js"@, ""@);
    let e = replace_all(d, "/route.jsx"@, ""@);
    let f = replace_all(e, "["@, ":"@);
    "/"@ + replace_all(f, "]"@, ""@)
}

/// The part of a path after its first `pages/api/`, up to the next one if any.
pub open spec fn pages_api_part(rel: Seq<char>) -> Seq<char> {
    match find_seq(rel, "pages/api/"@) {
        Some(i) => {
            let after = rel.skip(i + 10);
            match find_seq(after, "pages/api/"@) {
                Some(j) => after.take(j),
                None => after,
            }
        },
        None => Seq::empty(),
    }
}

/// The route path of a Pages Router API file: the part after `pages/api/` without its
/// extension and `/index`, `[param]` written `:param`, behind `/api/`.
pub open spec fn pages_api_path(rel: Seq<char>) -> Seq<char> {
    let a = replace_all(pages_api_part(rel), ".ts"@, ""@);
    let b = replace_all(a, ".tsx"@, ""@);
    let c = replace_all(b, ".js"@, ""@);
    let d = replace_all(c, ".jsx"@, ""@);
    let e = replace_all(d, "["@, ":"@);
    let f = replace_all(e, "]"@, ""@);
    "/api/"@ + replace_all(f, "/index"@, ""@)
}

/// The route path a file's place implies, if any.
pub open spec fn inferred_path(rel: Seq<char>) -> Option<Seq<char>> {
    if app_route_file(rel) {
        Some(app_route_path(rel))
    } else if contains_seq(rel, "pages/api/"@) {
        Some(pages_api_path(rel))
    } else {
        None
    }
}

/// The route of a function declaration or variable declarator node `n` named after an
/// HTTP method, with the given handler kind.
pub open spec fn handler_route(t: Seq<SyntaxNode>, n: int, kind: Seq<char>, evidence_kind: Seq<char>, path: Seq<char>, language: Seq<char>) -> Option<RouteView> {
    match field_child(t, n, "name"@) {
        None => None,
        Some(nm) => if !text_in(t[nm].text@, handler_names()) {
            None
        } else {
            Some(RouteView {
                file_path: path,
                language,
                framework: "nextjs"@,
                method: Some(lowercase(t[nm].text@)),
                path: inferred_path(path),
                handler_name: Some(t[nm].text@),
                handler_kind: Some(kind),
                range: node_range_spec(t[n]),
                path_range: None,
                handler_range: Some(node_range_spec(t[n])),
                confidence: Confidence::Medium,
                evidence: seq![node_evidence(t, n, evidence_kind)],
            })
        },
    }
}

/// The route of a function declaration.
pub open spec fn function_route(t: Seq<SyntaxNode>, n: int, exported: bool, path: Seq<char>, language: Seq<char>) -> Option<RouteView> {
    handler_route(t, n, if exported { "exported_function"@ } else { "function"@ }, "function_declaration"@, path, language)
}

/// The route of a variable declarator.
pub open spec fn variable_route(t: Seq<SyntaxNode>, n: int, path: Seq<char>, language: Seq<char>) -> Option<RouteView> {
    handler_route(t, n, "arrow_function"@, "variable_declarator"@, path, language)
}

/// The routes of the variable declarators among the first `k` children of node `d`.
pub open spec fn declarator_routes(t: Seq<SyntaxNode>, d: int, k: int, path: Seq<char>, language: Seq<char>) -> Seq<RouteView>
    decreases k,
{
    if 0 < k <= child_count_of(t, d) {
        let c = child_of(t, d, k - 1);
        declarator_routes(t, d, k - 1, path, language)
            + if kind_is(t, c, "variable_declarator"@) { opt_seq(variable_route(t, c, path, language)) } else { Seq::empty() }
    } else {
        Seq::empty()
    }
}

/// The routes of the declarations among the first `k` children of export node `e`.
pub open spec fn export_routes(t: Seq<SyntaxNode>, e: int, k: int, path: Seq<char>, language: Seq<char>) -> Seq<RouteView>
    decreases k,
{
    if 0 < k <= child_count_of(t, e) {
        let c = child_of(t, e, k - 1);
        export_routes(t, e, k - 1, path, language) + if kind_is(t, c, "function_declaration"@) {
            opt_seq(function_route(t, c, true, path, language))
        } else if kind_is(t, c, "lexical_declaration"@) {
            declarator_routes(t, c, child_count_of(t, c), path, language)
        } else {
            Seq::empty()
        }
    } else {
        Seq::empty()
    }
}

/// Whether the walk stops at node `n`: exports and declarations are read, not entered.
pub open spec fn is_declaration(t: Seq<SyntaxNode>, n: int) -> bool {
    kind_is(t, n, "export_statement"@) || kind_is(t, n, "function_declaration"@) || kind_is(t, n, "lexical_declaration"@)
}

/// What node `n` contributes.
pub open spec fn nextjs_item(t: Seq<SyntaxNode>, path: Seq<char>, language: Seq<char>) -> spec_fn(int) -> Seq<RouteView> {
    |n: int| if kind_is(t, n, "export_statement"@) {
        export_routes(t, n, child_count_of(t, n), path, language)
    } else if kind_is(t, n, "function_declaration"@) {
        opt_seq(function_route(t, n, false, path, language))
    } else if kind_is(t, n, "lexical_declaration"@) {
        declarator_routes(t, n, child_count_of(t, n), path, language)
    } else {
        Seq::empty()
    }
}

/// The walk enters every node but exports and declarations.
pub open spec fn enters_node(t: Seq<SyntaxNode>) -> spec_fn(int) -> bool {
    |n: int| !is_declaration(t, n)
}

/// The Next.js route handlers of a file, in pre-order.
pub open spec fn nextjs_routes(t: Seq<SyntaxNode>, path: Seq<char>, language: Seq<char>) -> Seq<RouteView> {
    walk(t, 0, nextjs_item(t, path, language), enters_node(t))
}

fn strip_all(s: String, parts: &[&str]) -> (r: String)
    requires
        forall|j: int| 0 <= j < parts@.len() ==> (#[trigger] parts@[j])@.len() > 0,
    ensures
        r@ == strip_each(s@, parts@, parts@.len() as int),
{
    let mut out = s;
    let mut j: usize = 0;
    while j < parts.len()
        invariant
            j <= parts@.len(),
            forall|q: int| 0 <= q < parts@.len() ==> (#[trigger] parts@[q])@.len() > 0,
            out@ == strip_each(s@, parts@, j as int),
        decreases parts@.len() - j,
    {
        out = replace_str(out.as_str(), parts[j], "");
        proof { reveal_strlit(""); }
        j = j + 1;
    }
    out
}

/// `s` with each of the first `k` texts of `parts` removed, in order.
pub open spec fn strip_each(s: Seq<char>, parts: Seq<&str>, k: int) -> Seq<char>
    decreases k,
{
    if 0 < k <= parts.len() { replace_all(strip_each(s, parts, k - 1), parts[k - 1]@, ""@) } else { s }
}

fn is_app_route_file(rel: &str) -> (r: bool)
    ensures
        r == app_route_file(rel@),
{
    let chars = chars_of(rel);
    let app = chars_of("app/");
    let ts = chars_of("route.ts");
    let tsx = chars_of("route.tsx");
    let js = chars_of("route.js");
    let jsx = chars_of("route.jsx");
    (chars_contain(chars.as_slice(), app.as_slice()) && chars_end_with(chars.as_slice(), ts.as_slice()))
        || chars_end_with(chars.as_slice(), tsx.as_slice()) || chars_end_with(chars.as_slice(), js.as_slice())
        || chars_end_with(chars.as_slice(), jsx.as_slice())
}

fn app_route_path_of(rel: &str) -> (r: String)
    ensures
        r@ == app_route_path(rel@),
{
    let parts: &[&str] = &["app/", "/route.ts", "/route.tsx", "/route.js", "/route.jsx"];
    proof {
        reveal_strlit("app/");
        reveal_strlit("/route.ts");
        reveal_strlit("/route.tsx");
        reveal_strlit("/route.js");
        reveal_strlit("/route.jsx");
    }
    let stripped = strip_all(rel.to_owned(), parts);
    assert(stripped@ == replace_all(replace_all(replace_all(replace_all(replace_all(rel@, "app/"@, ""@), "/route.ts"@, ""@), "/route.tsx"@, ""@), "/route.js"@, ""@), "/route.jsx"@, ""@)) by {
        reveal_with_fuel(strip_each, 6);
    }
    proof { reveal_strlit("["); reveal_strlit("]"); }
    let f = replace_str(stripped.as_str(), "[", ":");
    let g = replace_str(f.as_str(), "]", "");
    concat2("/", g.as_str())
}

fn pages_api_part_of(rel: &str) -> (r: String)
    ensures
        r@ == pages_api_part(rel@),
{
    let chars = chars_of(rel);
    let api = chars_of("pages/api/");
    proof { reveal_strlit("pages/api/"); }
    match find_chars(chars.as_slice(), api.as_slice()) {
        Some(i) => {
            let len = chars.len();
            let after = vstd::slice::slice_subrange(chars.as_slice(), i + 10, len);
            assert(after@ =~= rel@.skip(i + 10));
            match find_chars(after, api.as_slice()) {
                Some(j) => {
                    let p = vstd::slice::slice_subrange(after, 0, j);
                    assert(p@ =~= after@.take(j as int));
                    string_from_chars(p)
                },
                None => string_from_chars(after),
            }
        },
        None => String::new(),
    }
}

fn pages_api_path_of(rel: &str) -> (r: String)
    ensures
        r@ == pages_api_path(rel@),
{
    let part = pages_api_part_of(rel);
    assert(part@ == pages_api_part(rel@));
    let parts: &[&str] = &[".ts", ".tsx", ".js", ".jsx"];
    proof {
        reveal_strlit(".ts");
        reveal_strlit(".tsx");
        reveal_strlit(".js");
        reveal_strlit(".jsx");
    }
    let stripped = strip_all(part, parts);
    assert(stripped@ == replace_all(replace_all(replace_all(replace_all(pages_api_part(rel@), ".ts"@, ""@), ".tsx"@, ""@), ".js"@, ""@), ".jsx"@, ""@)) by {
        reveal_with_fuel(strip_each, 5);
    }
    proof { reveal_strlit("["); reveal_strlit("]"); reveal_strlit("/index"); }
    let f = replace_str(stripped.as_str(), "[", ":");
    let g = replace_str(f.as_str(), "]", "");
    let h = replace_str(g.as_str(), "/index", "");
    concat2("/api/", h.as_str())
}

fn infer_path_from_file(rel: &str) -> (r: Option<String>)
    ensures
        opt_text(r) == inferred_path(rel@),
{
    if is_app_route_file(rel) {
        Some(app_route_path_of(rel))
    } else if crate::text::str_contains(rel, "pages/api/") {
        Some(pages_api_path_of(rel))
    } else {
        None
    }
}

fn handler_route_of(t: &SyntaxTree, n: usize, kind: &str, evidence_kind: &str, ctx: &AstFileContext) -> (r: Option<AstRoute>)
    requires
        n < t@.len(),
    ensures
        match r {
            Some(x) => handler_route(t@, n as int, kind@, evidence_kind@, ctx.relative_path@, ctx.language@) == Some(x@),
            None => handler_route(t@, n as int, kind@, evidence_kind@, ctx.relative_path@, ctx.language@) is None,
        },
{
    let nm = match child_by_field(t, n, "name") {
        Some(nm) => nm,
        None => {
            return None;
        },
    };
    let name = t.node(nm).text.as_str();
    let names: &[&str] = &["GET", "POST", "PUT", "PATCH", "DELETE", "HEAD", "OPTIONS"];
    assert(names@ =~= handler_names());
    if !str_in(name, names) {
        return None;
    }
    Some(AstRoute {
        file_path: ctx.relative_path.clone(),
        language: ctx.language.clone(),
        framework: "nextjs".to_owned(),
        method: Some(to_lowercase_text(name)),
        path: infer_path_from_file(ctx.relative_path.as_str()),
        handler_name: Some(name.to_owned()),
        handler_kind: Some(kind.to_owned()),
        range: node_range(t.node(n)),
        path_range: None,
        handler_range: Some(node_range(t.node(n))),
        confidence: Confidence::Medium,
        evidence: evidence_list(t, n, evidence_kind),
    })
}

fn push_opt(out: &mut Vec<AstRoute>, r: Option<AstRoute>)
    ensures
        views(final(out)@) == views(old(out)@) + match r { Some(x) => seq![x@], None => Seq::empty() },
{
    if let Some(x) = r {
        out.push(x);
    }
    assert(views(out@) =~= views(old(out)@) + match r { Some(x) => seq![x@], None => Seq::empty() });
}

fn collect_declarators(t: &SyntaxTree, d: usize, ctx: &AstFileContext, out: &mut Vec<AstRoute>)
    requires
        d < t@.len(),
    ensures
        views(final(out)@) == views(old(out)@) + declarator_routes(t@, d as int, child_count_of(t@, d as int), ctx.relative_path@, ctx.language@),
{
    t.wf();
    let node = t.node(d);
    let m = node.children.len();
    let ghost base = views(out@);
    let mut k: usize = 0;
    assert(base + declarator_routes(t@, d as int, 0, ctx.relative_path@, ctx.language@) =~= base);
    while k < m
        invariant
            tree_wf(t@),
            d < t@.len(),
            node == t@[d as int],
            m == child_count_of(t@, d as int),
            k <= m,
            views(out@) == base + declarator_routes(t@, d as int, k as int, ctx.relative_path@, ctx.language@),
        decreases m - k,
    {
        let c = node.children[k];
        assert(c as int == child_of(t@, d as int, k as int));
        let ghost before = views(out@);
        if has_kind(t, c, "variable_declarator") {
            let r = handler_route_of(t, c, "arrow_function", "variable_declarator", ctx);
            proof { reveal_strlit("arrow_function"); reveal_strlit("variable_declarator"); }
            push_opt(out, r);
        }
        assert(before + (if kind_is(t@, c as int, "variable_declarator"@) { opt_seq(variable_route(t@, c as int, ctx.relative_path@, ctx.language@)) } else { Seq::empty() })
            =~= views(out@));
        k = k + 1;
    }
}

fn collect_export(t: &SyntaxTree, e: usize, ctx: &AstFileContext, out: &mut Vec<AstRoute>)
    requires
        e < t@.len(),
    ensures
        views(final(out)@) == views(old(out)@) + export_routes(t@, e as int, child_count_of(t@, e as int), ctx.relative_path@, ctx.language@),
{
    t.wf();
    let node = t.node(e);
    let m = node.children.len();
    let ghost base = views(out@);
    let mut k: usize = 0;
    assert(base + export_routes(t@, e as int, 0, ctx.relative_path@, ctx.language@) =~= base);
    while k < m
        invariant
            tree_wf(t@),
            e < t@.len(),
            node == t@[e as int],
            m == child_count_of(t@, e as int),
            k <= m,
            views(out@) == base + export_routes(t@, e as int, k as int, ctx.relative_path@, ctx.language@),
        decreases m - k,
    {
        let c = node.children[k];
        assert(c as int == child_of(t@, e as int, k as int));
        let ghost before = views(out@);
        let ghost part = if kind_is(t@, c as int, "function_declaration"@) {
            opt_seq(function_route(t@, c as int, true, ctx.relative_path@, ctx.language@))
        } else if kind_is(t@, c as int, "lexical_declaration"@) {
            declarator_routes(t@, c as int, child_count_of(t@, c as int), ctx.relative_path@, ctx.language@)
        } else {
            Seq::empty()
        };
        if has_kind(t, c, "function_declaration") {
            let r = handler_route_of(t, c, "exported_function", "function_declaration", ctx);
            proof { reveal_strlit("exported_function"); reveal_strlit("function_declaration"); }
            push_opt(out, r);
        } else if has_kind(t, c, "lexical_declaration") {
            collect_declarators(t, c, ctx, out);
        }
        assert(before + part =~= views(out@));
        assert(base + export_routes(t@, e as int, k + 1, ctx.relative_path@, ctx.language@) =~= base + export_routes(t@, e as int, k as int, ctx.relative_path@, ctx.language@) + part);
        k = k + 1;
    }
}

struct NextJsVisitor<'a> {
    ctx: &'a AstFileContext,
}

impl<'a> NodeVisitor for NextJsVisitor<'a> {
    type Item = AstRoute;

    closed spec fn items_at(&self, t: Seq<SyntaxNode>, n: int) -> Seq<RouteView> {
        nextjs_item(t, self.ctx.relative_path@, self.ctx.language@)(n)
    }

    closed spec fn descends(&self, t: Seq<SyntaxNode>, n: int) -> bool {
        enters_node(t)(n)
    }

    fn visit(&self, t: &SyntaxTree, n: usize, out: &mut Vec<AstRoute>) {
        if has_kind(t, n, "export_statement") {
            collect_export(t, n, self.ctx, out);
        } else if has_kind(t, n, "function_declaration") {
            let r = handler_route_of(t, n, "function", "function_declaration", self.ctx);
            proof { reveal_strlit("function"); reveal_strlit("function_declaration"); }
            push_opt(out, r);
        } else if has_kind(t, n, "lexical_declaration") {
            collect_declarators(t, n, self.ctx, out);
        }
        assert(views(out@) =~= views(old(out)@) + self.items_at(t@, n as int));
    }

    fn enters(&self, t: &SyntaxTree, n: usize) -> (r: bool) {
        !(has_kind(t, n, "export_statement") || has_kind(t, n, "function_declaration") || has_kind(t, n, "lexical_declaration"))
    }
}

impl NextJsRouteDetector {
    /// The Next.js route handlers of a file, in pre-order: function declarations and
    /// variable declarators named `GET`, `POST`, `PUT`, `PATCH`, `DELETE`, `HEAD` or
    /// `OPTIONS`, exported or not; exports and declarations are read, not entered.
    pub fn find_routes(&self, ctx: &AstFileContext) -> (r: Vec<AstRoute>)
        ensures
            views(r@) == nextjs_routes(ctx.tree@, ctx.relative_path@, ctx.language@),
    {
        let v = NextJsVisitor { ctx };
        let r = collect_all(&v, &ctx.tree);
        assert(crate::visit::item_fn(&v, ctx.tree@) =~= nextjs_item(ctx.tree@, ctx.relative_path@, ctx.language@));
        assert(crate::visit::descend_fn(&v, ctx.tree@) =~= enters_node(ctx.tree@));
        r
    }
}

impl AstDetector<AstRoute> for NextJsRouteDetector {
    fn detect(&self, ctx: &AstFileContext) -> (r: Vec<AstRoute>)
        ensures
            views(r@) == nextjs_routes(ctx.tree@, ctx.relative_path@, ctx.language@),
    {
        self.find_routes(ctx)
    }
}

} // verus!
