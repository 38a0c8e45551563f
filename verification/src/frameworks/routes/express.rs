//! Express-style routes: `app.get('/path', handler)` member calls, and
//! `server.route({ method, url, handler })` route objects (Express, Fastify, Hono).
use vstd::prelude::*;

use super::{AstRoute, RouteView};
use crate::frameworks::{AstDetector, AstFileContext, Confidence, evidence_list, node_evidence};
use crate::shared::opt_text;
use crate::syntax::{
    SyntaxNode, SyntaxTree, child_by_field, child_count_of, child_of, child_with_kind_in,
    every_node, field_child, has_kind, kind_child_from, kind_is, named_child_at, node_range,
    node_range_spec, nth_named_child, opt_seq, str_in, text_in, tree_wf, walk,
};
use crate::text::{CharSet, contains_seq, lowercase, str_contains, str_eq, to_lowercase_text, trim_set, trim_str};
use crate::visit::{NodeVisitor, collect_all, views, visit_walk};

verus! {

/// Detects Express, Fastify and Hono routes.
pub struct ExpressRouteDetector;

/// The member names that register a route, in lowercase.
pub open spec fn express_methods() -> Seq<&'static str> {
    seq!["get", "post", "put", "patch", "delete", "head", "options", "all", "use"]
}

/// The kinds of a path argument.
pub open spec fn js_string_kinds() -> Seq<&'static str> {
    seq!["string", "template_string"]
}

/// The framework a member call belongs to, by the text of the object it is called on.
pub open spec fn express_framework(t: Seq<SyntaxNode>, f: int) -> Seq<char> {
    match field_child(t, f, "object"@) {
        Some(o) => if contains_seq(t[o].text@, "fastify"@) {
            "fastify"@
        } else if contains_seq(t[o].text@, "hono"@) || t[o].text@ == "c"@ {
            "hono"@
        } else {
            "express"@
        },
        None => "express"@,
    }
}

/// The `method`, `url`/`path` and `handler` entries among the first `j` children of
/// object node `x`; a later entry replaces an earlier one.
pub open spec fn object_fields(t: Seq<SyntaxNode>, x: int, j: int) -> (Option<Seq<char>>, Option<Seq<char>>, Option<Seq<char>>)
    decreases j,
{
    if 0 < j <= child_count_of(t, x) {
        let prev = object_fields(t, x, j - 1);
        let p = child_of(t, x, j - 1);
        if kind_is(t, p, "pair"@) {
            match field_child(t, p, "key"@) {
                Some(k) => match field_child(t, p, "value"@) {
                    Some(v) => {
                        let key = trim_set(t[k].text@, CharSet::QuotesOrBacktick);
                        let value = trim_set(t[v].text@, CharSet::QuotesOrBacktick);
                        if key == "method"@ {
                            (Some(lowercase(value)), prev.1, prev.2)
                        } else if key == "url"@ || key == "path"@ {
                            (prev.0, Some(value), prev.2)
                        } else if key == "handler"@ {
                            (prev.0, prev.1, Some(t[v].text@))
                        } else {
                            prev
                        }
                    },
                    None => prev,
                },
                None => prev,
            }
        } else {
            prev
        }
    } else {
        (None, None, None)
    }
}

/// The route of the first object argument, from position `k` of argument list `a` on,
/// that has both a method and a path.
pub open spec fn route_object_from(t: Seq<SyntaxNode>, n: int, a: int, k: int, path: Seq<char>, language: Seq<char>) -> Option<RouteView>
    decreases child_count_of(t, a) - k,
{
    if 0 <= k < child_count_of(t, a) {
        let x = child_of(t, a, k);
        let fields = object_fields(t, x, child_count_of(t, x));
        if kind_is(t, x, "object"@) && fields.0 is Some && fields.1 is Some {
            Some(RouteView {
                file_path: path,
                language,
                framework: "express"@,
                method: fields.0,
                path: fields.1,
                handler_name: fields.2,
                handler_kind: None,
                range: node_range_spec(t[n]),
                path_range: None,
                handler_range: None,
                confidence: Confidence::High,
                evidence: seq![node_evidence(t, n, "route_object"@)],
            })
        } else {
            route_object_from(t, n, a, k + 1, path, language)
        }
    } else {
        None
    }
}

/// The route registered by call node `n`, if any.
pub open spec fn express_route(t: Seq<SyntaxNode>, n: int, path: Seq<char>, language: Seq<char>) -> Option<RouteView> {
    match field_child(t, n, "function"@) {
        None => None,
        Some(f) => if !kind_is(t, f, "member_expression"@) {
            None
        } else {
            match field_child(t, f, "property"@) {
                None => None,
                Some(p) => {
                    let method = lowercase(t[p].text@);
                    if text_in(method, express_methods()) {
                        match field_child(t, n, "arguments"@) {
                            None => None,
                            Some(a) => match kind_child_from(t, a, 0, js_string_kinds()) {
                                None => None,
                                Some(s) => {
                                    let h = named_child_at(t, a, 0, 1);
                                    Some(RouteView {
                                        file_path: path,
                                        language,
                                        framework: express_framework(t, f),
                                        method: Some(method),
                                        path: Some(trim_set(t[s].text@, CharSet::QuotesOrBacktick)),
                                        handler_name: match h { Some(x) => Some(t[x].text@), None => None },
                                        handler_kind: None,
                                        range: node_range_spec(t[n]),
                                        path_range: Some(node_range_spec(t[s])),
                                        handler_range: match h { Some(x) => Some(node_range_spec(t[x])), None => None },
                                        confidence: Confidence::High,
                                        evidence: seq![node_evidence(t, n, "member_expression_call"@)],
                                    })
                                },
                            },
                        }
                    } else if method == "route"@ {
                        match field_child(t, n, "arguments"@) {
                            None => None,
                            Some(a) => route_object_from(t, n, a, 0, path, language),
                        }
                    } else {
                        None
                    }
                },
            }
        },
    }
}

/// What node `n` contributes: the route of a call expression, if it registers one.
pub open spec fn express_item(t: Seq<SyntaxNode>, path: Seq<char>, language: Seq<char>) -> spec_fn(int) -> Seq<RouteView> {
    |n: int| if kind_is(t, n, "call_expression"@) { opt_seq(express_route(t, n, path, language)) } else { Seq::empty() }
}

/// The Express-style routes of a file, in pre-order.
pub open spec fn express_routes(t: Seq<SyntaxNode>, path: Seq<char>, language: Seq<char>) -> Seq<RouteView> {
    walk(t, 0, express_item(t, path, language), every_node())
}

fn detect_express_framework(t: &SyntaxTree, f: usize) -> (r: String)
    requires
        f < t@.len(),
    ensures
        r@ == express_framework(t@, f as int),
{
    match child_by_field(t, f, "object") {
        Some(o) => {
            let text = t.node(o).text.as_str();
            if str_contains(text, "fastify") {
                "fastify".to_owned()
            } else if str_contains(text, "hono") || str_eq(text, "c") {
                "hono".to_owned()
            } else {
                "express".to_owned()
            }
        },
        None => "express".to_owned(),
    }
}

fn fields_of_object(t: &SyntaxTree, x: usize) -> (r: (Option<String>, Option<String>, Option<String>))
    requires
        x < t@.len(),
    ensures
        (opt_text(r.0), opt_text(r.1), opt_text(r.2)) == object_fields(t@, x as int, child_count_of(t@, x as int)),
{
    t.wf();
    let node = t.node(x);
    let m = node.children.len();
    let mut method: Option<String> = None;
    let mut path: Option<String> = None;
    let mut handler: Option<String> = None;
    let mut j: usize = 0;
    while j < m
        invariant
            tree_wf(t@),
            x < t@.len(),
            node == t@[x as int],
            m == child_count_of(t@, x as int),
            j <= m,
            (opt_text(method), opt_text(path), opt_text(handler)) == object_fields(t@, x as int, j as int),
        decreases m - j,
    {
        let p = node.children[j];
        assert(p as int == child_of(t@, x as int, j as int));
        if has_kind(t, p, "pair") {
            if let Some(k) = child_by_field(t, p, "key") {
                if let Some(v) = child_by_field(t, p, "value") {
                    let key = trim_str(t.node(k).text.as_str(), CharSet::QuotesOrBacktick);
                    let value = trim_str(t.node(v).text.as_str(), CharSet::QuotesOrBacktick);
                    if str_eq(key.as_str(), "method") {
                        method = Some(to_lowercase_text(value.as_str()));
                    } else if str_eq(key.as_str(), "url") || str_eq(key.as_str(), "path") {
                        path = Some(value);
                    } else if str_eq(key.as_str(), "handler") {
                        handler = Some(t.node(v).text.clone());
                    }
                }
            }
        }
        j = j + 1;
    }
    (method, path, handler)
}

fn extract_route_object_call(t: &SyntaxTree, n: usize, a: usize, ctx: &AstFileContext) -> (r: Option<AstRoute>)
    requires
        n < t@.len(),
        a < t@.len(),
    ensures
        match r {
            Some(x) => route_object_from(t@, n as int, a as int, 0, ctx.relative_path@, ctx.language@) == Some(x@),
            None => route_object_from(t@, n as int, a as int, 0, ctx.relative_path@, ctx.language@) is None,
        },
{
    t.wf();
    let args = t.node(a);
    let m = args.children.len();
    let mut k: usize = 0;
    while k < m
        invariant
            tree_wf(t@),
            n < t@.len(),
            a < t@.len(),
            args == t@[a as int],
            m == child_count_of(t@, a as int),
            k <= m,
            route_object_from(t@, n as int, a as int, 0, ctx.relative_path@, ctx.language@)
                == route_object_from(t@, n as int, a as int, k as int, ctx.relative_path@, ctx.language@),
        decreases m - k,
    {
        let x = args.children[k];
        assert(x as int == child_of(t@, a as int, k as int));
        if has_kind(t, x, "object") {
            let (method, path, handler) = fields_of_object(t, x);
            if method.is_some() && path.is_some() {
                return Some(AstRoute {
                    file_path: ctx.relative_path.clone(),
                    language: ctx.language.clone(),
                    framework: "express".to_owned(),
                    method,
                    path,
                    handler_name: handler,
                    handler_kind: None,
                    range: node_range(t.node(n)),
                    path_range: None,
                    handler_range: None,
                    confidence: Confidence::High,
                    evidence: evidence_list(t, n, "route_object"),
                });
            }
        }
        k = k + 1;
    }
    None
}

fn extract_express_call(t: &SyntaxTree, n: usize, ctx: &AstFileContext) -> (r: Option<AstRoute>)
    requires
        n < t@.len(),
    ensures
        match r {
            Some(x) => express_route(t@, n as int, ctx.relative_path@, ctx.language@) == Some(x@),
            None => express_route(t@, n as int, ctx.relative_path@, ctx.language@) is None,
        },
{
    let f = match child_by_field(t, n, "function") {
        Some(f) => f,
        None => {
            return None;
        },
    };
    if !has_kind(t, f, "member_expression") {
        return None;
    }
    let p = match child_by_field(t, f, "property") {
        Some(p) => p,
        None => {
            return None;
        },
    };
    let method = to_lowercase_text(t.node(p).text.as_str());
    let methods: &[&str] = &["get", "post", "put", "patch", "delete", "head", "options", "all", "use"];
    assert(methods@ =~= express_methods());
    if str_in(method.as_str(), methods) {
        let a = match child_by_field(t, n, "arguments") {
            Some(a) => a,
            None => {
                return None;
            },
        };
        let kinds: &[&str] = &["string", "template_string"];
        assert(kinds@ =~= js_string_kinds());
        let s = match child_with_kind_in(t, a, kinds) {
            Some(s) => s,
            None => {
                return None;
            },
        };
        let h = nth_named_child(t, a, 1);
        let (handler_name, handler_range) = match h {
            Some(x) => (Some(t.node(x).text.clone()), Some(node_range(t.node(x)))),
            None => (None, None),
        };
        return Some(AstRoute {
            file_path: ctx.relative_path.clone(),
            language: ctx.language.clone(),
            framework: detect_express_framework(t, f),
            method: Some(method),
            path: Some(trim_str(t.node(s).text.as_str(), CharSet::QuotesOrBacktick)),
            handler_name,
            handler_kind: None,
            range: node_range(t.node(n)),
            path_range: Some(node_range(t.node(s))),
            handler_range,
            confidence: Confidence::High,
            evidence: evidence_list(t, n, "member_expression_call"),
        });
    }
    if str_eq(method.as_str(), "route") {
        let a = match child_by_field(t, n, "arguments") {
            Some(a) => a,
            None => {
                return None;
            },
        };
        return extract_route_object_call(t, n, a, ctx);
    }
    None
}

struct ExpressVisitor<'a> {
    ctx: &'a AstFileContext,
}

impl<'a> NodeVisitor for ExpressVisitor<'a> {
    type Item = AstRoute;

    closed spec fn items_at(&self, t: Seq<SyntaxNode>, n: int) -> Seq<RouteView> {
        express_item(t, self.ctx.relative_path@, self.ctx.language@)(n)
    }

    closed spec fn descends(&self, t: Seq<SyntaxNode>, n: int) -> bool {
        true
    }

    fn visit(&self, t: &SyntaxTree, n: usize, out: &mut Vec<AstRoute>) {
        if has_kind(t, n, "call_expression") {
            if let Some(r) = extract_express_call(t, n, self.ctx) {
                out.push(r);
            }
        }
        assert(views(out@) =~= views(old(out)@) + self.items_at(t@, n as int));
    }

    fn enters(&self, t: &SyntaxTree, n: usize) -> (r: bool) {
        true
    }
}

impl ExpressRouteDetector {
    /// The Express-style routes of a file, in pre-order: member calls such as
    /// `app.get('/path', handler)` whose member is an HTTP method (or `all`, `use`), with
    /// a string path argument; and `.route({ method, url, handler })` calls.
    pub fn find_routes(&self, ctx: &AstFileContext) -> (r: Vec<AstRoute>)
        ensures
            views(r@) == express_routes(ctx.tree@, ctx.relative_path@, ctx.language@),
    {
        let v = ExpressVisitor { ctx };
        let r = collect_all(&v, &ctx.tree);
        assert(crate::visit::item_fn(&v, ctx.tree@) =~= express_item(ctx.tree@, ctx.relative_path@, ctx.language@));
        assert(crate::visit::descend_fn(&v, ctx.tree@) =~= every_node());
        r
    }
}

impl AstDetector<AstRoute> for ExpressRouteDetector {
    fn detect(&self, ctx: &AstFileContext) -> (r: Vec<AstRoute>)
        ensures
            views(r@) == express_routes(ctx.tree@, ctx.relative_path@, ctx.language@),
    {
        self.find_routes(ctx)
    }
}

/// Whether `m` is a member name that registers a route: an HTTP method (`get`, `post`,
/// `put`, `patch`, `delete`, `head`, `options`), `all` or `use`.
pub open spec fn route_verb(m: Seq<char>) -> bool {
    ||| m == "get"@
    ||| m == "post"@
    ||| m == "put"@
    ||| m == "patch"@
    ||| m == "delete"@
    ||| m == "head"@
    ||| m == "options"@
    ||| m == "all"@
    ||| m == "use"@
}

proof fn lemma_string_child_found(t: Seq<SyntaxNode>, a: int, k: int, j: int)
    requires
        0 <= k <= j < child_count_of(t, a),
        kind_is(t, child_of(t, a, j), "string"@) || kind_is(t, child_of(t, a, j), "template_string"@),
    ensures
        kind_child_from(t, a, k, js_string_kinds()) is Some,
    decreases j - k,
{
    let ks = js_string_kinds();
    if !crate::syntax::kind_in(t, child_of(t, a, k), ks) {
        if k == j {
            assert(ks[0] == "string" && ks[1] == "template_string");
            if kind_is(t, child_of(t, a, j), "string"@) {
                assert(t[child_of(t, a, j)].kind@ == ks[0]@);
            } else {
                assert(t[child_of(t, a, j)].kind@ == ks[1]@);
            }
        }
        lemma_string_child_found(t, a, k + 1, j);
    }
}

/// A call `obj.m(..)` whose member name `m`, lowercased, is an HTTP method (or `all`,
/// `use`) and whose arguments hold a string or template string registers exactly one
/// route, with method `m` and a path: for any such call node of any tree.
pub proof fn law_express_method_route(t: Seq<SyntaxNode>, n: int, f: int, p: int, a: int, j: int, path: Seq<char>, language: Seq<char>)
    requires
        kind_is(t, n, "call_expression"@),
        field_child(t, n, "function"@) == Some(f),
        kind_is(t, f, "member_expression"@),
        field_child(t, f, "property"@) == Some(p),
        route_verb(lowercase(t[p].text@)),
        field_child(t, n, "arguments"@) == Some(a),
        0 <= j < child_count_of(t, a),
        kind_is(t, child_of(t, a, j), "string"@) || kind_is(t, child_of(t, a, j), "template_string"@),
    ensures
        express_item(t, path, language)(n).len() == 1,
        express_route(t, n, path, language) matches Some(r) && r.path is Some && r.method == Some(lowercase(t[p].text@)),
{
    let m = lowercase(t[p].text@);
    let ms = express_methods();
    assert(ms[0] == "get" && ms[1] == "post" && ms[2] == "put" && ms[3] == "patch" && ms[4] == "delete");
    assert(ms[5] == "head" && ms[6] == "options" && ms[7] == "all" && ms[8] == "use");
    assert(text_in(m, ms)) by {
        if m == "get"@ { assert(m == ms[0]@); }
        else if m == "post"@ { assert(m == ms[1]@); }
        else if m == "put"@ { assert(m == ms[2]@); }
        else if m == "patch"@ { assert(m == ms[3]@); }
        else if m == "delete"@ { assert(m == ms[4]@); }
        else if m == "head"@ { assert(m == ms[5]@); }
        else if m == "options"@ { assert(m == ms[6]@); }
        else if m == "all"@ { assert(m == ms[7]@); }
        else { assert(m == ms[8]@); }
    }
    lemma_string_child_found(t, a, 0, j);
}

} // verus!
