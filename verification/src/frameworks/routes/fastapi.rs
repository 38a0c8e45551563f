//! FastAPI routes: `@app.get('/path')` and `@router.post('/path')` decorators.
use vstd::prelude::*;

use super::{AstRoute, RouteView};
use crate::extractors::{extract_field_text, field_text};
use crate::frameworks::{
    AstDetector, AstFileContext, Confidence, decorated_definition, decorated_definition_of,
    evidence_list, node_evidence,
};
use crate::shared::opt_text;
use crate::syntax::{SyntaxNode, SyntaxTree, has_kind, kind_is, node_range, node_range_spec, opt_seq, str_in, text_in, walk};
use crate::text::{
    CharSet, chars_contain, chars_of, contains_seq, find_any, find_any_char, lemma_find_any,
    lowercase, rfind_char, rfind_chars, string_bytes, string_from_chars, to_lowercase_text,
    trim_chars, trim_set, trim_start_chars, trim_start_set,
};
use crate::visit::{NodeVisitor, collect_all, views};

verus! {

/// Detects FastAPI routes.
pub struct FastApiRouteDetector;

/// The decorator names that register a route.
pub open spec fn fastapi_methods() -> Seq<&'static str> {
    seq!["get", "post", "put", "patch", "delete", "head", "options"]
}

/// The path of a decorator call whose text after the first `(` is `inner`: the text up to
/// the last `)`, without surrounding whitespace, when it is at least two bytes long, then
/// without quotes, when something is left.
pub open spec fn fastapi_path(inner: Seq<char>) -> Option<Seq<char>> {
    let end = match rfind_char(inner, ')') { Some(e) => e, None => inner.len() as int };
    let arg = trim_set(inner.take(end), CharSet::Whitespace);
    if string_bytes(arg).len() >= 2 && trim_set(arg, CharSet::Quotes).len() > 0 {
        Some(trim_set(arg, CharSet::Quotes))
    } else {
        None
    }
}

/// The FastAPI route of decorator node `n`: its text without leading `@`s has an object
/// before the first `.`, and after it an HTTP method name (compared in lowercase) up to
/// the first `(`, if any.
pub open spec fn fastapi_route(t: Seq<SyntaxNode>, n: int, path: Seq<char>, language: Seq<char>) -> Option<RouteView> {
    let body = trim_start_set(t[n].text@, CharSet::At);
    match find_any(body, seq!['.']) {
        None => None,
        Some(dot) => {
            let rest = body.skip(dot + 1);
            let paren = find_any(rest, seq!['(']);
            let method = lowercase(match paren { Some(p) => rest.take(p), None => rest });
            if !text_in(method, fastapi_methods()) {
                None
            } else {
                let d = decorated_definition(t, n);
                Some(RouteView {
                    file_path: path,
                    language,
                    framework: if contains_seq(body.take(dot), "router"@) { "fastapi_router"@ } else { "fastapi"@ },
                    method: Some(method),
                    path: match paren { Some(p) => fastapi_path(rest.skip(p + 1)), None => None },
                    handler_name: match d { Some(x) => field_text(t, x, "name"@), None => None },
                    handler_kind: match d { Some(x) => Some(t[x].kind@), None => None },
                    range: node_range_spec(t[n]),
                    path_range: None,
                    handler_range: match d { Some(x) => Some(node_range_spec(t[x])), None => None },
                    confidence: Confidence::High,
                    evidence: seq![node_evidence(t, n, "decorator"@)],
                })
            }
        },
    }
}

/// What node `n` contributes: the route of a decorator.
pub open spec fn fastapi_item(t: Seq<SyntaxNode>, path: Seq<char>, language: Seq<char>) -> spec_fn(int) -> Seq<RouteView> {
    |n: int| if kind_is(t, n, "decorator"@) { opt_seq(fastapi_route(t, n, path, language)) } else { Seq::empty() }
}

/// The walk enters every node but decorators.
pub open spec fn not_decorator(t: Seq<SyntaxNode>) -> spec_fn(int) -> bool {
    |n: int| !kind_is(t, n, "decorator"@)
}

/// The FastAPI routes of a file, in pre-order (decorators are not entered).
pub open spec fn fastapi_routes(t: Seq<SyntaxNode>, path: Seq<char>, language: Seq<char>) -> Seq<RouteView> {
    walk(t, 0, fastapi_item(t, path, language), not_decorator(t))
}

fn path_of(inner: &[char]) -> (r: Option<String>)
    ensures
        opt_text(r) == fastapi_path(inner@),
{
    let end = match rfind_chars(inner, ')') {
        Some(e) => e,
        None => inner.len(),
    };
    let head = vstd::slice::slice_subrange(inner, 0, end);
    assert(head@ =~= inner@.take(end as int));
    let arg = trim_chars(head, CharSet::Whitespace);
    let arg_text = string_from_chars(arg.as_slice());
    let arg_len = arg_text.as_str().as_bytes().len();
    let trimmed = trim_chars(arg.as_slice(), CharSet::Quotes);
    if arg_len >= 2 && trimmed.len() > 0 {
        Some(string_from_chars(trimmed.as_slice()))
    } else {
        None
    }
}

#[verifier::rlimit(30)]
fn extract_fastapi_decorator(t: &SyntaxTree, n: usize, ctx: &AstFileContext) -> (r: Option<AstRoute>)
    requires
        n < t@.len(),
    ensures
        match r {
            Some(x) => fastapi_route(t@, n as int, ctx.relative_path@, ctx.language@) == Some(x@),
            None => fastapi_route(t@, n as int, ctx.relative_path@, ctx.language@) is None,
        },
{
    let chars = chars_of(t.node(n).text.as_str());
    let body = trim_start_chars(chars.as_slice(), CharSet::At);
    let len = body.len();
    let dots: &[char] = &['.'];
    assert(dots@ =~= seq!['.']);
    let dot = match find_any_char(body.as_slice(), dots) {
        Some(dot) => dot,
        None => {
            return None;
        },
    };
    let rest = vstd::slice::slice_subrange(body.as_slice(), dot + 1, len);
    assert(rest@ =~= body@.skip(dot + 1));
    let parens: &[char] = &['('];
    assert(parens@ =~= seq!['(']);
    let paren = find_any_char(rest, parens);
    let name = match paren {
        Some(p) => vstd::slice::slice_subrange(rest, 0, p),
        None => rest,
    };
    assert(name@ == (match find_any(rest@, seq!['(']) { Some(p) => rest@.take(p), None => rest@ }));
    let method = to_lowercase_text(string_from_chars(name).as_str());
    let methods: &[&str] = &["get", "post", "put", "patch", "delete", "head", "options"];
    assert(methods@ =~= fastapi_methods());
    if !str_in(method.as_str(), methods) {
        return None;
    }
    let path = match paren {
        Some(p) => {
            let inner = vstd::slice::slice_subrange(rest, p + 1, rest.len());
            assert(inner@ =~= rest@.skip(p + 1));
            path_of(inner)
        },
        None => None,
    };
    let object = vstd::slice::slice_subrange(body.as_slice(), 0, dot);
    assert(object@ =~= body@.take(dot as int));
    let router = chars_of("router");
    let framework = if chars_contain(object, router.as_slice()) {
        "fastapi_router".to_owned()
    } else {
        "fastapi".to_owned()
    };
    let d = decorated_definition_of(t, n);
    let (handler_name, handler_kind, handler_range) = match d {
        Some(x) => (extract_field_text(t, x, "name"), Some(t.node(x).kind.clone()), Some(node_range(t.node(x)))),
        None => (None, None, None),
    };
    Some(AstRoute {
        file_path: ctx.relative_path.clone(),
        language: ctx.language.clone(),
        framework,
        method: Some(method),
        path,
        handler_name,
        handler_kind,
        range: node_range(t.node(n)),
        path_range: None,
        handler_range,
        confidence: Confidence::High,
        evidence: evidence_list(t, n, "decorator"),
    })
}

struct FastApiVisitor<'a> {
    ctx: &'a AstFileContext,
}

impl<'a> NodeVisitor for FastApiVisitor<'a> {
    type Item = AstRoute;

    closed spec fn items_at(&self, t: Seq<SyntaxNode>, n: int) -> Seq<RouteView> {
        fastapi_item(t, self.ctx.relative_path@, self.ctx.language@)(n)
    }

    closed spec fn descends(&self, t: Seq<SyntaxNode>, n: int) -> bool {
        not_decorator(t)(n)
    }

    fn visit(&self, t: &SyntaxTree, n: usize, out: &mut Vec<AstRoute>) {
        if has_kind(t, n, "decorator") {
            if let Some(r) = extract_fastapi_decorator(t, n, self.ctx) {
                out.push(r);
            }
        }
        assert(views(out@) =~= views(old(out)@) + self.items_at(t@, n as int));
    }

    fn enters(&self, t: &SyntaxTree, n: usize) -> (r: bool) {
        !has_kind(t, n, "decorator")
    }
}

impl FastApiRouteDetector {
    /// The FastAPI routes of a file, in pre-order (decorators are not entered): decorators
    /// such as `@app.get('/path')`; the framework is `fastapi_router` when the object
    /// before the first `.` mentions `router`.
    pub fn find_routes(&self, ctx: &AstFileContext) -> (r: Vec<AstRoute>)
        ensures
            views(r@) == fastapi_routes(ctx.tree@, ctx.relative_path@, ctx.language@),
    {
        let v = FastApiVisitor { ctx };
        let r = collect_all(&v, &ctx.tree);
        assert(crate::visit::item_fn(&v, ctx.tree@) =~= fastapi_item(ctx.tree@, ctx.relative_path@, ctx.language@));
        assert(crate::visit::descend_fn(&v, ctx.tree@) =~= not_decorator(ctx.tree@));
        r
    }
}

impl AstDetector<AstRoute> for FastApiRouteDetector {
    fn detect(&self, ctx: &AstFileContext) -> (r: Vec<AstRoute>)
        ensures
            views(r@) == fastapi_routes(ctx.tree@, ctx.relative_path@, ctx.language@),
    {
        self.find_routes(ctx)
    }
}

} // verus!
