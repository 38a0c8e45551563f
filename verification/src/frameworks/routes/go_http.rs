//! Go `net/http` routes: `http.HandleFunc("/path", ..)` and `mux.Handle("/path", ..)`.
use vstd::prelude::*;

use super::{AstRoute, RouteView};
use crate::frameworks::{AstDetector, AstFileContext, Confidence, evidence_list, node_evidence};
use crate::syntax::{
    SyntaxNode, SyntaxTree, child_by_field, child_with_kind_in, every_node, field_child,
    has_kind, kind_child_from, kind_is, node_range, node_range_spec, opt_seq, walk,
};
use crate::text::{CharSet, lowercase, str_eq, to_lowercase_text, trim_set, trim_str};
use crate::visit::{NodeVisitor, collect_all, views};

verus! {

/// Detects Go `net/http` handler registrations.
pub struct GoHttpRouteDetector;

/// The kinds of a Go string literal.
pub open spec fn go_string_kinds() -> Seq<&'static str> {
    seq!["interpreted_string_literal", "raw_string_literal"]
}

/// The route registered by call node `n`: a `.HandleFunc` or `.Handle` selector call
/// with a string argument, whose first string argument, without double quotes, is the
/// path; the method is the selector's name in lowercase.
pub open spec fn go_route(t: Seq<SyntaxNode>, n: int, path: Seq<char>, language: Seq<char>) -> Option<RouteView> {
    match field_child(t, n, "function"@) {
        None => None,
        Some(f) => if !kind_is(t, f, "selector_expression"@) {
            None
        } else {
            match field_child(t, f, "field"@) {
                None => None,
                Some(fd) => if t[fd].text@ != "HandleFunc"@ && t[fd].text@ != "Handle"@ {
                    None
                } else {
                    match field_child(t, n, "arguments"@) {
                        None => None,
                        Some(a) => match kind_child_from(t, a, 0, go_string_kinds()) {
                            None => None,
                            Some(s) => Some(RouteView {
                                file_path: path,
                                language,
                                framework: "go_http"@,
                                method: Some(lowercase(t[fd].text@)),
                                path: Some(trim_set(t[s].text@, CharSet::DoubleQuote)),
                                handler_name: None,
                                handler_kind: None,
                                range: node_range_spec(t[n]),
                                path_range: None,
                                handler_range: None,
                                confidence: Confidence::Medium,
                                evidence: seq![node_evidence(t, n, "call_expression"@)],
                            }),
                        },
                    }
                },
            }
        },
    }
}

/// What node `n` contributes: the route of a call expression, if it registers one.
pub open spec fn go_item(t: Seq<SyntaxNode>, path: Seq<char>, language: Seq<char>) -> spec_fn(int) -> Seq<RouteView> {
    |n: int| if kind_is(t, n, "call_expression"@) { opt_seq(go_route(t, n, path, language)) } else { Seq::empty() }
}

/// The Go `net/http` routes of a file, in pre-order.
pub open spec fn go_routes(t: Seq<SyntaxNode>, path: Seq<char>, language: Seq<char>) -> Seq<RouteView> {
    walk(t, 0, go_item(t, path, language), every_node())
}

fn extract_go_handle_func(t: &SyntaxTree, n: usize, ctx: &AstFileContext) -> (r: Option<AstRoute>)
    requires
        n < t@.len(),
    ensures
        match r {
            Some(x) => go_route(t@, n as int, ctx.relative_path@, ctx.language@) == Some(x@),
            None => go_route(t@, n as int, ctx.relative_path@, ctx.language@) is None,
        },
{
    let f = match child_by_field(t, n, "function") {
        Some(f) => f,
        None => {
            return None;
        },
    };
    if !has_kind(t, f, "selector_expression") {
        return None;
    }
    let fd = match child_by_field(t, f, "field") {
        Some(fd) => fd,
        None => {
            return None;
        },
    };
    let method = t.node(fd).text.as_str();
    if !str_eq(method, "HandleFunc") && !str_eq(method, "Handle") {
        return None;
    }
    let a = match child_by_field(t, n, "arguments") {
        Some(a) => a,
        None => {
            return None;
        },
    };
    let kinds: &[&str] = &["interpreted_string_literal", "raw_string_literal"];
    assert(kinds@ =~= go_string_kinds());
    let s = match child_with_kind_in(t, a, kinds) {
        Some(s) => s,
        None => {
            return None;
        },
    };
    Some(AstRoute {
        file_path: ctx.relative_path.clone(),
        language: ctx.language.clone(),
        framework: "go_http".to_owned(),
        method: Some(to_lowercase_text(method)),
        path: Some(trim_str(t.node(s).text.as_str(), CharSet::DoubleQuote)),
        handler_name: None,
        handler_kind: None,
        range: node_range(t.node(n)),
        path_range: None,
        handler_range: None,
        confidence: Confidence::Medium,
        evidence: evidence_list(t, n, "call_expression"),
    })
}

struct GoHttpVisitor<'a> {
    ctx: &'a AstFileContext,
}

impl<'a> NodeVisitor for GoHttpVisitor<'a> {
    type Item = AstRoute;

    closed spec fn items_at(&self, t: Seq<SyntaxNode>, n: int) -> Seq<RouteView> {
        go_item(t, self.ctx.relative_path@, self.ctx.language@)(n)
    }

    closed spec fn descends(&self, t: Seq<SyntaxNode>, n: int) -> bool {
        true
    }

    fn visit(&self, t: &SyntaxTree, n: usize, out: &mut Vec<AstRoute>) {
        if has_kind(t, n, "call_expression") {
            if let Some(r) = extract_go_handle_func(t, n, self.ctx) {
                out.push(r);
            }
        }
        assert(views(out@) =~= views(old(out)@) + self.items_at(t@, n as int));
    }

    fn enters(&self, t: &SyntaxTree, n: usize) -> (r: bool) {
        true
    }
}

impl GoHttpRouteDetector {
    /// The Go `net/http` routes of a file, in pre-order.
    pub fn find_routes(&self, ctx: &AstFileContext) -> (r: Vec<AstRoute>)
        ensures
            views(r@) == go_routes(ctx.tree@, ctx.relative_path@, ctx.language@),
    {
        let v = GoHttpVisitor { ctx };
        let r = collect_all(&v, &ctx.tree);
        assert(crate::visit::item_fn(&v, ctx.tree@) =~= go_item(ctx.tree@, ctx.relative_path@, ctx.language@));
        assert(crate::visit::descend_fn(&v, ctx.tree@) =~= every_node());
        r
    }
}

impl AstDetector<AstRoute> for GoHttpRouteDetector {
    fn detect(&self, ctx: &AstFileContext) -> (r: Vec<AstRoute>)
        ensures
            views(r@) == go_routes(ctx.tree@, ctx.relative_path@, ctx.language@),
    {
        self.find_routes(ctx)
    }
}

} // verus!
