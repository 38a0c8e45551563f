//! Django routes: `path(..)`, `re_path(..)` and `url(..)` calls with a string pattern.
use vstd::prelude::*;

use super::{AstRoute, RouteView};
use crate::frameworks::{AstDetector, AstFileContext, Confidence, evidence_list, node_evidence};
use crate::syntax::{
    SyntaxNode, SyntaxTree, child_by_field, child_with_kind_in, every_node, field_child,
    has_kind, kind_child_from, kind_is, node_range, node_range_spec, opt_seq, str_in, text_in,
    walk,
};
use crate::text::{CharSet, trim_set, trim_str};
use crate::visit::{NodeVisitor, collect_all, views};

verus! {

/// Detects Django URL patterns.
pub struct DjangoRouteDetector;

/// The functions that declare a URL pattern.
pub open spec fn url_functions() -> Seq<&'static str> {
    seq!["path", "re_path", "url"]
}

/// The Django route of call node `n`: a call of a URL function with a string argument,
/// whose first string argument, without quotes, is the path.
pub open spec fn django_route(t: Seq<SyntaxNode>, n: int, path: Seq<char>, language: Seq<char>) -> Option<RouteView> {
    match field_child(t, n, "function"@) {
        None => None,
        Some(f) => if !text_in(t[f].text@, url_functions()) {
            None
        } else {
            match field_child(t, n, "arguments"@) {
                None => None,
                Some(a) => match kind_child_from(t, a, 0, seq!["string"]) {
                    None => None,
                    Some(s) => Some(RouteView {
                        file_path: path,
                        language,
                        framework: "django"@,
                        method: None,
                        path: Some(trim_set(t[s].text@, CharSet::Quotes)),
                        handler_name: None,
                        handler_kind: None,
                        range: node_range_spec(t[n]),
                        path_range: None,
                        handler_range: None,
                        confidence: Confidence::Medium,
                        evidence: seq![node_evidence(t, n, "call"@)],
                    }),
                },
            }
        },
    }
}

/// What node `n` contributes: the route of a call, if it declares one.
pub open spec fn django_item(t: Seq<SyntaxNode>, path: Seq<char>, language: Seq<char>) -> spec_fn(int) -> Seq<RouteView> {
    |n: int| if kind_is(t, n, "call"@) { opt_seq(django_route(t, n, path, language)) } else { Seq::empty() }
}

/// The Django routes of a file, in pre-order.
pub open spec fn django_routes(t: Seq<SyntaxNode>, path: Seq<char>, language: Seq<char>) -> Seq<RouteView> {
    walk(t, 0, django_item(t, path, language), every_node())
}

fn extract_django_call(t: &SyntaxTree, n: usize, ctx: &AstFileContext) -> (r: Option<AstRoute>)
    requires
        n < t@.len(),
    ensures
        match r {
            Some(x) => django_route(t@, n as int, ctx.relative_path@, ctx.language@) == Some(x@),
            None => django_route(t@, n as int, ctx.relative_path@, ctx.language@) is None,
        },
{
    let f = match child_by_field(t, n, "function") {
        Some(f) => f,
        None => {
            return None;
        },
    };
    let fns: &[&str] = &["path", "re_path", "url"];
    assert(fns@ =~= url_functions());
    if !str_in(t.node(f).text.as_str(), fns) {
        return None;
    }
    let a = match child_by_field(t, n, "arguments") {
        Some(a) => a,
        None => {
            return None;
        },
    };
    let kinds: &[&str] = &["string"];
    assert(kinds@ =~= seq!["string"]);
    let s = match child_with_kind_in(t, a, kinds) {
        Some(s) => s,
        None => {
            return None;
        },
    };
    Some(AstRoute {
        file_path: ctx.relative_path.clone(),
        language: ctx.language.clone(),
        framework: "django".to_owned(),
        method: None,
        path: Some(trim_str(t.node(s).text.as_str(), CharSet::Quotes)),
        handler_name: None,
        handler_kind: None,
        range: node_range(t.node(n)),
        path_range: None,
        handler_range: None,
        confidence: Confidence::Medium,
        evidence: evidence_list(t, n, "call"),
    })
}

struct DjangoVisitor<'a> {
    ctx: &'a AstFileContext,
}

impl<'a> NodeVisitor for DjangoVisitor<'a> {
    type Item = AstRoute;

    closed spec fn items_at(&self, t: Seq<SyntaxNode>, n: int) -> Seq<RouteView> {
        django_item(t, self.ctx.relative_path@, self.ctx.language@)(n)
    }

    closed spec fn descends(&self, t: Seq<SyntaxNode>, n: int) -> bool {
        true
    }

    fn visit(&self, t: &SyntaxTree, n: usize, out: &mut Vec<AstRoute>) {
        if has_kind(t, n, "call") {
            if let Some(r) = extract_django_call(t, n, self.ctx) {
                out.push(r);
            }
        }
        assert(views(out@) =~= views(old(out)@) + self.items_at(t@, n as int));
    }

    fn enters(&self, t: &SyntaxTree, n: usize) -> (r: bool) {
        true
    }
}

impl DjangoRouteDetector {
    /// The Django routes of a file, in pre-order: calls of `path`, `re_path` or `url`
    /// with a string argument.
    pub fn find_routes(&self, ctx: &AstFileContext) -> (r: Vec<AstRoute>)
        ensures
            views(r@) == django_routes(ctx.tree@, ctx.relative_path@, ctx.language@),
    {
        let v = DjangoVisitor { ctx };
        let r = collect_all(&v, &ctx.tree);
        assert(crate::visit::item_fn(&v, ctx.tree@) =~= django_item(ctx.tree@, ctx.relative_path@, ctx.language@));
        assert(crate::visit::descend_fn(&v, ctx.tree@) =~= every_node());
        r
    }
}

impl AstDetector<AstRoute> for DjangoRouteDetector {
    fn detect(&self, ctx: &AstFileContext) -> (r: Vec<AstRoute>)
        ensures
            views(r@) == django_routes(ctx.tree@, ctx.relative_path@, ctx.language@),
    {
        self.find_routes(ctx)
    }
}

} // verus!
