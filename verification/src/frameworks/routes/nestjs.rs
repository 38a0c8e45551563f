//! NestJS routes: `@Get()`-style method decorators under a `@Controller()` prefix.
use vstd::prelude::*;

use super::{AstRoute, RouteView, route_view, routes_view};
use crate::frameworks::{AstDetector, AstFileContext, Confidence, evidence_list, node_evidence};
use crate::syntax::{
    SyntaxNode, SyntaxTree, child_by_field, child_count_of, child_of, field_child, has_kind,
    kind_is, node_range, node_range_spec, parent_of, tree_wf,
};
use crate::text::{
    CharSet, chars_of, concat2, concat3, str_eq, string_from_chars, trim_chars, trim_end_chars,
    trim_end_set, trim_set, trim_start_chars, trim_start_set,
};

verus! {

/// Detects NestJS routes.
pub struct NestJsRouteDetector;

/// The decorator names of NestJS HTTP methods and the methods they stand for.
pub open spec fn nest_method(name: Seq<char>) -> Option<Seq<char>> {
    if name == "Get"@ { Some("get"@) }
    else if name == "Post"@ { Some("post"@) }
    else if name == "Put"@ { Some("put"@) }
    else if name == "Patch"@ { Some("patch"@) }
    else if name == "Delete"@ { Some("delete"@) }
    else if name == "Head"@ { Some("head"@) }
    else if name == "Options"@ { Some("options"@) }
    else if name == "All"@ { Some("all"@) }
    else { None }
}

fn nest_method_exec(name: &str) -> (r: Option<&'static str>)
    ensures
        match r { Some(m) => nest_method(name@) == Some(m@), None => nest_method(name@) is None },
{
    if str_eq(name, "Get") { Some("get") }
    else if str_eq(name, "Post") { Some("post") }
    else if str_eq(name, "Put") { Some("put") }
    else if str_eq(name, "Patch") { Some("patch") }
    else if str_eq(name, "Delete") { Some("delete") }
    else if str_eq(name, "Head") { Some("head") }
    else if str_eq(name, "Options") { Some("options") }
    else if str_eq(name, "All") { Some("all") }
    else { None }
}

/// The route path of a prefix and an optional suffix: either alone when the other is
/// missing or empty, else both joined by one `/`.
pub open spec fn joined_path(prefix: Seq<char>, suffix: Option<Seq<char>>) -> Option<Seq<char>> {
    if prefix.len() == 0 {
        suffix
    } else {
        match suffix {
            None => Some(prefix),
            Some(s) => if s.len() == 0 {
                Some(prefix)
            } else {
                Some(trim_end_set(prefix, CharSet::Slash) + "/"@ + trim_start_set(s, CharSet::Slash))
            },
        }
    }
}

/// Join a controller prefix and a route path.
pub fn join_paths(prefix: &str, suffix: Option<&str>) -> (r: Option<String>)
    ensures
        crate::shared::opt_text(r) == joined_path(prefix@, match suffix { Some(s) => Some(s@), None => None }),
{
    let pc = chars_of(prefix);
    if pc.len() == 0 {
        return match suffix {
            Some(s) => Some(s.to_owned()),
            None => None,
        };
    }
    match suffix {
        None => Some(prefix.to_owned()),
        Some(s) => {
            let sc = chars_of(s);
            if sc.len() == 0 {
                return Some(prefix.to_owned());
            }
            let p = string_from_chars(trim_end_chars(pc.as_slice(), CharSet::Slash).as_slice());
            let q = string_from_chars(trim_start_chars(sc.as_slice(), CharSet::Slash).as_slice());
            Some(concat3(p.as_str(), "/", q.as_str()))
        },
    }
}

/// The name of decorator `d` from its children from position `k` on: an identifier's
/// text, or the function of a call.
pub open spec fn decorator_name_from(t: Seq<SyntaxNode>, d: int, k: int) -> Option<Seq<char>>
    decreases child_count_of(t, d) - k,
{
    if 0 <= k < child_count_of(t, d) {
        let c = child_of(t, d, k);
        if kind_is(t, c, "identifier"@) {
            Some(t[c].text@)
        } else if kind_is(t, c, "call_expression"@) && field_child(t, c, "function"@) is Some {
            Some(t[field_child(t, c, "function"@).unwrap()].text@)
        } else {
            decorator_name_from(t, d, k + 1)
        }
    } else {
        None
    }
}

/// The first string argument of call `c`, from position `k` of argument list `a` on,
/// without its quotes and backticks.
pub open spec fn string_arg_from(t: Seq<SyntaxNode>, a: int, k: int) -> Option<Seq<char>>
    decreases child_count_of(t, a) - k,
{
    if 0 <= k < child_count_of(t, a) {
        let x = child_of(t, a, k);
        if kind_is(t, x, "string"@) { Some(trim_set(t[x].text@, CharSet::QuotesOrBacktick)) } else { string_arg_from(t, a, k + 1) }
    } else {
        None
    }
}

/// The argument of decorator `d`: the first string argument of its first call child that
/// has one, looking from position `k` on.
pub open spec fn decorator_arg_from(t: Seq<SyntaxNode>, d: int, k: int) -> Option<Seq<char>>
    decreases child_count_of(t, d) - k,
{
    if 0 <= k < child_count_of(t, d) {
        let c = child_of(t, d, k);
        if kind_is(t, c, "call_expression"@) && (field_child(t, c, "arguments"@) matches Some(a)
            && string_arg_from(t, a, 0) is Some) {
            string_arg_from(t, field_child(t, c, "arguments"@).unwrap(), 0)
        } else {
            decorator_arg_from(t, d, k + 1)
        }
    } else {
        None
    }
}

/// The decorated member of decorator `d`: the first named child of its parent, other than
/// `d`, that is not a decorator.
pub open spec fn target_from(t: Seq<SyntaxNode>, p: int, d: int, k: int) -> Option<int>
    decreases child_count_of(t, p) - k,
{
    if 0 <= k < child_count_of(t, p) {
        let s = child_of(t, p, k);
        if s != d && t[s].named && !kind_is(t, s, "decorator"@) { Some(s) } else { target_from(t, p, d, k + 1) }
    } else {
        None
    }
}

/// The decorated member of decorator `d`, if it has one.
pub open spec fn nest_target(t: Seq<SyntaxNode>, d: int) -> Option<int> {
    match t[d].parent {
        Some(p) => target_from(t, p as int, d, 0),
        None => None,
    }
}

/// The route a method decorator `d` gives under controller prefix `prefix`.
pub open spec fn nest_route(t: Seq<SyntaxNode>, d: int, method: Seq<char>, prefix: Seq<char>, path: Seq<char>, language: Seq<char>) -> RouteView {
    let target = nest_target(t, d);
    RouteView {
        file_path: path,
        language,
        framework: "nestjs"@,
        method: Some(method),
        path: joined_path(prefix, decorator_arg_from(t, d, 0)),
        handler_name: match target { Some(s) => crate::extractors::field_text(t, s, "name"@), None => None },
        handler_kind: match target { Some(s) => Some("decorated_"@ + t[s].kind@), None => None },
        range: node_range_spec(t[d]),
        path_range: None,
        handler_range: match target { Some(s) => Some(node_range_spec(t[s])), None => None },
        confidence: Confidence::High,
        evidence: seq![node_evidence(t, d, "decorator"@)],
    }
}

/// The routes the walk from node `i` finds, with the controller prefix in force before
/// it, and the prefix in force after it. A `@Controller(..)` decorator with a string
/// argument sets the prefix for what follows in pre-order; the walk does not enter
/// decorators.
pub open spec fn nest_walk(t: Seq<SyntaxNode>, i: int, prefix: Seq<char>, path: Seq<char>, language: Seq<char>) -> (Seq<RouteView>, Seq<char>)
    decreases t.len() - i, 1nat, 0int,
{
    if 0 <= i < t.len() {
        if kind_is(t, i, "decorator"@) {
            let name = match decorator_name_from(t, i, 0) { Some(x) => x, None => Seq::empty() };
            if name == "Controller"@ {
                (Seq::empty(), match decorator_arg_from(t, i, 0) { Some(a) => a, None => prefix })
            } else {
                match nest_method(name) {
                    Some(m) => (seq![nest_route(t, i, m, prefix, path, language)], prefix),
                    None => (Seq::empty(), prefix),
                }
            }
        } else {
            nest_children(t, i, child_count_of(t, i), prefix, path, language)
        }
    } else {
        (Seq::empty(), prefix)
    }
}

/// The walk over the first `k` children of node `i`, in order.
pub open spec fn nest_children(t: Seq<SyntaxNode>, i: int, k: int, prefix: Seq<char>, path: Seq<char>, language: Seq<char>) -> (Seq<RouteView>, Seq<char>)
    decreases t.len() - i, 0nat, k,
{
    if 0 <= i < t.len() && 0 < k <= child_count_of(t, i) && i < child_of(t, i, k - 1) < t.len() {
        let before = nest_children(t, i, k - 1, prefix, path, language);
        let here = nest_walk(t, child_of(t, i, k - 1), before.1, path, language);
        (before.0 + here.0, here.1)
    } else {
        (Seq::empty(), prefix)
    }
}

fn get_decorator_name(t: &SyntaxTree, d: usize) -> (r: Option<String>)
    requires
        d < t@.len(),
    ensures
        crate::shared::opt_text(r) == decorator_name_from(t@, d as int, 0),
{
    t.wf();
    let node = t.node(d);
    let m = node.children.len();
    let mut k: usize = 0;
    while k < m
        invariant
            tree_wf(t@),
            d < t@.len(),
            node == t@[d as int],
            m == child_count_of(t@, d as int),
            k <= m,
            decorator_name_from(t@, d as int, 0) == decorator_name_from(t@, d as int, k as int),
        decreases m - k,
    {
        let c = node.children[k];
        assert(c as int == child_of(t@, d as int, k as int));
        if has_kind(t, c, "identifier") {
            return Some(t.node(c).text.clone());
        }
        if has_kind(t, c, "call_expression") {
            if let Some(f) = child_by_field(t, c, "function") {
                return Some(t.node(f).text.clone());
            }
        }
        k = k + 1;
    }
    None
}

fn string_arg(t: &SyntaxTree, a: usize) -> (r: Option<String>)
    requires
        a < t@.len(),
    ensures
        crate::shared::opt_text(r) == string_arg_from(t@, a as int, 0),
{
    t.wf();
    let node = t.node(a);
    let m = node.children.len();
    let mut k: usize = 0;
    while k < m
        invariant
            tree_wf(t@),
            a < t@.len(),
            node == t@[a as int],
            m == child_count_of(t@, a as int),
            k <= m,
            string_arg_from(t@, a as int, 0) == string_arg_from(t@, a as int, k as int),
        decreases m - k,
    {
        let x = node.children[k];
        assert(x as int == child_of(t@, a as int, k as int));
        if has_kind(t, x, "string") {
            let chars = chars_of(t.node(x).text.as_str());
            return Some(string_from_chars(trim_chars(chars.as_slice(), CharSet::QuotesOrBacktick).as_slice()));
        }
        k = k + 1;
    }
    None
}

fn extract_decorator_arg(t: &SyntaxTree, d: usize) -> (r: Option<String>)
    requires
        d < t@.len(),
    ensures
        crate::shared::opt_text(r) == decorator_arg_from(t@, d as int, 0),
{
    t.wf();
    let node = t.node(d);
    let m = node.children.len();
    let mut k: usize = 0;
    while k < m
        invariant
            tree_wf(t@),
            d < t@.len(),
            node == t@[d as int],
            m == child_count_of(t@, d as int),
            k <= m,
            decorator_arg_from(t@, d as int, 0) == decorator_arg_from(t@, d as int, k as int),
        decreases m - k,
    {
        let c = node.children[k];
        assert(c as int == child_of(t@, d as int, k as int));
        if has_kind(t, c, "call_expression") {
            if let Some(a) = child_by_field(t, c, "arguments") {
                let r = string_arg(t, a);
                if r.is_some() {
                    return r;
                }
            }
        }
        k = k + 1;
    }
    None
}

fn find_target(t: &SyntaxTree, d: usize) -> (r: Option<usize>)
    requires
        d < t@.len(),
    ensures
        match r { Some(s) => nest_target(t@, d as int) == Some(s as int) && s < t@.len(), None => nest_target(t@, d as int) is None },
{
    t.wf();
    let p = match parent_of(t, d) {
        Some(p) => p,
        None => {
            return None;
        },
    };
    let node = t.node(p);
    let m = node.children.len();
    let mut k: usize = 0;
    while k < m
        invariant
            tree_wf(t@),
            p < t@.len(),
            d < t@.len(),
            t@[d as int].parent == Some(p),
            node == t@[p as int],
            m == child_count_of(t@, p as int),
            k <= m,
            target_from(t@, p as int, d as int, 0) == target_from(t@, p as int, d as int, k as int),
        decreases m - k,
    {
        let s = node.children[k];
        assert(s as int == child_of(t@, p as int, k as int));
        if s != d && t.node(s).named && !has_kind(t, s, "decorator") {
            return Some(s);
        }
        k = k + 1;
    }
    None
}

fn build_nest_route(t: &SyntaxTree, d: usize, method: &str, prefix: &String, ctx: &AstFileContext) -> (r: AstRoute)
    requires
        d < t@.len(),
    ensures
        route_view(r) == nest_route(t@, d as int, method@, prefix@, ctx.relative_path@, ctx.language@),
{
    let arg = extract_decorator_arg(t, d);
    let full_path = match &arg {
        Some(a) => join_paths(prefix.as_str(), Some(a.as_str())),
        None => join_paths(prefix.as_str(), None),
    };
    let target = find_target(t, d);
    let (handler_name, handler_kind, handler_range) = match target {
        Some(s) => (
            crate::extractors::extract_field_text(t, s, "name"),
            Some(concat2("decorated_", t.node(s).kind.as_str())),
            Some(node_range(t.node(s))),
        ),
        None => (None, None, None),
    };
    AstRoute {
        file_path: ctx.relative_path.clone(),
        language: ctx.language.clone(),
        framework: "nestjs".to_owned(),
        method: Some(method.to_owned()),
        path: full_path,
        handler_name,
        handler_kind,
        range: node_range(t.node(d)),
        path_range: None,
        handler_range,
        confidence: Confidence::High,
        evidence: evidence_list(t, d, "decorator"),
    }
}

fn collect_nestjs_routes(t: &SyntaxTree, i: usize, ctx: &AstFileContext, out: &mut Vec<AstRoute>, prefix: &mut String)
    requires
        i < t@.len(),
    ensures
        routes_view(final(out)@) == routes_view(old(out)@) + nest_walk(t@, i as int, old(prefix)@, ctx.relative_path@, ctx.language@).0,
        final(prefix)@ == nest_walk(t@, i as int, old(prefix)@, ctx.relative_path@, ctx.language@).1,
    decreases t@.len() - i,
{
    t.wf();
    let ghost base = routes_view(out@);
    let ghost p0 = prefix@;
    if has_kind(t, i, "decorator") {
        let name = match get_decorator_name(t, i) {
            Some(x) => x,
            None => String::new(),
        };
        if str_eq(name.as_str(), "Controller") {
            if let Some(a) = extract_decorator_arg(t, i) {
                *prefix = a;
            }
            assert(routes_view(out@) =~= base + Seq::<RouteView>::empty());
        } else if let Some(m) = nest_method_exec(name.as_str()) {
            let r = build_nest_route(t, i, m, prefix, ctx);
            out.push(r);
            assert(routes_view(out@) =~= base + seq![route_view(r)]);
        } else {
            assert(routes_view(out@) =~= base + Seq::<RouteView>::empty());
        }
        return;
    }
    let node = t.node(i);
    let m = node.children.len();
    let mut k: usize = 0;
    assert(routes_view(out@) =~= base + nest_children(t@, i as int, 0, p0, ctx.relative_path@, ctx.language@).0);
    while k < m
        invariant
            tree_wf(t@),
            i < t@.len(),
            node == t@[i as int],
            m == child_count_of(t@, i as int),
            k <= m,
            routes_view(out@) == base + nest_children(t@, i as int, k as int, p0, ctx.relative_path@, ctx.language@).0,
            prefix@ == nest_children(t@, i as int, k as int, p0, ctx.relative_path@, ctx.language@).1,
        decreases m - k,
    {
        let c = node.children[k];
        assert(c as int == child_of(t@, i as int, k as int));
        let ghost before = nest_children(t@, i as int, k as int, p0, ctx.relative_path@, ctx.language@);
        collect_nestjs_routes(t, c, ctx, out, prefix);
        assert(base + before.0 + nest_walk(t@, c as int, before.1, ctx.relative_path@, ctx.language@).0
            =~= base + nest_children(t@, i as int, k + 1, p0, ctx.relative_path@, ctx.language@).0);
        k = k + 1;
    }
}

impl NestJsRouteDetector {
    /// The NestJS routes of a file, in pre-order: one for each HTTP-method decorator
    /// (`@Get`, `@Post`, ...), its path joined to the prefix of the controller decorator
    /// that precedes it.
    pub fn find_routes(&self, ctx: &AstFileContext) -> (r: Vec<AstRoute>)
        ensures
            routes_view(r@) == nest_walk(ctx.tree@, 0, Seq::empty(), ctx.relative_path@, ctx.language@).0,
    {
        let t = &ctx.tree;
        t.wf();
        let mut out: Vec<AstRoute> = Vec::new();
        let mut prefix = String::new();
        assert(routes_view(out@) =~= Seq::<RouteView>::empty());
        collect_nestjs_routes(t, 0, ctx, &mut out, &mut prefix);
        assert(Seq::<RouteView>::empty() + nest_walk(t@, 0, Seq::empty(), ctx.relative_path@, ctx.language@).0
            =~= nest_walk(t@, 0, Seq::empty(), ctx.relative_path@, ctx.language@).0);
        out
    }
}

impl AstDetector<AstRoute> for NestJsRouteDetector {
    fn detect(&self, ctx: &AstFileContext) -> (r: Vec<AstRoute>)
        ensures
            routes_view(r@) == nest_walk(ctx.tree@, 0, Seq::empty(), ctx.relative_path@, ctx.language@).0,
    {
        self.find_routes(ctx)
    }
}

} // verus!
