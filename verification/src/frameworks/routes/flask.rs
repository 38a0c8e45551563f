//! Flask routes: `@app.route('/path', methods=['GET', 'POST'])` and blueprint decorators.
use vstd::prelude::*;

use super::{AstRoute, RouteView};
use crate::extractors::{extract_field_text, field_text};
use crate::frameworks::{
    AstDetector, AstFileContext, Confidence, decorated_definition, decorated_definition_of,
    evidence_list, node_evidence,
};
use crate::shared::{opt_text, texts};
use crate::syntax::{SyntaxNode, SyntaxTree, has_kind, kind_is, node_range, node_range_spec, walk};
use crate::text::{
    CharSet, chars_contain, chars_of, contains_seq, find_any, find_any_char, lemma_find_any, find_chars, find_seq,
    lowercase, string_from_chars, to_lowercase_text, trim_chars, trim_set, trim_start_chars,
    trim_start_set,
};
use crate::visit::{NodeVisitor, collect_all, views};

verus! {

/// Detects Flask routes.
pub struct FlaskRouteDetector;

/// A decorator's text without its leading `@`s and surrounding whitespace.
pub open spec fn decorator_body(text: Seq<char>) -> Seq<char> {
    trim_set(trim_start_set(text, CharSet::At), CharSet::Whitespace)
}

/// A list entry without surrounding whitespace and quotes.
pub open spec fn clean_entry(p: Seq<char>) -> Seq<char> {
    trim_set(trim_set(p, CharSet::Whitespace), CharSet::Quotes)
}

/// The non-empty entries of a comma-separated list, cleaned, in order.
pub open spec fn list_entries(s: Seq<char>) -> Seq<Seq<char>>
    decreases s.len(),
{
    match find_any(s, seq![',']) {
        Some(c) => if 0 <= c < s.len() {
            (if clean_entry(s.take(c)).len() > 0 { seq![clean_entry(s.take(c))] } else { Seq::empty() })
                + list_entries(s.skip(c + 1))
        } else {
            Seq::empty()
        },
        None => if clean_entry(s).len() > 0 { seq![clean_entry(s)] } else { Seq::empty() },
    }
}

/// The text of a bracketed list at the start of `after`: from after the first `[` to the
/// next `]`, or to the end when the `[` comes first and no `]` follows.
pub open spec fn bracket_list(after: Seq<char>) -> Option<Seq<char>> {
    match find_any(after, seq!['[']) {
        None => None,
        Some(b) => match find_any(after.skip(b), seq![']']) {
            Some(e) => Some(after.subrange(b + 1, b + e)),
            None => Some(after.skip(b + 1)),
        },
    }
}

/// Whether `after` holds a `[` that is not its first character and that no `]` follows.
pub open spec fn unclosed_bracket(after: Seq<char>) -> bool {
    match find_any(after, seq!['[']) {
        None => false,
        Some(b) => b > 0 && find_any(after.skip(b), seq![']']) is None,
    }
}

/// The text of a `methods=[...]` list in the arguments, if there is one.
pub open spec fn methods_list(args: Seq<char>) -> Option<Seq<char>> {
    match find_seq(args, "methods="@) {
        None => None,
        Some(mp) => bracket_list(args.skip(mp + 8)),
    }
}

/// Whether the arguments hold a `methods=` list whose `[` is not the first character
/// after `methods=` and which no `]` closes: such a list cannot be read.
pub open spec fn unreadable_methods_list(args: Seq<char>) -> bool {
    match find_seq(args, "methods="@) {
        None => false,
        Some(mp) => unclosed_bracket(args.skip(mp + 8)),
    }
}

/// Whether a decorator text is no `.route(` decorator, or one whose `methods` list can
/// be read.
#[verifier::opaque]
pub open spec fn readable_decorator(text: Seq<char>) -> bool {
    match route_args(text) {
        Some(args) => !unreadable_methods_list(args),
        None => true,
    }
}

/// The methods a Flask route is registered for: the entries of its `methods` list, or
/// `GET` alone when there is no list or it is empty.
pub open spec fn flask_methods(args: Seq<char>) -> Seq<Seq<char>> {
    match methods_list(args) {
        Some(m) => if list_entries(m).len() > 0 { list_entries(m) } else { seq!["GET"@] },
        None => seq!["GET"@],
    }
}

/// The arguments of a `.route(` decorator: what follows the first `.route(`.
pub open spec fn route_args(text: Seq<char>) -> Option<Seq<char>> {
    match find_seq(decorator_body(text), ".route("@) {
        Some(dot) => Some(decorator_body(text).skip(dot + 7)),
        None => None,
    }
}

/// The Flask route of decorator node `n` for one method.
pub open spec fn flask_route_for(t: Seq<SyntaxNode>, n: int, path: Seq<char>, language: Seq<char>, framework: Seq<char>, route_path: Seq<char>, method: Seq<char>) -> RouteView {
    let d = decorated_definition(t, n);
    RouteView {
        file_path: path,
        language,
        framework,
        method: Some(lowercase(method)),
        path: Some(route_path),
        handler_name: match d { Some(x) => field_text(t, x, "name"@), None => None },
        handler_kind: Some("function"@),
        range: node_range_spec(t[n]),
        path_range: None,
        handler_range: match d { Some(x) => Some(node_range_spec(t[x])), None => None },
        confidence: Confidence::High,
        evidence: seq![node_evidence(t, n, "decorator"@)],
    }
}

/// The Flask routes of decorator node `n`, one per listed method (in the list's order),
/// if it is a `.route(` decorator with a non-empty path argument; none otherwise.
pub open spec fn flask_route(t: Seq<SyntaxNode>, n: int, path: Seq<char>, language: Seq<char>) -> Seq<RouteView> {
    let body = decorator_body(t[n].text@);
    match find_seq(body, ".route("@) {
        None => Seq::empty(),
        Some(dot) => {
            let args = body.skip(dot + 7);
            match find_any(args, seq![',', ')']) {
                None => Seq::empty(),
                Some(pe) => {
                    let route_path = clean_entry(args.take(pe));
                    if route_path.len() == 0 {
                        Seq::empty()
                    } else {
                        let framework = if contains_seq(body.take(dot), "blueprint"@) { "flask_blueprint"@ } else { "flask"@ };
                        flask_methods(args).map_values(|m: Seq<char>| flask_route_for(t, n, path, language, framework, route_path, m))
                    }
                },
            }
        },
    }
}

/// What node `n` contributes: the route of a decorator.
pub open spec fn flask_item(t: Seq<SyntaxNode>, path: Seq<char>, language: Seq<char>) -> spec_fn(int) -> Seq<RouteView> {
    |n: int| if kind_is(t, n, "decorator"@) { flask_route(t, n, path, language) } else { Seq::empty() }
}

/// The walk enters every node but decorators.
pub open spec fn outside_decorators(t: Seq<SyntaxNode>) -> spec_fn(int) -> bool {
    |n: int| !kind_is(t, n, "decorator"@)
}

/// The Flask routes of a file, in pre-order.
pub open spec fn flask_routes(t: Seq<SyntaxNode>, path: Seq<char>, language: Seq<char>) -> Seq<RouteView> {
    walk(t, 0, flask_item(t, path, language), outside_decorators(t))
}

/// Whether every decorator's `.route(` arguments have a readable `methods` list.
pub open spec fn flask_readable(t: Seq<SyntaxNode>) -> bool {
    forall|n: int| 0 <= n < t.len() && kind_is(t, n, "decorator"@) ==> readable_decorator(#[trigger] t[n].text@)
}

fn entries_of(s: &[char]) -> (r: Vec<String>)
    ensures
        texts(r@) == list_entries(s@),
    decreases s@.len(),
{
    let len = s.len();
    let comma: &[char] = &[','];
    assert(comma@ =~= seq![',']);
    match find_any_char(s, comma) {
        Some(c) => {
            assert(c < s@.len());
            let piece = vstd::slice::slice_subrange(s, 0, c);
            assert(piece@ =~= s@.take(c as int));
            let clean = trim_chars(trim_chars(piece, CharSet::Whitespace).as_slice(), CharSet::Quotes);
            let rest = vstd::slice::slice_subrange(s, c + 1, len);
            assert(rest@ =~= s@.skip(c + 1));
            let mut tail = entries_of(rest);
            let mut out: Vec<String> = Vec::new();
            if clean.len() > 0 {
                out.push(string_from_chars(clean.as_slice()));
            }
            let ghost head = texts(out@);
            let ghost tl = tail@;
            assert(clean.len() > 0 ==> head =~= seq![clean_entry(s@.take(c as int))]);
            assert(clean.len() == 0 ==> head =~= Seq::<Seq<char>>::empty());
            let ghost before = out@;
            out.append(&mut tail);
            assert(out@ == before + tl);
            assert(texts(out@) =~= head + texts(tl));
            out
        },
        None => {
            let clean = trim_chars(trim_chars(s, CharSet::Whitespace).as_slice(), CharSet::Quotes);
            let mut out: Vec<String> = Vec::new();
            if clean.len() > 0 {
                out.push(string_from_chars(clean.as_slice()));
            }
            assert(texts(out@) =~= list_entries(s@));
            out
        },
    }
}

#[verifier::rlimit(30)]
fn bracket_list_of(after: &[char]) -> (r: Result<Option<Vec<char>>, ()>)
    ensures
        match r {
            Ok(Some(m)) => !unclosed_bracket(after@) && bracket_list(after@) == Some(m@),
            Ok(None) => !unclosed_bracket(after@) && bracket_list(after@) is None,
            Err(()) => unclosed_bracket(after@),
        },
{
    let open: &[char] = &['['];
    assert(open@ =~= seq!['[']);
    let b = match find_any_char(after, open) {
        Some(b) => b,
        None => {
            return Ok(None);
        },
    };
    let from_b = vstd::slice::slice_subrange(after, b, after.len());
    assert(from_b@ =~= after@.skip(b as int));
    let close: &[char] = &[']'];
    assert(close@ =~= seq![']']);
    match find_any_char(from_b, close) {
        Some(e) => {
            proof {
                lemma_find_any(after@, seq!['[']);
                lemma_find_any(from_b@, seq![']']);
            }
            assert(seq!['['].contains(after@[b as int]));
            assert(seq![']'].contains(from_b@[e as int]));
            assert(from_b@[0] == after@[b as int]);
            assert(e > 0);
            assert(b + e < after@.len());
            let inner = vstd::slice::slice_subrange(after, b + 1, b + e);
            Ok(Some(vstd::slice::slice_to_vec(inner)))
        },
        None => {
            if b > 0 {
                return Err(());
            }
            let inner = vstd::slice::slice_subrange(after, b + 1, after.len());
            assert(inner@ =~= after@.skip(b + 1));
            Ok(Some(vstd::slice::slice_to_vec(inner)))
        },
    }
}

/// Read the `methods` list of route arguments: `Err(())` when it cannot be read.
fn methods_list_of(args: &[char]) -> (r: Result<Option<Vec<char>>, ()>)
    ensures
        match r {
            Ok(Some(m)) => !unreadable_methods_list(args@) && methods_list(args@) == Some(m@),
            Ok(None) => !unreadable_methods_list(args@) && methods_list(args@) is None,
            Err(()) => unreadable_methods_list(args@),
        },
{
    let key = chars_of("methods=");
    proof { reveal_strlit("methods="); }
    assert(key@.len() == 8);
    let mp = match find_chars(args, key.as_slice()) {
        Some(mp) => mp,
        None => {
            return Ok(None);
        },
    };
    let len = args.len();
    let after = vstd::slice::slice_subrange(args, mp + 8, len);
    assert(after@ =~= args@.skip(mp + 8));
    bracket_list_of(after)
}

/// The route arguments of a decorator text, if it is a `.route(` decorator.
fn route_args_of(text: &str) -> (r: Option<Vec<char>>)
    ensures
        match r {
            Some(a) => route_args(text@) == Some(a@),
            None => route_args(text@) is None,
        },
{
    let chars = chars_of(text);
    let body = trim_chars(trim_start_chars(chars.as_slice(), CharSet::At).as_slice(), CharSet::Whitespace);
    let needle = chars_of(".route(");
    proof { reveal_strlit(".route("); }
    assert(needle@.len() == 7);
    match find_chars(body.as_slice(), needle.as_slice()) {
        Some(dot) => {
            let len = body.len();
            let args = vstd::slice::slice_subrange(body.as_slice(), dot + 7, len);
            assert(args@ =~= decorator_body(text@).skip(dot + 7));
            Some(vstd::slice::slice_to_vec(args))
        },
        None => None,
    }
}

fn decorator_readable(text: &str) -> (r: bool)
    ensures
        r == readable_decorator(text@),
{
    proof { reveal(readable_decorator); }
    match route_args_of(text) {
        Some(args) => methods_list_of(args.as_slice()).is_ok(),
        None => true,
    }
}

/// Whether every decorator of the tree has a readable `methods` list.
pub fn methods_lists_readable(t: &SyntaxTree) -> (r: bool)
    ensures
        r == flask_readable(t@),
{
    let n = t.len();
    let mut i: usize = 0;
    while i < n
        invariant
            n == t@.len(),
            i <= n,
            forall|j: int| 0 <= j < i && kind_is(t@, j, "decorator"@) ==> readable_decorator(#[trigger] t@[j].text@),
        decreases n - i,
    {
        if has_kind(t, i, "decorator") && !decorator_readable(t.node(i).text.as_str()) {
            return false;
        }
        i = i + 1;
    }
    true
}

fn make_flask_route(t: &SyntaxTree, n: usize, d: Option<usize>, ctx: &AstFileContext, framework: &String, path_text: &String, method: &str) -> (r: AstRoute)
    requires
        n < t@.len(),
        match d {
            Some(x) => decorated_definition(t@, n as int) == Some(x as int) && x < t@.len(),
            None => decorated_definition(t@, n as int) is None,
        },
    ensures
        r@ == flask_route_for(t@, n as int, ctx.relative_path@, ctx.language@, framework@, path_text@, method@),
{
    let (handler_name, handler_range) = match d {
        Some(x) => (extract_field_text(t, x, "name"), Some(node_range(t.node(x)))),
        None => (None, None),
    };
    AstRoute {
        file_path: ctx.relative_path.clone(),
        language: ctx.language.clone(),
        framework: framework.clone(),
        method: Some(to_lowercase_text(method)),
        path: Some(path_text.clone()),
        handler_name,
        handler_kind: Some("function".to_owned()),
        range: node_range(t.node(n)),
        path_range: None,
        handler_range,
        confidence: Confidence::High,
        evidence: evidence_list(t, n, "decorator"),
    }
}

fn routes_for_methods(
    t: &SyntaxTree,
    n: usize,
    d: Option<usize>,
    ctx: &AstFileContext,
    framework: &String,
    path_text: &String,
    methods: &Vec<String>,
) -> (r: Vec<AstRoute>)
    requires
        n < t@.len(),
        match d {
            Some(x) => decorated_definition(t@, n as int) == Some(x as int) && x < t@.len(),
            None => decorated_definition(t@, n as int) is None,
        },
    ensures
        views(r@) == texts(methods@).map_values(|m: Seq<char>|
            flask_route_for(t@, n as int, ctx.relative_path@, ctx.language@, framework@, path_text@, m)),
{
    let ghost ms = texts(methods@);
    let ghost fw = framework@;
    let ghost rp = path_text@;
    let mut out: Vec<AstRoute> = Vec::new();
    let mut i: usize = 0;
    while i < methods.len()
        invariant
            n < t@.len(),
            i <= methods@.len(),
            ms == texts(methods@),
            fw == framework@,
            rp == path_text@,
            match d {
                Some(x) => decorated_definition(t@, n as int) == Some(x as int) && x < t@.len(),
                None => decorated_definition(t@, n as int) is None,
            },
            views(out@) == ms.take(i as int).map_values(|m: Seq<char>|
                flask_route_for(t@, n as int, ctx.relative_path@, ctx.language@, fw, rp, m)),
        decreases methods@.len() - i,
    {
        let route = make_flask_route(t, n, d, ctx, framework, path_text, methods[i].as_str());
        assert(methods@[i as int]@ == ms[i as int]);
        let ghost prev = out@;
        out.push(route);
        assert(ms.take(i + 1) =~= ms.take(i as int).push(ms[i as int]));
        assert(views(out@) =~= views(prev).push(route@));
        assert(views(out@) =~= ms.take(i + 1).map_values(|m: Seq<char>|
            flask_route_for(t@, n as int, ctx.relative_path@, ctx.language@, fw, rp, m)));
        i = i + 1;
    }
    assert(ms.take(ms.len() as int) =~= ms);
    out
}

/// The methods of route arguments whose `methods` list can be read.
fn methods_of(args: &[char]) -> (r: Vec<String>)
    requires
        !unreadable_methods_list(args@),
    ensures
        texts(r@) == flask_methods(args@),
{
    let mut methods = match methods_list_of(args) {
        Ok(Some(list)) => entries_of(list.as_slice()),
        _ => Vec::new(),
    };
    if methods.len() == 0 {
        methods.push("GET".to_owned());
        proof { reveal_strlit("GET"); }
        assert(texts(methods@) =~= seq!["GET"@]);
    }
    methods
}

#[verifier::rlimit(60)]
fn extract_flask_decorator(t: &SyntaxTree, n: usize, ctx: &AstFileContext) -> (r: Vec<AstRoute>)
    requires
        n < t@.len(),
        readable_decorator(t@[n as int].text@),
    ensures
        views(r@) == flask_route(t@, n as int, ctx.relative_path@, ctx.language@),
{
    proof { reveal(readable_decorator); }
    let chars = chars_of(t.node(n).text.as_str());
    let body = trim_chars(trim_start_chars(chars.as_slice(), CharSet::At).as_slice(), CharSet::Whitespace);
    let needle = chars_of(".route(");
    proof { reveal_strlit(".route("); }
    assert(needle@.len() == 7);
    let dot = match find_chars(body.as_slice(), needle.as_slice()) {
        Some(dot) => dot,
        None => {
            let e: Vec<AstRoute> = Vec::new();
            assert(views(e@) =~= Seq::<RouteView>::empty());
            return e;
        },
    };
    let len = body.len();
    let args = vstd::slice::slice_subrange(body.as_slice(), dot + 7, len);
    assert(args@ =~= body@.skip(dot + 7));
    let ends: &[char] = &[',', ')'];
    assert(ends@ =~= seq![',', ')']);
    let pe = match find_any_char(args, ends) {
        Some(pe) => pe,
        None => {
            let e: Vec<AstRoute> = Vec::new();
            assert(views(e@) =~= Seq::<RouteView>::empty());
            return e;
        },
    };
    let path_piece = vstd::slice::slice_subrange(args, 0, pe);
    assert(path_piece@ =~= args@.take(pe as int));
    let route_path = trim_chars(trim_chars(path_piece, CharSet::Whitespace).as_slice(), CharSet::Quotes);
    if route_path.len() == 0 {
        let e: Vec<AstRoute> = Vec::new();
        assert(views(e@) =~= Seq::<RouteView>::empty());
        return e;
    }
    let methods = methods_of(args);
    let prefix = vstd::slice::slice_subrange(body.as_slice(), 0, dot);
    assert(prefix@ =~= body@.take(dot as int));
    let blueprint = chars_of("blueprint");
    let framework = if chars_contain(prefix, blueprint.as_slice()) {
        "flask_blueprint".to_owned()
    } else {
        "flask".to_owned()
    };
    let d = decorated_definition_of(t, n);
    let path_text = string_from_chars(route_path.as_slice());
    let ghost ms = flask_methods(args@);
    let ghost fw = if contains_seq(body@.take(dot as int), "blueprint"@) { "flask_blueprint"@ } else { "flask"@ };
    assert(framework@ == fw);
    assert(path_text@ == clean_entry(args@.take(pe as int)));
    assert(body@ == decorator_body(t@[n as int].text@));
    let r = routes_for_methods(t, n, d, ctx, &framework, &path_text, &methods);
    assert(views(r@) == ms.map_values(|m: Seq<char>|
        flask_route_for(t@, n as int, ctx.relative_path@, ctx.language@, fw, path_text@, m)));
    r
}

struct FlaskVisitor<'a> {
    ctx: &'a AstFileContext,
}

impl<'a> NodeVisitor for FlaskVisitor<'a> {
    type Item = AstRoute;

    closed spec fn items_at(&self, t: Seq<SyntaxNode>, n: int) -> Seq<RouteView> {
        if flask_readable(t) { flask_item(t, self.ctx.relative_path@, self.ctx.language@)(n) } else { Seq::empty() }
    }

    closed spec fn descends(&self, t: Seq<SyntaxNode>, n: int) -> bool {
        outside_decorators(t)(n)
    }

    fn visit(&self, t: &SyntaxTree, n: usize, out: &mut Vec<AstRoute>) {
        if has_kind(t, n, "decorator") && methods_lists_readable(t) {
            let mut rs = extract_flask_decorator(t, n, self.ctx);
            out.append(&mut rs);
        }
        assert(views(out@) =~= views(old(out)@) + self.items_at(t@, n as int));
    }

    fn enters(&self, t: &SyntaxTree, n: usize) -> (r: bool) {
        !has_kind(t, n, "decorator")
    }
}

impl FlaskRouteDetector {
    /// The Flask routes of a file, in pre-order (decorators are not entered): for each
    /// decorator holding `.route(` with a non-empty path before the first `,` or `)`, one
    /// route per entry of its `methods=[...]` list, in order (`GET` alone when there is no
    /// list or it is empty), the method in lowercase; the framework is `flask_blueprint`
    /// when the text before `.route(` mentions `blueprint`.
    pub fn find_routes(&self, ctx: &AstFileContext) -> (r: Vec<AstRoute>)
        requires
            flask_readable(ctx.tree@),
        ensures
            views(r@) == flask_routes(ctx.tree@, ctx.relative_path@, ctx.language@),
    {
        let v = FlaskVisitor { ctx };
        let r = collect_all(&v, &ctx.tree);
        assert(crate::visit::item_fn(&v, ctx.tree@) =~= flask_item(ctx.tree@, ctx.relative_path@, ctx.language@));
        assert(crate::visit::descend_fn(&v, ctx.tree@) =~= outside_decorators(ctx.tree@));
        r
    }
}

impl AstDetector<AstRoute> for FlaskRouteDetector {
    /// A `methods` list that no `]` closes, and whose `[` does not directly follow
    /// `methods=`, cannot be read; a file with one yields no routes.
    fn detect(&self, ctx: &AstFileContext) -> (r: Vec<AstRoute>)
        ensures
            views(r@) == (if flask_readable(ctx.tree@) { flask_routes(ctx.tree@, ctx.relative_path@, ctx.language@) } else { Seq::empty() }),
    {
        if methods_lists_readable(&ctx.tree) {
            self.find_routes(ctx)
        } else {
            Vec::new()
        }
    }
}

} // verus!
