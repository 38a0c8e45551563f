//! JavaScript tests in the Jest style: `describe`, `it`/`test` and setup hooks, each with
//! the innermost enclosing `describe` suite.
use vstd::prelude::*;

use super::{AstTestItem, TestKind, TestView, innermost, innermost_of};
use crate::frameworks::{AstDetector, AstFileContext, Confidence, evidence_list, node_evidence};
use crate::shared::{opt_text, texts};
use crate::syntax::{
    SyntaxNode, SyntaxTree, child_by_field, child_count_of, child_of, field_child, has_kind,
    kind_is, node_range, node_range_spec, str_in, text_in, tree_wf,
};
use crate::text::{CharSet, chars_of, str_eq, string_from_char_range, trim_bounds, trim_set, trim_str};
use crate::visit::views;

verus! {

/// Detects Jest-style tests.
pub struct JavaScriptTestDetector;

/// The setup and teardown hooks.
pub open spec fn hook_names() -> Seq<&'static str> {
    seq!["beforeEach", "afterEach", "beforeAll", "afterAll"]
}

/// The kind of test a call of `callee` declares, if any.
pub open spec fn js_test_kind(callee: Seq<char>) -> Option<TestKind> {
    if callee == "describe"@ {
        Some(TestKind::Suite)
    } else if callee == "it"@ || callee == "test"@ {
        Some(TestKind::Test)
    } else if text_in(callee, hook_names()) {
        Some(TestKind::Hook)
    } else {
        None
    }
}

/// A string literal's text without surrounding whitespace and, when it starts and ends
/// with the same kind of quote (`"` or `'`), without those quotes.
pub open spec fn unquote(raw: Seq<char>) -> Seq<char> {
    let s = trim_set(raw, CharSet::Whitespace);
    if s.len() >= 2 && ((s[0] == '"' && s.last() == '"') || (s[0] == '\'' && s.last() == '\'')) {
        s.subrange(1, s.len() - 1)
    } else {
        s
    }
}

/// The name of a test call from its argument list `a`, from position `k` on: its first
/// string (unquoted) or template string (without backticks).
pub open spec fn test_name_from(t: Seq<SyntaxNode>, a: int, k: int) -> Option<Seq<char>>
    decreases child_count_of(t, a) - k,
{
    if 0 <= k < child_count_of(t, a) {
        let x = child_of(t, a, k);
        if kind_is(t, x, "string"@) {
            Some(unquote(t[x].text@))
        } else if kind_is(t, x, "template_string"@) {
            Some(trim_set(t[x].text@, CharSet::Backtick))
        } else {
            test_name_from(t, a, k + 1)
        }
    } else {
        None
    }
}

/// The kind and name of the test call `n` declares, if any.
pub open spec fn test_call(t: Seq<SyntaxNode>, n: int) -> Option<(TestKind, Option<Seq<char>>)> {
    match field_child(t, n, "function"@) {
        None => None,
        Some(f) => match js_test_kind(t[f].text@) {
            None => None,
            Some(k) => Some((k, match field_child(t, n, "arguments"@) {
                Some(a) => test_name_from(t, a, 0),
                None => None,
            })),
        },
    }
}

/// Whether call `n` is a call of `describe`.
pub open spec fn calls_describe(t: Seq<SyntaxNode>, n: int) -> bool {
    match field_child(t, n, "function"@) {
        Some(f) => t[f].text@ == "describe"@,
        None => false,
    }
}

/// The stack without its innermost suite (unchanged when empty).
pub open spec fn pop_suite(st: Seq<Seq<char>>) -> Seq<Seq<char>> {
    if st.len() > 0 { st.drop_last() } else { st }
}

/// The tests found in the subtree of node `i` in pre-order, with the suite stack `st` on
/// entry, and the stack on exit. A `describe` call with a name pushes it while its
/// subtree is read; every `describe` call pops one name when its subtree is done.
pub open spec fn js_walk(t: Seq<SyntaxNode>, i: int, st: Seq<Seq<char>>, path: Seq<char>, language: Seq<char>) -> (Seq<TestView>, Seq<Seq<char>>)
    decreases t.len() - i, 1nat, 0nat,
{
    if 0 <= i < t.len() {
        if kind_is(t, i, "call_expression"@) {
            let (own, s1) = match test_call(t, i) {
                Some((k, name)) => (
                    seq![TestView {
                        file_path: path,
                        language,
                        framework: "jest"@,
                        kind: k,
                        name,
                        range: node_range_spec(t[i]),
                        parent_name: innermost(st),
                        confidence: Confidence::High,
                        evidence: seq![node_evidence(t, i, "call_expression"@)],
                    }],
                    if k == TestKind::Suite && name is Some { st.push(name.unwrap()) } else { st },
                ),
                None => (Seq::empty(), st),
            };
            let (rest, s2) = js_children(t, i, child_count_of(t, i), s1, path, language);
            (own + rest, if calls_describe(t, i) { pop_suite(s2) } else { s2 })
        } else {
            js_children(t, i, child_count_of(t, i), st, path, language)
        }
    } else {
        (Seq::empty(), st)
    }
}

/// The tests found in the first `k` children of node `i`, threading the suite stack.
pub open spec fn js_children(t: Seq<SyntaxNode>, i: int, k: int, st: Seq<Seq<char>>, path: Seq<char>, language: Seq<char>) -> (Seq<TestView>, Seq<Seq<char>>)
    decreases t.len() - i, 0nat, k,
{
    if 0 <= i < t.len() && 0 < k <= child_count_of(t, i) && i < child_of(t, i, k - 1) < t.len() {
        let (a, s1) = js_children(t, i, k - 1, st, path, language);
        let (b, s2) = js_walk(t, child_of(t, i, k - 1), s1, path, language);
        (a + b, s2)
    } else {
        (Seq::empty(), st)
    }
}

/// The Jest-style tests of a file, in pre-order.
pub open spec fn js_tests(t: Seq<SyntaxNode>, path: Seq<char>, language: Seq<char>) -> Seq<TestView> {
    js_walk(t, 0, Seq::empty(), path, language).0
}

fn unquote_text(raw: &str) -> (r: String)
    ensures
        r@ == unquote(raw@),
{
    let chars = chars_of(raw);
    let (a, b) = trim_bounds(chars.as_slice(), CharSet::Whitespace);
    let ghost s = trim_set(raw@, CharSet::Whitespace);
    assert(chars@.subrange(a as int, b as int) == s);
    if b - a >= 2 {
        let first = chars[a];
        let last = chars[b - 1];
        assert(first == s[0] && last == s.last());
        if (first == '"' && last == '"') || (first == '\'' && last == '\'') {
            let r = string_from_char_range(chars.as_slice(), a + 1, b - 1);
            assert(r@ =~= s.subrange(1, s.len() - 1));
            return r;
        }
    }
    string_from_char_range(chars.as_slice(), a, b)
}

fn test_name_exec(t: &SyntaxTree, a: usize) -> (r: Option<String>)
    requires
        a < t@.len(),
    ensures
        opt_text(r) == test_name_from(t@, a as int, 0),
{
    t.wf();
    let node = t.node(a);
    let m = node.children.len();
    let mut k: usize = 0;
    while k < m
        invariant
            tree_wf(t@),
            a < t@.len(),
            node == t@[a as int],
            m == child_count_of(t@, a as int),
            k <= m,
            test_name_from(t@, a as int, 0) == test_name_from(t@, a as int, k as int),
        decreases m - k,
    {
        let x = node.children[k];
        assert(x as int == child_of(t@, a as int, k as int));
        if has_kind(t, x, "string") {
            return Some(unquote_text(t.node(x).text.as_str()));
        }
        if has_kind(t, x, "template_string") {
            return Some(trim_str(t.node(x).text.as_str(), CharSet::Backtick));
        }
        k = k + 1;
    }
    None
}

fn test_call_exec(t: &SyntaxTree, n: usize) -> (r: Option<(TestKind, Option<String>)>)
    requires
        n < t@.len(),
    ensures
        match r {
            Some((k, name)) => test_call(t@, n as int) == Some((k, opt_text(name))),
            None => test_call(t@, n as int) is None,
        },
{
    let f = match child_by_field(t, n, "function") {
        Some(f) => f,
        None => {
            return None;
        },
    };
    let callee = t.node(f).text.as_str();
    let hooks: &[&str] = &["beforeEach", "afterEach", "beforeAll", "afterAll"];
    assert(hooks@ =~= hook_names());
    let kind = if str_eq(callee, "describe") {
        TestKind::Suite
    } else if str_eq(callee, "it") || str_eq(callee, "test") {
        TestKind::Test
    } else if str_in(callee, hooks) {
        TestKind::Hook
    } else {
        return None;
    };
    let name = match child_by_field(t, n, "arguments") {
        Some(a) => test_name_exec(t, a),
        None => None,
    };
    Some((kind, name))
}

fn is_describe_call(t: &SyntaxTree, n: usize) -> (r: bool)
    requires
        n < t@.len(),
    ensures
        r == calls_describe(t@, n as int),
{
    match child_by_field(t, n, "function") {
        Some(f) => str_eq(t.node(f).text.as_str(), "describe"),
        None => false,
    }
}

fn collect_js_tests(t: &SyntaxTree, i: usize, ctx: &AstFileContext, items: &mut Vec<AstTestItem>, stack: &mut Vec<String>)
    requires
        i < t@.len(),
    ensures
        views(final(items)@) == views(old(items)@) + js_walk(t@, i as int, texts(old(stack)@), ctx.relative_path@, ctx.language@).0,
        texts(final(stack)@) == js_walk(t@, i as int, texts(old(stack)@), ctx.relative_path@, ctx.language@).1,
    decreases t@.len() - i,
{
    t.wf();
    let ghost st0 = texts(stack@);
    let ghost base = views(items@);
    let is_call = has_kind(t, i, "call_expression");
    if is_call {
        match test_call_exec(t, i) {
            Some((kind, name)) => {
                let parent_name = innermost_of(stack);
                items.push(AstTestItem {
                    file_path: ctx.relative_path.clone(),
                    language: ctx.language.clone(),
                    framework: "jest".to_owned(),
                    kind,
                    name: name.clone(),
                    range: node_range(t.node(i)),
                    parent_name,
                    confidence: Confidence::High,
                    evidence: evidence_list(t, i, "call_expression"),
                });
                if kind == TestKind::Suite {
                    if let Some(nm) = name {
                        stack.push(nm);
                        assert(texts(stack@) =~= st0.push(texts(stack@).last()));
                    }
                }
            },
            None => {},
        }
    }
    let ghost s1 = texts(stack@);
    let ghost own = views(items@).subrange(base.len() as int, views(items@).len() as int);
    assert(views(items@) =~= base + own);
    let node = t.node(i);
    let m = node.children.len();
    let mut k: usize = 0;
    while k < m
        invariant
            tree_wf(t@),
            i < t@.len(),
            node == t@[i as int],
            m == child_count_of(t@, i as int),
            k <= m,
            views(items@) == base + own + js_children(t@, i as int, k as int, s1, ctx.relative_path@, ctx.language@).0,
            texts(stack@) == js_children(t@, i as int, k as int, s1, ctx.relative_path@, ctx.language@).1,
        decreases m - k,
    {
        let c = node.children[k];
        assert(c as int == child_of(t@, i as int, k as int));
        let ghost before = views(items@);
        collect_js_tests(t, c, ctx, items, stack);
        assert(views(items@) =~= base + own + js_children(t@, i as int, k + 1, s1, ctx.relative_path@, ctx.language@).0);
        k = k + 1;
    }
    if is_call && is_describe_call(t, i) {
        let ghost s2 = texts(stack@);
        if stack.len() > 0 {
            stack.pop();
            assert(texts(stack@) =~= s2.drop_last());
        }
    }
    assert(views(items@) =~= base + js_walk(t@, i as int, st0, ctx.relative_path@, ctx.language@).0);
}

impl JavaScriptTestDetector {
    /// The Jest-style tests of a file, in pre-order: calls of `describe` (suites), `it` or
    /// `test` (tests) and setup hooks, named by their first string argument, each with
    /// the innermost named `describe` suite around it.
    pub fn find_tests(&self, ctx: &AstFileContext) -> (r: Vec<AstTestItem>)
        ensures
            views(r@) == js_tests(ctx.tree@, ctx.relative_path@, ctx.language@),
    {
        ctx.tree.wf();
        let mut items: Vec<AstTestItem> = Vec::new();
        let mut stack: Vec<String> = Vec::new();
        assert(texts(stack@) =~= Seq::<Seq<char>>::empty());
        assert(views(items@) =~= Seq::<TestView>::empty());
        collect_js_tests(&ctx.tree, 0, ctx, &mut items, &mut stack);
        assert(views(items@) =~= js_tests(ctx.tree@, ctx.relative_path@, ctx.language@));
        items
    }
}

impl AstDetector<AstTestItem> for JavaScriptTestDetector {
    fn detect(&self, ctx: &AstFileContext) -> (r: Vec<AstTestItem>)
        ensures
            views(r@) == js_tests(ctx.tree@, ctx.relative_path@, ctx.language@),
    {
        self.find_tests(ctx)
    }
}

} // verus!
