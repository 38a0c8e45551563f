//! Python tests: `Test...` classes (pytest or unittest suites), `test_...` functions,
//! and fixtures and marked tests under `@pytest` decorators, each with the innermost
//! enclosing test class.
use vstd::prelude::*;

use super::{AstTestItem, TestKind, TestView, innermost, innermost_of};
use crate::extractors::{extract_field_text, field_text};
use crate::frameworks::{AstDetector, AstFileContext, Confidence, evidence_list, node_evidence};
use crate::frameworks::tests::javascript::pop_suite;
use crate::shared::{opt_text, texts};
use crate::syntax::{
    SyntaxNode, SyntaxTree, child_by_field, child_count_of, child_of, field_child, has_kind,
    kind_is, node_range, node_range_spec, tree_wf,
};
use crate::text::{chars_of, chars_start_with, contains_seq, starts_with_seq, str_contains};
use crate::visit::views;

verus! {

/// Detects Python tests.
pub struct PythonTestDetector;

/// Whether some decorator among the children of node `n`, from position `k` on,
/// mentions `needle`.
pub open spec fn decorator_mentions(t: Seq<SyntaxNode>, n: int, k: int, needle: Seq<char>) -> bool
    decreases child_count_of(t, n) - k,
{
    if 0 <= k < child_count_of(t, n) {
        let c = child_of(t, n, k);
        (kind_is(t, c, "decorator"@) && contains_seq(t[c].text@, needle)) || decorator_mentions(t, n, k + 1, needle)
    } else {
        false
    }
}

/// Whether class `n` lists `TestCase` among its superclasses.
pub open spec fn unittest_class(t: Seq<SyntaxNode>, n: int) -> bool {
    match field_child(t, n, "superclasses"@) {
        Some(a) => contains_seq(t[a].text@, "TestCase"@),
        None => false,
    }
}

/// Whether a class name is a test class's: it starts with `Test`.
pub open spec fn test_class_name(name: Option<Seq<char>>) -> bool {
    match name {
        Some(c) => starts_with_seq(c, "Test"@),
        None => false,
    }
}

/// The second innermost name of a stack, if any.
pub open spec fn second_innermost(st: Seq<Seq<char>>) -> Option<Seq<char>> {
    if st.len() >= 2 { Some(st[st.len() - 2]) } else { None }
}

/// A pytest item at node `n`.
pub open spec fn pytest_item(t: Seq<SyntaxNode>, n: int, kind: TestKind, name: Option<Seq<char>>, parent: Option<Seq<char>>, label: Seq<char>, path: Seq<char>, language: Seq<char>) -> TestView {
    TestView {
        file_path: path,
        language,
        framework: "pytest"@,
        kind,
        name,
        range: node_range_spec(t[n]),
        parent_name: parent,
        confidence: Confidence::High,
        evidence: seq![node_evidence(t, n, label)],
    }
}

/// The tests found in the subtree of node `i` in pre-order, with the class stack `st` on
/// entry, and the stack on exit. A test class pushes its name while its body is read.
pub open spec fn py_walk(t: Seq<SyntaxNode>, i: int, st: Seq<Seq<char>>, path: Seq<char>, language: Seq<char>) -> (Seq<TestView>, Seq<Seq<char>>)
    decreases t.len() - i, 1nat, 0nat,
{
    if 0 <= i < t.len() {
        if kind_is(t, i, "class_definition"@) {
            let cname = field_text(t, i, "name"@);
            let is_test = test_class_name(cname);
            let s1 = if is_test { st.push(cname.unwrap()) } else { st };
            let own = if is_test {
                seq![TestView {
                    file_path: path,
                    language,
                    framework: if unittest_class(t, i) { "unittest"@ } else { "pytest"@ },
                    kind: TestKind::Suite,
                    name: cname,
                    range: node_range_spec(t[i]),
                    parent_name: second_innermost(s1),
                    confidence: Confidence::High,
                    evidence: seq![node_evidence(t, i, "class_definition"@)],
                }]
            } else {
                Seq::empty()
            };
            let (rest, s2) = match field_child(t, i, "body"@) {
                Some(b) => if i < b < t.len() { py_children(t, b, child_count_of(t, b), s1, path, language) } else { (Seq::empty(), s1) },
                None => (Seq::empty(), s1),
            };
            (own + rest, if is_test { pop_suite(s2) } else { s2 })
        } else if kind_is(t, i, "function_definition"@) {
            (match field_text(t, i, "name"@) {
                Some(n) => if starts_with_seq(n, "test_"@) {
                    seq![pytest_item(t, i, TestKind::Test, Some(n), innermost(st), "function_definition"@, path, language)]
                } else {
                    Seq::empty()
                },
                None => Seq::empty(),
            }, st)
        } else if kind_is(t, i, "decorated_definition"@) {
            match field_child(t, i, "definition"@) {
                None => (Seq::empty(), st),
                Some(d) => if decorator_mentions(t, i, 0, "fixture"@) {
                    (seq![pytest_item(t, i, TestKind::Fixture, field_text(t, d, "name"@), innermost(st), "decorated_definition"@, path, language)], st)
                } else if decorator_mentions(t, i, 0, "pytest.mark"@) {
                    (seq![pytest_item(t, i, TestKind::Test, field_text(t, d, "name"@), innermost(st), "decorated_definition"@, path, language)], st)
                } else {
                    py_children(t, i, child_count_of(t, i), st, path, language)
                },
            }
        } else {
            py_children(t, i, child_count_of(t, i), st, path, language)
        }
    } else {
        (Seq::empty(), st)
    }
}

/// The tests found in the first `k` children of node `i`, threading the class stack.
pub open spec fn py_children(t: Seq<SyntaxNode>, i: int, k: int, st: Seq<Seq<char>>, path: Seq<char>, language: Seq<char>) -> (Seq<TestView>, Seq<Seq<char>>)
    decreases t.len() - i, 0nat, k,
{
    if 0 <= i < t.len() && 0 < k <= child_count_of(t, i) && i < child_of(t, i, k - 1) < t.len() {
        let (a, s1) = py_children(t, i, k - 1, st, path, language);
        let (b, s2) = py_walk(t, child_of(t, i, k - 1), s1, path, language);
        (a + b, s2)
    } else {
        (Seq::empty(), st)
    }
}

/// The Python tests of a file, in pre-order.
pub open spec fn py_tests(t: Seq<SyntaxNode>, path: Seq<char>, language: Seq<char>) -> Seq<TestView> {
    py_walk(t, 0, Seq::empty(), path, language).0
}

fn decorator_mentions_exec(t: &SyntaxTree, n: usize, needle: &str) -> (r: bool)
    requires
        n < t@.len(),
    ensures
        r == decorator_mentions(t@, n as int, 0, needle@),
{
    t.wf();
    let node = t.node(n);
    let m = node.children.len();
    let mut k: usize = 0;
    while k < m
        invariant
            tree_wf(t@),
            n < t@.len(),
            node == t@[n as int],
            m == child_count_of(t@, n as int),
            k <= m,
            decorator_mentions(t@, n as int, 0, needle@) == decorator_mentions(t@, n as int, k as int, needle@),
        decreases m - k,
    {
        let c = node.children[k];
        assert(c as int == child_of(t@, n as int, k as int));
        if has_kind(t, c, "decorator") && str_contains(t.node(c).text.as_str(), needle) {
            return true;
        }
        k = k + 1;
    }
    false
}

fn starts_with_text(s: &str, p: &str) -> (r: bool)
    ensures
        r == starts_with_seq(s@, p@),
{
    let a = chars_of(s);
    let b = chars_of(p);
    chars_start_with(a.as_slice(), b.as_slice())
}

fn pytest_item_exec(t: &SyntaxTree, n: usize, kind: TestKind, name: Option<String>, parent: Option<String>, label: &str, ctx: &AstFileContext) -> (r: AstTestItem)
    requires
        n < t@.len(),
    ensures
        r@ == pytest_item(t@, n as int, kind, opt_text(name), opt_text(parent), label@, ctx.relative_path@, ctx.language@),
{
    AstTestItem {
        file_path: ctx.relative_path.clone(),
        language: ctx.language.clone(),
        framework: "pytest".to_owned(),
        kind,
        name,
        range: node_range(t.node(n)),
        parent_name: parent,
        confidence: Confidence::High,
        evidence: evidence_list(t, n, label),
    }
}

fn collect_py_children(t: &SyntaxTree, i: usize, ctx: &AstFileContext, items: &mut Vec<AstTestItem>, stack: &mut Vec<String>)
    requires
        i < t@.len(),
    ensures
        views(final(items)@) == views(old(items)@) + py_children(t@, i as int, child_count_of(t@, i as int), texts(old(stack)@), ctx.relative_path@, ctx.language@).0,
        texts(final(stack)@) == py_children(t@, i as int, child_count_of(t@, i as int), texts(old(stack)@), ctx.relative_path@, ctx.language@).1,
    decreases t@.len() - i, 0nat,
{
    t.wf();
    let ghost s0 = texts(stack@);
    let ghost base = views(items@);
    let node = t.node(i);
    let m = node.children.len();
    let mut k: usize = 0;
    assert(base =~= base + py_children(t@, i as int, 0, s0, ctx.relative_path@, ctx.language@).0);
    while k < m
        invariant
            tree_wf(t@),
            i < t@.len(),
            node == t@[i as int],
            m == child_count_of(t@, i as int),
            k <= m,
            views(items@) == base + py_children(t@, i as int, k as int, s0, ctx.relative_path@, ctx.language@).0,
            texts(stack@) == py_children(t@, i as int, k as int, s0, ctx.relative_path@, ctx.language@).1,
        decreases m - k,
    {
        let c = node.children[k];
        assert(c as int == child_of(t@, i as int, k as int));
        collect_py_tests(t, c, ctx, items, stack);
        assert(views(items@) =~= base + py_children(t@, i as int, k + 1, s0, ctx.relative_path@, ctx.language@).0);
        k = k + 1;
    }
}

fn collect_py_tests(t: &SyntaxTree, i: usize, ctx: &AstFileContext, items: &mut Vec<AstTestItem>, stack: &mut Vec<String>)
    requires
        i < t@.len(),
    ensures
        views(final(items)@) == views(old(items)@) + py_walk(t@, i as int, texts(old(stack)@), ctx.relative_path@, ctx.language@).0,
        texts(final(stack)@) == py_walk(t@, i as int, texts(old(stack)@), ctx.relative_path@, ctx.language@).1,
    decreases t@.len() - i, 1nat,
{
    t.wf();
    let ghost st0 = texts(stack@);
    let ghost base = views(items@);
    if has_kind(t, i, "class_definition") {
        let cname = extract_field_text(t, i, "name");
        let is_test = match &cname {
            Some(c) => starts_with_text(c.as_str(), "Test"),
            None => false,
        };
        if is_test {
            let nm = cname.clone().unwrap();
            stack.push(nm);
            assert(texts(stack@) =~= st0.push(opt_text(cname).unwrap()));
            let framework = match child_by_field(t, i, "superclasses") {
                Some(a) => if str_contains(t.node(a).text.as_str(), "TestCase") { "unittest".to_owned() } else { "pytest".to_owned() },
                None => "pytest".to_owned(),
            };
            let parent_name = if stack.len() >= 2 { Some(stack[stack.len() - 2].clone()) } else { None };
            items.push(AstTestItem {
                file_path: ctx.relative_path.clone(),
                language: ctx.language.clone(),
                framework,
                kind: TestKind::Suite,
                name: cname,
                range: node_range(t.node(i)),
                parent_name,
                confidence: Confidence::High,
                evidence: evidence_list(t, i, "class_definition"),
            });
        }
        let ghost s1 = texts(stack@);
        let ghost mid = views(items@);
        match child_by_field(t, i, "body") {
            Some(b) => collect_py_children(t, b, ctx, items, stack),
            None => {},
        }
        if is_test {
            let ghost s2 = texts(stack@);
            if stack.len() > 0 {
                stack.pop();
                assert(texts(stack@) =~= s2.drop_last());
            }
        }
        assert(views(items@) =~= base + py_walk(t@, i as int, st0, ctx.relative_path@, ctx.language@).0);
    } else if has_kind(t, i, "function_definition") {
        if let Some(n) = extract_field_text(t, i, "name") {
            if starts_with_text(n.as_str(), "test_") {
                let parent = innermost_of(stack);
                let item = pytest_item_exec(t, i, TestKind::Test, Some(n), parent, "function_definition", ctx);
                proof { reveal_strlit("function_definition"); }
                items.push(item);
            }
        }
        assert(views(items@) =~= base + py_walk(t@, i as int, st0, ctx.relative_path@, ctx.language@).0);
    } else if has_kind(t, i, "decorated_definition") {
        match child_by_field(t, i, "definition") {
            None => {},
            Some(d) => {
                let fixture = decorator_mentions_exec(t, i, "fixture");
                if fixture || decorator_mentions_exec(t, i, "pytest.mark") {
                    let kind = if fixture { TestKind::Fixture } else { TestKind::Test };
                    let parent = innermost_of(stack);
                    let item = pytest_item_exec(t, i, kind, extract_field_text(t, d, "name"), parent, "decorated_definition", ctx);
                    proof { reveal_strlit("decorated_definition"); }
                    items.push(item);
                } else {
                    collect_py_children(t, i, ctx, items, stack);
                }
            },
        }
        assert(views(items@) =~= base + py_walk(t@, i as int, st0, ctx.relative_path@, ctx.language@).0);
    } else {
        collect_py_children(t, i, ctx, items, stack);
    }
}

impl PythonTestDetector {
    /// The Python tests of a file, in pre-order: classes named `Test...` (suites; unittest
    /// when a superclass mentions `TestCase`), functions named `test_...`, and decorated
    /// definitions under a decorator mentioning `fixture` (fixtures) or `pytest.mark`
    /// (tests); each with the innermost enclosing test class.
    pub fn find_tests(&self, ctx: &AstFileContext) -> (r: Vec<AstTestItem>)
        ensures
            views(r@) == py_tests(ctx.tree@, ctx.relative_path@, ctx.language@),
    {
        ctx.tree.wf();
        let mut items: Vec<AstTestItem> = Vec::new();
        let mut stack: Vec<String> = Vec::new();
        assert(texts(stack@) =~= Seq::<Seq<char>>::empty());
        assert(views(items@) =~= Seq::<TestView>::empty());
        collect_py_tests(&ctx.tree, 0, ctx, &mut items, &mut stack);
        assert(views(items@) =~= py_tests(ctx.tree@, ctx.relative_path@, ctx.language@));
        items
    }
}

impl AstDetector<AstTestItem> for PythonTestDetector {
    fn detect(&self, ctx: &AstFileContext) -> (r: Vec<AstTestItem>)
        ensures
            views(r@) == py_tests(ctx.tree@, ctx.relative_path@, ctx.language@),
    {
        self.find_tests(ctx)
    }
}

} // verus!
