//! Go tests: functions named `Test...`, `Benchmark...` or `Fuzz...`.
use vstd::prelude::*;

use super::{AstTestItem, TestKind, TestView};
use crate::frameworks::{AstDetector, AstFileContext, Confidence, evidence_list, node_evidence};
use crate::syntax::{SyntaxNode, SyntaxTree, child_by_field, field_child, has_kind, kind_is, node_range, node_range_spec, opt_seq, walk};
use crate::text::{chars_of, chars_start_with, starts_with_seq};
use crate::visit::{NodeVisitor, collect_all, views};

verus! {

/// Detects Go tests.
pub struct GoTestDetector;

/// Whether a function name is a Go test's, benchmark's or fuzz target's.
pub open spec fn go_test_name(s: Seq<char>) -> bool {
    starts_with_seq(s, "Test"@) || starts_with_seq(s, "Benchmark"@) || starts_with_seq(s, "Fuzz"@)
}

/// The test function declaration `n` declares, if its name is a test's.
pub open spec fn go_test(t: Seq<SyntaxNode>, n: int, path: Seq<char>, language: Seq<char>) -> Option<TestView> {
    match field_child(t, n, "name"@) {
        Some(nm) => if go_test_name(t[nm].text@) {
            Some(TestView {
                file_path: path,
                language,
                framework: "go_testing"@,
                kind: TestKind::Test,
                name: Some(t[nm].text@),
                range: node_range_spec(t[n]),
                parent_name: None,
                confidence: Confidence::High,
                evidence: seq![node_evidence(t, n, "function_declaration"@)],
            })
        } else {
            None
        },
        None => None,
    }
}

/// What node `n` contributes.
pub open spec fn go_test_item(t: Seq<SyntaxNode>, path: Seq<char>, language: Seq<char>) -> spec_fn(int) -> Seq<TestView> {
    |n: int| if kind_is(t, n, "function_declaration"@) { opt_seq(go_test(t, n, path, language)) } else { Seq::empty() }
}

/// The walk enters every node but function declarations.
pub open spec fn outside_functions(t: Seq<SyntaxNode>) -> spec_fn(int) -> bool {
    |n: int| !kind_is(t, n, "function_declaration"@)
}

/// The tests of a Go file, in pre-order.
pub open spec fn go_tests(t: Seq<SyntaxNode>, path: Seq<char>, language: Seq<char>) -> Seq<TestView> {
    walk(t, 0, go_test_item(t, path, language), outside_functions(t))
}

fn is_go_test_name(s: &str) -> (r: bool)
    ensures
        r == go_test_name(s@),
{
    let c = chars_of(s);
    let a = chars_of("Test");
    let b = chars_of("Benchmark");
    let f = chars_of("Fuzz");
    chars_start_with(c.as_slice(), a.as_slice()) || chars_start_with(c.as_slice(), b.as_slice())
        || chars_start_with(c.as_slice(), f.as_slice())
}

fn go_test_exec(t: &SyntaxTree, n: usize, ctx: &AstFileContext) -> (r: Option<AstTestItem>)
    requires
        n < t@.len(),
    ensures
        match r {
            Some(x) => go_test(t@, n as int, ctx.relative_path@, ctx.language@) == Some(x@),
            None => go_test(t@, n as int, ctx.relative_path@, ctx.language@) is None,
        },
{
    let nm = match child_by_field(t, n, "name") {
        Some(nm) => nm,
        None => {
            return None;
        },
    };
    let name = t.node(nm).text.as_str();
    if !is_go_test_name(name) {
        return None;
    }
    Some(AstTestItem {
        file_path: ctx.relative_path.clone(),
        language: ctx.language.clone(),
        framework: "go_testing".to_owned(),
        kind: TestKind::Test,
        name: Some(name.to_owned()),
        range: node_range(t.node(n)),
        parent_name: None,
        confidence: Confidence::High,
        evidence: evidence_list(t, n, "function_declaration"),
    })
}

struct GoTestVisitor<'a> {
    ctx: &'a AstFileContext,
}

impl<'a> NodeVisitor for GoTestVisitor<'a> {
    type Item = AstTestItem;

    closed spec fn items_at(&self, t: Seq<SyntaxNode>, n: int) -> Seq<TestView> {
        go_test_item(t, self.ctx.relative_path@, self.ctx.language@)(n)
    }

    closed spec fn descends(&self, t: Seq<SyntaxNode>, n: int) -> bool {
        outside_functions(t)(n)
    }

    fn visit(&self, t: &SyntaxTree, n: usize, out: &mut Vec<AstTestItem>) {
        if has_kind(t, n, "function_declaration") {
            if let Some(x) = go_test_exec(t, n, self.ctx) {
                out.push(x);
            }
        }
        assert(views(out@) =~= views(old(out)@) + self.items_at(t@, n as int));
    }

    fn enters(&self, t: &SyntaxTree, n: usize) -> (r: bool) {
        !has_kind(t, n, "function_declaration")
    }
}

impl GoTestDetector {
    /// The tests of a Go file, in pre-order: function declarations named `Test...`,
    /// `Benchmark...` or `Fuzz...`.
    pub fn find_tests(&self, ctx: &AstFileContext) -> (r: Vec<AstTestItem>)
        ensures
            views(r@) == go_tests(ctx.tree@, ctx.relative_path@, ctx.language@),
    {
        let v = GoTestVisitor { ctx };
        let r = collect_all(&v, &ctx.tree);
        assert(crate::visit::item_fn(&v, ctx.tree@) =~= go_test_item(ctx.tree@, ctx.relative_path@, ctx.language@));
        assert(crate::visit::descend_fn(&v, ctx.tree@) =~= outside_functions(ctx.tree@));
        r
    }
}

impl AstDetector<AstTestItem> for GoTestDetector {
    fn detect(&self, ctx: &AstFileContext) -> (r: Vec<AstTestItem>)
        ensures
            views(r@) == go_tests(ctx.tree@, ctx.relative_path@, ctx.language@),
    {
        self.find_tests(ctx)
    }
}

} // verus!
