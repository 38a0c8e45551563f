//! Rust tests: function items with an attribute mentioning `test`.
use vstd::prelude::*;

use super::{AstTestItem, TestKind, TestView};
use crate::extractors::{extract_field_text, field_text};
use crate::frameworks::{AstDetector, AstFileContext, Confidence, evidence_list, node_evidence};
use crate::syntax::{SyntaxNode, SyntaxTree, child_count_of, child_of, has_kind, kind_is, node_range, node_range_spec, tree_wf, walk};
use crate::text::{contains_seq, str_contains};
use crate::visit::{NodeVisitor, collect_all, views};

verus! {

/// Detects Rust tests.
pub struct RustTestDetector;

/// Whether some attribute among the children of node `n`, from position `k` on, mentions
/// `test`.
pub open spec fn test_attribute_from(t: Seq<SyntaxNode>, n: int, k: int) -> bool
    decreases child_count_of(t, n) - k,
{
    if 0 <= k < child_count_of(t, n) {
        let c = child_of(t, n, k);
        (kind_is(t, c, "attribute_item"@) && contains_seq(t[c].text@, "test"@)) || test_attribute_from(t, n, k + 1)
    } else {
        false
    }
}

/// The test a function item `n` with a test attribute declares.
pub open spec fn rust_test(t: Seq<SyntaxNode>, n: int, path: Seq<char>, language: Seq<char>) -> TestView {
    TestView {
        file_path: path,
        language,
        framework: "rust_test"@,
        kind: TestKind::Test,
        name: Some(match field_text(t, n, "name"@) { Some(x) => x, None => Seq::empty() }),
        range: node_range_spec(t[n]),
        parent_name: None,
        confidence: Confidence::High,
        evidence: seq![node_evidence(t, n, "function_item"@)],
    }
}

/// What node `n` contributes.
pub open spec fn rust_test_item(t: Seq<SyntaxNode>, path: Seq<char>, language: Seq<char>) -> spec_fn(int) -> Seq<TestView> {
    |n: int| if kind_is(t, n, "function_item"@) && test_attribute_from(t, n, 0) { seq![rust_test(t, n, path, language)] } else { Seq::empty() }
}

/// The walk enters every node but function items.
pub open spec fn outside_function_items(t: Seq<SyntaxNode>) -> spec_fn(int) -> bool {
    |n: int| !kind_is(t, n, "function_item"@)
}

/// The tests of a Rust file, in pre-order.
pub open spec fn rust_tests(t: Seq<SyntaxNode>, path: Seq<char>, language: Seq<char>) -> Seq<TestView> {
    walk(t, 0, rust_test_item(t, path, language), outside_function_items(t))
}

fn has_test_attribute(t: &SyntaxTree, n: usize) -> (r: bool)
    requires
        n < t@.len(),
    ensures
        r == test_attribute_from(t@, n as int, 0),
{
    t.wf();
    let node = t.node(n);
    let m = node.children.len();
    let mut k: usize = 0;
    while k < m
        invariant
            tree_wf(t@),
            n < t@.len(),
            node == t@[n as int],
            m == child_count_of(t@, n as int),
            k <= m,
            test_attribute_from(t@, n as int, 0) == test_attribute_from(t@, n as int, k as int),
        decreases m - k,
    {
        let c = node.children[k];
        assert(c as int == child_of(t@, n as int, k as int));
        if has_kind(t, c, "attribute_item") && str_contains(t.node(c).text.as_str(), "test") {
            return true;
        }
        k = k + 1;
    }
    false
}

struct RustTestVisitor<'a> {
    ctx: &'a AstFileContext,
}

impl<'a> NodeVisitor for RustTestVisitor<'a> {
    type Item = AstTestItem;

    closed spec fn items_at(&self, t: Seq<SyntaxNode>, n: int) -> Seq<TestView> {
        rust_test_item(t, self.ctx.relative_path@, self.ctx.language@)(n)
    }

    closed spec fn descends(&self, t: Seq<SyntaxNode>, n: int) -> bool {
        outside_function_items(t)(n)
    }

    fn visit(&self, t: &SyntaxTree, n: usize, out: &mut Vec<AstTestItem>) {
        if has_kind(t, n, "function_item") && has_test_attribute(t, n) {
            let name = match extract_field_text(t, n, "name") {
                Some(x) => x,
                None => String::new(),
            };
            out.push(AstTestItem {
                file_path: self.ctx.relative_path.clone(),
                language: self.ctx.language.clone(),
                framework: "rust_test".to_owned(),
                kind: TestKind::Test,
                name: Some(name),
                range: node_range(t.node(n)),
                parent_name: None,
                confidence: Confidence::High,
                evidence: evidence_list(t, n, "function_item"),
            });
        }
        assert(views(out@) =~= views(old(out)@) + self.items_at(t@, n as int));
    }

    fn enters(&self, t: &SyntaxTree, n: usize) -> (r: bool) {
        !has_kind(t, n, "function_item")
    }
}

impl RustTestDetector {
    /// The tests of a Rust file, in pre-order: function items with a child attribute
    /// whose text mentions `test`.
    pub fn find_tests(&self, ctx: &AstFileContext) -> (r: Vec<AstTestItem>)
        ensures
            views(r@) == rust_tests(ctx.tree@, ctx.relative_path@, ctx.language@),
    {
        let v = RustTestVisitor { ctx };
        let r = collect_all(&v, &ctx.tree);
        assert(crate::visit::item_fn(&v, ctx.tree@) =~= rust_test_item(ctx.tree@, ctx.relative_path@, ctx.language@));
        assert(crate::visit::descend_fn(&v, ctx.tree@) =~= outside_function_items(ctx.tree@));
        r
    }
}

impl AstDetector<AstTestItem> for RustTestDetector {
    fn detect(&self, ctx: &AstFileContext) -> (r: Vec<AstTestItem>)
        ensures
            views(r@) == rust_tests(ctx.tree@, ctx.relative_path@, ctx.language@),
    {
        self.find_tests(ctx)
    }
}

} // verus!
