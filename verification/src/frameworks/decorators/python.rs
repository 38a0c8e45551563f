//! Python decorators: `@name`, `@module.name` and `@name(args)` on definitions.
use vstd::prelude::*;

use super::{AstDecorator, DecoratorView, target_of, target_values};
use crate::frameworks::{AstDetector, AstFileContext, Confidence, decorated_definition, decorated_definition_of, evidence_list, node_evidence};
use crate::syntax::{SyntaxNode, SyntaxTree, has_kind, kind_is, node_range, walk};
use crate::text::{CharSet, chars_of, find_any, find_any_char, rfind_char, rfind_chars, string_from_chars, trim_start_chars, trim_start_set};
use crate::visit::{NodeVisitor, collect_all, views};

verus! {

/// Detects Python decorators.
pub struct PythonDecoratorDetector;

/// The decorator of node `n`: its text without leading `@`s up to the first `(` is its
/// name; the text between that `(` and the last `)` after it is its one argument text.
pub open spec fn python_decorator(t: Seq<SyntaxNode>, n: int, path: Seq<char>, language: Seq<char>) -> DecoratorView {
    let body = trim_start_set(t[n].text@, CharSet::At);
    let paren = find_any(body, seq!['(']);
    let target = target_of(t, decorated_definition(t, n));
    DecoratorView {
        file_path: path,
        language,
        name: match paren { Some(p) => body.take(p), None => body },
        arguments_text: match paren {
            Some(p) => {
                let end = match rfind_char(body, ')') { Some(e) => e, None => body.len() as int };
                if p < end { seq![body.subrange(p + 1, end)] } else { Seq::empty() }
            },
            None => Seq::empty(),
        },
        target_kind: target.kind,
        target_name: target.name,
        range: crate::syntax::node_range_spec(t[n]),
        target_range: target.range,
        confidence: Confidence::High,
        evidence: seq![node_evidence(t, n, "decorator"@)],
    }
}

/// What node `n` contributes: the decorator, if it is one.
pub open spec fn python_decorator_item(t: Seq<SyntaxNode>, path: Seq<char>, language: Seq<char>) -> spec_fn(int) -> Seq<DecoratorView> {
    |n: int| if kind_is(t, n, "decorator"@) { seq![python_decorator(t, n, path, language)] } else { Seq::empty() }
}

/// The walk enters every node but decorators.
pub open spec fn skips_decorators(t: Seq<SyntaxNode>) -> spec_fn(int) -> bool {
    |n: int| !kind_is(t, n, "decorator"@)
}

/// The Python decorators of a file, in pre-order.
pub open spec fn python_decorators(t: Seq<SyntaxNode>, path: Seq<char>, language: Seq<char>) -> Seq<DecoratorView> {
    walk(t, 0, python_decorator_item(t, path, language), skips_decorators(t))
}

#[verifier::rlimit(30)]
fn extract_decorator(t: &SyntaxTree, n: usize, ctx: &AstFileContext) -> (r: AstDecorator)
    requires
        n < t@.len(),
    ensures
        r@ == python_decorator(t@, n as int, ctx.relative_path@, ctx.language@),
{
    let chars = chars_of(t.node(n).text.as_str());
    let body = trim_start_chars(chars.as_slice(), CharSet::At);
    let len = body.len();
    let parens: &[char] = &['('];
    assert(parens@ =~= seq!['(']);
    let paren = find_any_char(body.as_slice(), parens);
    let name = match paren {
        Some(p) => {
            let head = vstd::slice::slice_subrange(body.as_slice(), 0, p);
            assert(head@ =~= body@.take(p as int));
            string_from_chars(head)
        },
        None => string_from_chars(body.as_slice()),
    };
    let mut arguments_text: Vec<String> = Vec::new();
    if let Some(p) = paren {
        let end = match rfind_chars(body.as_slice(), ')') {
            Some(e) => e,
            None => len,
        };
        if p < end {
            let inner = vstd::slice::slice_subrange(body.as_slice(), p + 1, end);
            arguments_text.push(string_from_chars(inner));
        }
    }
    assert(crate::shared::texts(arguments_text@) =~= python_decorator(t@, n as int, ctx.relative_path@, ctx.language@).arguments_text);
    let d = decorated_definition_of(t, n);
    let (target_kind, target_name, target_range) = target_values(t, d);
    AstDecorator {
        file_path: ctx.relative_path.clone(),
        language: ctx.language.clone(),
        name,
        arguments_text,
        target_kind,
        target_name,
        range: node_range(t.node(n)),
        target_range,
        confidence: Confidence::High,
        evidence: evidence_list(t, n, "decorator"),
    }
}

struct PythonDecoratorVisitor<'a> {
    ctx: &'a AstFileContext,
}

impl<'a> NodeVisitor for PythonDecoratorVisitor<'a> {
    type Item = AstDecorator;

    closed spec fn items_at(&self, t: Seq<SyntaxNode>, n: int) -> Seq<DecoratorView> {
        python_decorator_item(t, self.ctx.relative_path@, self.ctx.language@)(n)
    }

    closed spec fn descends(&self, t: Seq<SyntaxNode>, n: int) -> bool {
        skips_decorators(t)(n)
    }

    fn visit(&self, t: &SyntaxTree, n: usize, out: &mut Vec<AstDecorator>) {
        if has_kind(t, n, "decorator") {
            out.push(extract_decorator(t, n, self.ctx));
        }
        assert(views(out@) =~= views(old(out)@) + self.items_at(t@, n as int));
    }

    fn enters(&self, t: &SyntaxTree, n: usize) -> (r: bool) {
        !has_kind(t, n, "decorator")
    }
}

impl PythonDecoratorDetector {
    /// The decorators of a Python file, in pre-order, each with the definition it
    /// decorates.
    pub fn find_decorators(&self, ctx: &AstFileContext) -> (r: Vec<AstDecorator>)
        ensures
            views(r@) == python_decorators(ctx.tree@, ctx.relative_path@, ctx.language@),
    {
        let v = PythonDecoratorVisitor { ctx };
        let r = collect_all(&v, &ctx.tree);
        assert(crate::visit::item_fn(&v, ctx.tree@) =~= python_decorator_item(ctx.tree@, ctx.relative_path@, ctx.language@));
        assert(crate::visit::descend_fn(&v, ctx.tree@) =~= skips_decorators(ctx.tree@));
        r
    }
}

impl AstDetector<AstDecorator> for PythonDecoratorDetector {
    fn detect(&self, ctx: &AstFileContext) -> (r: Vec<AstDecorator>)
        ensures
            views(r@) == python_decorators(ctx.tree@, ctx.relative_path@, ctx.language@),
    {
        self.find_decorators(ctx)
    }
}

} // verus!
