//! TypeScript decorators: `@Name` and `@Name(args)` on classes, members and parameters.
use vstd::prelude::*;

use super::{AstDecorator, DecoratorView, find_sibling_target, sibling_target, target_of, target_values};
use crate::frameworks::{AstDetector, AstFileContext, Confidence, evidence_list, node_evidence};
use crate::shared::texts;
use crate::syntax::{
    SyntaxNode, SyntaxTree, child_by_field, child_count_of, child_of, field_child, has_kind,
    kind_is, node_range, node_range_spec, opt_seq, tree_wf, walk,
};
use crate::text::{CharSet, trim_set, trim_str};
use crate::visit::{NodeVisitor, collect_all, views};

verus! {

/// Detects TypeScript decorators.
pub struct TypeScriptDecoratorDetector;

/// The name and argument texts read from the first `k` children of decorator node `n`:
/// an identifier gives the name; a call gives the name of its function and the text of
/// its arguments; an argument list gives its text; argument texts lose their parentheses.
pub open spec fn ts_decorator_parts(t: Seq<SyntaxNode>, n: int, k: int) -> (Seq<char>, Seq<Seq<char>>)
    decreases k,
{
    if 0 < k <= child_count_of(t, n) {
        let prev = ts_decorator_parts(t, n, k - 1);
        let c = child_of(t, n, k - 1);
        if kind_is(t, c, "identifier"@) {
            (t[c].text@, prev.1)
        } else if kind_is(t, c, "call_expression"@) {
            (
                match field_child(t, c, "function"@) { Some(f) => t[f].text@, None => prev.0 },
                match field_child(t, c, "arguments"@) {
                    Some(a) => prev.1.push(trim_set(t[a].text@, CharSet::Parens)),
                    None => prev.1,
                },
            )
        } else if kind_is(t, c, "arguments"@) {
            (prev.0, prev.1.push(trim_set(t[c].text@, CharSet::Parens)))
        } else {
            prev
        }
    } else {
        (Seq::empty(), Seq::empty())
    }
}

/// The decorator of node `n`, if it names something; it applies to the first named
/// sibling that is no decorator.
pub open spec fn ts_decorator(t: Seq<SyntaxNode>, n: int, path: Seq<char>, language: Seq<char>) -> Option<DecoratorView> {
    let parts = ts_decorator_parts(t, n, child_count_of(t, n));
    if parts.0.len() == 0 {
        None
    } else {
        let target = target_of(t, sibling_target(t, n, "decorator"@));
        Some(DecoratorView {
            file_path: path,
            language,
            name: parts.0,
            arguments_text: parts.1,
            target_kind: target.kind,
            target_name: target.name,
            range: node_range_spec(t[n]),
            target_range: target.range,
            confidence: Confidence::High,
            evidence: seq![node_evidence(t, n, "decorator"@)],
        })
    }
}

/// What node `n` contributes: the decorator, if it is one that names something.
pub open spec fn ts_decorator_item(t: Seq<SyntaxNode>, path: Seq<char>, language: Seq<char>) -> spec_fn(int) -> Seq<DecoratorView> {
    |n: int| if kind_is(t, n, "decorator"@) { opt_seq(ts_decorator(t, n, path, language)) } else { Seq::empty() }
}

/// The walk enters every node but decorators.
pub open spec fn skips_ts_decorators(t: Seq<SyntaxNode>) -> spec_fn(int) -> bool {
    |n: int| !kind_is(t, n, "decorator"@)
}

/// The decorators of a TypeScript file, in pre-order.
pub open spec fn ts_decorators(t: Seq<SyntaxNode>, path: Seq<char>, language: Seq<char>) -> Seq<DecoratorView> {
    walk(t, 0, ts_decorator_item(t, path, language), skips_ts_decorators(t))
}

fn extract_decorator(t: &SyntaxTree, n: usize, ctx: &AstFileContext) -> (r: Option<AstDecorator>)
    requires
        n < t@.len(),
    ensures
        match r {
            Some(x) => ts_decorator(t@, n as int, ctx.relative_path@, ctx.language@) == Some(x@),
            None => ts_decorator(t@, n as int, ctx.relative_path@, ctx.language@) is None,
        },
{
    t.wf();
    let node = t.node(n);
    let m = node.children.len();
    let mut name = String::new();
    let mut arguments_text: Vec<String> = Vec::new();
    let mut k: usize = 0;
    while k < m
        invariant
            tree_wf(t@),
            n < t@.len(),
            node == t@[n as int],
            m == child_count_of(t@, n as int),
            k <= m,
            (name@, texts(arguments_text@)) == ts_decorator_parts(t@, n as int, k as int),
        decreases m - k,
    {
        let c = node.children[k];
        assert(c as int == child_of(t@, n as int, k as int));
        let ghost before = texts(arguments_text@);
        if has_kind(t, c, "identifier") {
            name = t.node(c).text.clone();
        } else if has_kind(t, c, "call_expression") {
            if let Some(f) = child_by_field(t, c, "function") {
                name = t.node(f).text.clone();
            }
            if let Some(a) = child_by_field(t, c, "arguments") {
                arguments_text.push(trim_str(t.node(a).text.as_str(), CharSet::Parens));
                assert(texts(arguments_text@) =~= before.push(trim_set(t@[a as int].text@, CharSet::Parens)));
            }
        } else if has_kind(t, c, "arguments") {
            arguments_text.push(trim_str(t.node(c).text.as_str(), CharSet::Parens));
            assert(texts(arguments_text@) =~= before.push(trim_set(t@[c as int].text@, CharSet::Parens)));
        }
        k = k + 1;
    }
    if name.as_str().unicode_len() == 0 {
        return None;
    }
    let target = find_sibling_target(t, n, "decorator");
    let (target_kind, target_name, target_range) = target_values(t, target);
    Some(AstDecorator {
        file_path: ctx.relative_path.clone(),
        language: ctx.language.clone(),
        name,
        arguments_text,
        target_kind,
        target_name,
        range: node_range(t.node(n)),
        target_range,
        confidence: Confidence::High,
        evidence: evidence_list(t, n, "decorator"),
    })
}

struct TsDecoratorVisitor<'a> {
    ctx: &'a AstFileContext,
}

impl<'a> NodeVisitor for TsDecoratorVisitor<'a> {
    type Item = AstDecorator;

    closed spec fn items_at(&self, t: Seq<SyntaxNode>, n: int) -> Seq<DecoratorView> {
        ts_decorator_item(t, self.ctx.relative_path@, self.ctx.language@)(n)
    }

    closed spec fn descends(&self, t: Seq<SyntaxNode>, n: int) -> bool {
        skips_ts_decorators(t)(n)
    }

    fn visit(&self, t: &SyntaxTree, n: usize, out: &mut Vec<AstDecorator>) {
        if has_kind(t, n, "decorator") {
            if let Some(d) = extract_decorator(t, n, self.ctx) {
                out.push(d);
            }
        }
        assert(views(out@) =~= views(old(out)@) + self.items_at(t@, n as int));
    }

    fn enters(&self, t: &SyntaxTree, n: usize) -> (r: bool) {
        !has_kind(t, n, "decorator")
    }
}

impl TypeScriptDecoratorDetector {
    /// The decorators of a TypeScript file that name something, in pre-order, each with
    /// the declaration it applies to.
    pub fn find_decorators(&self, ctx: &AstFileContext) -> (r: Vec<AstDecorator>)
        ensures
            views(r@) == ts_decorators(ctx.tree@, ctx.relative_path@, ctx.language@),
    {
        let v = TsDecoratorVisitor { ctx };
        let r = collect_all(&v, &ctx.tree);
        assert(crate::visit::item_fn(&v, ctx.tree@) =~= ts_decorator_item(ctx.tree@, ctx.relative_path@, ctx.language@));
        assert(crate::visit::descend_fn(&v, ctx.tree@) =~= skips_ts_decorators(ctx.tree@));
        r
    }
}

impl AstDetector<AstDecorator> for TypeScriptDecoratorDetector {
    fn detect(&self, ctx: &AstFileContext) -> (r: Vec<AstDecorator>)
        ensures
            views(r@) == ts_decorators(ctx.tree@, ctx.relative_path@, ctx.language@),
    {
        self.find_decorators(ctx)
    }
}

} // verus!
