//! Rust attributes: `#[name]` and `#[name(args)]` items, with the item they apply to.
use vstd::prelude::*;

use super::{AstDecorator, DecoratorView, find_sibling_target, sibling_target, target_of, target_values};
use crate::frameworks::{AstDetector, AstFileContext, Confidence, evidence_list, node_evidence};
use crate::syntax::{SyntaxNode, SyntaxTree, has_kind, kind_is, node_range, node_range_spec, walk};
use crate::text::{
    CharSet, chars_of, find_any, find_any_char, rfind_char, rfind_chars, string_from_chars,
    trim_chars, trim_end_chars, trim_end_set, trim_set, trim_start_pattern, trim_start_seq,
};
use crate::visit::{NodeVisitor, collect_all, views};

verus! {

/// Detects Rust attributes.
pub struct RustDecoratorDetector;

/// The inside of an attribute: its text without leading `#[`s, trailing `]`s and
/// surrounding whitespace.
pub open spec fn attribute_inner(text: Seq<char>) -> Seq<char> {
    trim_set(trim_end_set(trim_start_seq(text, "#["@), CharSet::CloseBracket), CharSet::Whitespace)
}

/// The attribute of node `n`: the inside up to the first `(` is its name; the text
/// between that `(` and the last `)` after it is its one argument text (both without
/// surrounding whitespace); it applies to the first named sibling that is no attribute.
pub open spec fn rust_attribute(t: Seq<SyntaxNode>, n: int, path: Seq<char>, language: Seq<char>) -> DecoratorView {
    let inner = attribute_inner(t[n].text@);
    let paren = find_any(inner, seq!['(']);
    let target = target_of(t, sibling_target(t, n, "attribute_item"@));
    DecoratorView {
        file_path: path,
        language,
        name: match paren { Some(p) => trim_set(inner.take(p), CharSet::Whitespace), None => inner },
        arguments_text: match paren {
            Some(p) => {
                let end = match rfind_char(inner, ')') { Some(e) => e, None => inner.len() as int };
                if p < end { seq![trim_set(inner.subrange(p + 1, end), CharSet::Whitespace)] } else { Seq::empty() }
            },
            None => Seq::empty(),
        },
        target_kind: target.kind,
        target_name: target.name,
        range: node_range_spec(t[n]),
        target_range: target.range,
        confidence: Confidence::High,
        evidence: seq![node_evidence(t, n, "attribute_item"@)],
    }
}

/// What node `n` contributes: the attribute, if it is one.
pub open spec fn rust_attribute_item(t: Seq<SyntaxNode>, path: Seq<char>, language: Seq<char>) -> spec_fn(int) -> Seq<DecoratorView> {
    |n: int| if kind_is(t, n, "attribute_item"@) { seq![rust_attribute(t, n, path, language)] } else { Seq::empty() }
}

/// The walk enters every node but attributes.
pub open spec fn skips_attributes(t: Seq<SyntaxNode>) -> spec_fn(int) -> bool {
    |n: int| !kind_is(t, n, "attribute_item"@)
}

/// The attributes of a Rust file, in pre-order.
pub open spec fn rust_attributes(t: Seq<SyntaxNode>, path: Seq<char>, language: Seq<char>) -> Seq<DecoratorView> {
    walk(t, 0, rust_attribute_item(t, path, language), skips_attributes(t))
}

fn attribute_inner_of(text: &str) -> (r: Vec<char>)
    ensures
        r@ == attribute_inner(text@),
{
    let chars = chars_of(text);
    let open = chars_of("#[");
    proof { reveal_strlit("#["); }
    let a = trim_start_pattern(chars.as_slice(), open.as_slice());
    let b = trim_end_chars(a.as_slice(), CharSet::CloseBracket);
    trim_chars(b.as_slice(), CharSet::Whitespace)
}

#[verifier::rlimit(30)]
fn extract_attribute(t: &SyntaxTree, n: usize, ctx: &AstFileContext) -> (r: AstDecorator)
    requires
        n < t@.len(),
    ensures
        r@ == rust_attribute(t@, n as int, ctx.relative_path@, ctx.language@),
{
    let inner = attribute_inner_of(t.node(n).text.as_str());
    let len = inner.len();
    let parens: &[char] = &['('];
    assert(parens@ =~= seq!['(']);
    let paren = find_any_char(inner.as_slice(), parens);
    let name = match paren {
        Some(p) => {
            let head = vstd::slice::slice_subrange(inner.as_slice(), 0, p);
            assert(head@ =~= inner@.take(p as int));
            string_from_chars(trim_chars(head, CharSet::Whitespace).as_slice())
        },
        None => string_from_chars(inner.as_slice()),
    };
    let mut arguments_text: Vec<String> = Vec::new();
    if let Some(p) = paren {
        let end = match rfind_chars(inner.as_slice(), ')') {
            Some(e) => e,
            None => len,
        };
        if p < end {
            let args = vstd::slice::slice_subrange(inner.as_slice(), p + 1, end);
            arguments_text.push(string_from_chars(trim_chars(args, CharSet::Whitespace).as_slice()));
        }
    }
    assert(crate::shared::texts(arguments_text@) =~= rust_attribute(t@, n as int, ctx.relative_path@, ctx.language@).arguments_text);
    let target = find_sibling_target(t, n, "attribute_item");
    let (target_kind, target_name, target_range) = target_values(t, target);
    AstDecorator {
        file_path: ctx.relative_path.clone(),
        language: ctx.language.clone(),
        name,
        arguments_text,
        target_kind,
        target_name,
        range: node_range(t.node(n)),
        target_range,
        confidence: Confidence::High,
        evidence: evidence_list(t, n, "attribute_item"),
    }
}

struct RustAttributeVisitor<'a> {
    ctx: &'a AstFileContext,
}

impl<'a> NodeVisitor for RustAttributeVisitor<'a> {
    type Item = AstDecorator;

    closed spec fn items_at(&self, t: Seq<SyntaxNode>, n: int) -> Seq<DecoratorView> {
        rust_attribute_item(t, self.ctx.relative_path@, self.ctx.language@)(n)
    }

    closed spec fn descends(&self, t: Seq<SyntaxNode>, n: int) -> bool {
        skips_attributes(t)(n)
    }

    fn visit(&self, t: &SyntaxTree, n: usize, out: &mut Vec<AstDecorator>) {
        if has_kind(t, n, "attribute_item") {
            out.push(extract_attribute(t, n, self.ctx));
        }
        assert(views(out@) =~= views(old(out)@) + self.items_at(t@, n as int));
    }

    fn enters(&self, t: &SyntaxTree, n: usize) -> (r: bool) {
        !has_kind(t, n, "attribute_item")
    }
}

impl RustDecoratorDetector {
    /// The attributes of a Rust file, in pre-order, each with the item it applies to.
    pub fn find_attributes(&self, ctx: &AstFileContext) -> (r: Vec<AstDecorator>)
        ensures
            views(r@) == rust_attributes(ctx.tree@, ctx.relative_path@, ctx.language@),
    {
        let v = RustAttributeVisitor { ctx };
        let r = collect_all(&v, &ctx.tree);
        assert(crate::visit::item_fn(&v, ctx.tree@) =~= rust_attribute_item(ctx.tree@, ctx.relative_path@, ctx.language@));
        assert(crate::visit::descend_fn(&v, ctx.tree@) =~= skips_attributes(ctx.tree@));
        r
    }
}

impl AstDetector<AstDecorator> for RustDecoratorDetector {
    fn detect(&self, ctx: &AstFileContext) -> (r: Vec<AstDecorator>)
        ensures
            views(r@) == rust_attributes(ctx.tree@, ctx.relative_path@, ctx.language@),
    {
        self.find_attributes(ctx)
    }
}

} // verus!
