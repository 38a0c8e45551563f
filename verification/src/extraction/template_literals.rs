//! Template literals and tagged template literals in a file.
use vstd::prelude::*;

use super::calls::{enclosing_scope_of, find_enclosing_scope};
use crate::shared::{TemplateLiteralMatch, TemplateView, template_view};
use crate::syntax::{
    SyntaxNode, SyntaxTree, cap, child_by_field, child_count_of, every_node, field_child,
    has_kind, has_kind_in, kind_in, kind_is, lemma_cap_full, lemma_cap_step,
    lemma_walk_children_step, lemma_walk_unfold, node_range, node_range_spec, opt_seq, parent_of,
    tree_wf, walk, walk_children,
};
use crate::text::{chars_contain, chars_of, contains_seq, str_eq};

verus! {

/// Options of a template-literal search.
pub struct AstFindTemplateLiteralsInput {
    pub file_path: String,
    pub tag: Option<String>,
    pub contains: Option<String>,
    pub include_untagged: bool,
    pub include_enclosing_scope: bool,
    pub max_results: usize,
}

impl Default for AstFindTemplateLiteralsInput {
    fn default() -> (r: Self)
        ensures
            r.file_path@ == Seq::<char>::empty(),
            r.tag is None,
            r.contains is None,
            r.include_untagged,
            r.include_enclosing_scope,
            r.max_results == 100,
    {
        AstFindTemplateLiteralsInput {
            file_path: String::new(),
            tag: None,
            contains: None,
            include_untagged: true,
            include_enclosing_scope: true,
            max_results: 100,
        }
    }
}

/// Kinds of template-literal nodes.
pub open spec fn template_kinds() -> Seq<&'static str> {
    seq!["template_string", "template_literal"]
}

/// Kinds of interpolation nodes inside a template.
pub open spec fn interpolation_kinds() -> Seq<&'static str> {
    seq!["template_substitution", "interpolation"]
}

/// The tag of template node `i`: the `function` field of its parent, when the parent is
/// a `call_expression`.
pub open spec fn tag_of(t: Seq<SyntaxNode>, i: int) -> Option<Seq<char>> {
    match t[i].parent {
        Some(p) => if kind_is(t, p as int, "call_expression"@) {
            match field_child(t, p as int, "function"@) {
                Some(f) => Some(t[f].text@),
                None => None,
            }
        } else {
            None
        },
        None => None,
    }
}

/// The interpolation nodes of the subtree of node `i`, in pre-order (node `i` included).
pub open spec fn interpolations(t: Seq<SyntaxNode>, i: int) -> Seq<int> {
    walk(t, i, |n: int| if kind_in(t, n, interpolation_kinds()) { seq![n] } else { Seq::<int>::empty() }, every_node())
}

/// A count held in a `usize`, which stops at `usize::MAX`.
pub open spec fn saturated(n: nat) -> nat {
    if n <= usize::MAX { n } else { usize::MAX as nat }
}

/// The template reported for template node `i` under the given filters, if it passes.
pub open spec fn template_match(t: Seq<SyntaxNode>, i: int, input: AstFindTemplateLiteralsInput) -> Option<TemplateView> {
    let tag = tag_of(t, i);
    let raw = t[i].text@;
    if input.tag matches Some(req) && tag != Some(req@) {
        None
    } else if !input.include_untagged && tag is None {
        None
    } else if input.contains matches Some(sub) && !contains_seq(raw, sub@) {
        None
    } else {
        Some((tag, raw, node_range_spec(t[i]), saturated(interpolations(t, i).len()),
            if input.include_enclosing_scope { enclosing_scope_of(t, i) } else { None }))
    }
}

/// What each node contributes to a template-literal search.
pub open spec fn template_item(t: Seq<SyntaxNode>, input: AstFindTemplateLiteralsInput) -> spec_fn(int) -> Seq<TemplateView> {
    |n: int| if kind_in(t, n, template_kinds()) { opt_seq(template_match(t, n, input)) } else { Seq::empty() }
}

/// The plain-value view of a list of template literals.
pub open spec fn templates_view(v: Seq<TemplateLiteralMatch>) -> Seq<TemplateView> {
    v.map_values(|m: TemplateLiteralMatch| template_view(m))
}

fn extract_tag(t: &SyntaxTree, i: usize) -> (r: Option<String>)
    requires
        i < t@.len(),
    ensures
        crate::shared::opt_text(r) == tag_of(t@, i as int),
{
    match parent_of(t, i) {
        Some(p) => {
            if has_kind(t, p, "call_expression") {
                match child_by_field(t, p, "function") {
                    Some(f) => Some(t.node(f).text.clone()),
                    None => None,
                }
            } else {
                None
            }
        },
        None => None,
    }
}

/// The number of interpolation nodes in the subtree of node `i`, stopping at
/// `usize::MAX`.
fn count_interpolations(t: &SyntaxTree, i: usize) -> (r: usize)
    requires
        i < t@.len(),
    ensures
        r as nat == saturated(interpolations(t@, i as int).len()),
    decreases t@.len() - i,
{
    t.wf();
    let ghost item = |n: int| if kind_in(t@, n, interpolation_kinds()) { seq![n] } else { Seq::<int>::empty() };
    let ks: &[&str] = &["template_substitution", "interpolation"];
    assert(ks@ =~= interpolation_kinds());
    let mut count: usize = if has_kind_in(t, i, ks) { 1 } else { 0 };
    let node = t.node(i);
    let n = node.children.len();
    let mut k: usize = 0;
    while k < n
        invariant
            tree_wf(t@),
            i < t@.len(),
            node == t@[i as int],
            n == child_count_of(t@, i as int),
            k <= n,
            item == (|n: int| if kind_in(t@, n, interpolation_kinds()) { seq![n] } else { Seq::<int>::empty() }),
            count as nat == saturated((item(i as int) + walk_children(t@, i as int, k as int, item, every_node())).len()),
        decreases n - k,
    {
        let c = node.children[k];
        proof { lemma_walk_children_step(t@, i as int, k as int, item, every_node()); }
        let sub = count_interpolations(t, c);
        assert(item(i as int) + walk_children(t@, i as int, k as int, item, every_node())
            + walk(t@, c as int, item, every_node())
            =~= item(i as int) + walk_children(t@, i as int, k + 1, item, every_node()));
        count = count.saturating_add(sub);
        k = k + 1;
    }
    proof { lemma_walk_unfold(t@, i as int, item, every_node()); }
    count
}

fn build_template(t: &SyntaxTree, i: usize, input: &AstFindTemplateLiteralsInput) -> (r: Option<TemplateLiteralMatch>)
    requires
        i < t@.len(),
    ensures
        match r {
            Some(m) => template_match(t@, i as int, *input) == Some(template_view(m)),
            None => template_match(t@, i as int, *input) is None,
        },
{
    let node = t.node(i);
    let raw_text = node.text.clone();
    let tag = extract_tag(t, i);
    if let Some(req) = &input.tag {
        match &tag {
            Some(tg) => {
                if !str_eq(tg.as_str(), req.as_str()) {
                    return None;
                }
            },
            None => {
                return None;
            },
        }
    }
    if !input.include_untagged && tag.is_none() {
        return None;
    }
    if let Some(sub) = &input.contains {
        let hay = chars_of(raw_text.as_str());
        let needle = chars_of(sub.as_str());
        if !chars_contain(hay.as_slice(), needle.as_slice()) {
            return None;
        }
    }
    let interpolation_count = count_interpolations(t, i);
    let enclosing_scope = if input.include_enclosing_scope { find_enclosing_scope(t, i) } else { None };
    Some(TemplateLiteralMatch { tag, raw_text, range: node_range(node), interpolation_count, enclosing_scope })
}

fn collect_templates(t: &SyntaxTree, i: usize, out: &mut Vec<TemplateLiteralMatch>, input: &AstFindTemplateLiteralsInput, max: usize)
    requires
        i < t@.len(),
        old(out)@.len() <= max,
    ensures
        final(out)@.len() <= max,
        templates_view(final(out)@) == cap(templates_view(old(out)@) + walk(t@, i as int, template_item(t@, *input), every_node()), max as int),
    decreases t@.len() - i,
{
    t.wf();
    let ghost item = template_item(t@, *input);
    let ghost base = templates_view(out@);
    let ghost whole = walk(t@, i as int, item, every_node());
    if out.len() >= max {
        proof { lemma_cap_full(base, whole, max as int); }
        return;
    }
    let node = t.node(i);
    let ks: &[&str] = &["template_string", "template_literal"];
    assert(ks@ =~= template_kinds());
    if has_kind_in(t, i, ks) {
        if let Some(m) = build_template(t, i, input) {
            out.push(m);
        }
    }
    assert(templates_view(out@) =~= cap(base + item(i as int), max as int));
    let n = node.children.len();
    let mut k: usize = 0;
    while k < n
        invariant
            tree_wf(t@),
            i < t@.len(),
            node == t@[i as int],
            n == child_count_of(t@, i as int),
            k <= n,
            item == template_item(t@, *input),
            out@.len() <= max,
            templates_view(out@) == cap(base + (item(i as int) + walk_children(t@, i as int, k as int, item, every_node())), max as int),
        decreases n - k,
    {
        let c = node.children[k];
        proof { lemma_walk_children_step(t@, i as int, k as int, item, every_node()); }
        collect_templates(t, c, out, input, max);
        proof {
            lemma_cap_step(base, item(i as int) + walk_children(t@, i as int, k as int, item, every_node()),
                walk(t@, c as int, item, every_node()), max as int);
            assert(item(i as int) + walk_children(t@, i as int, k as int, item, every_node())
                + walk(t@, c as int, item, every_node())
                =~= item(i as int) + walk_children(t@, i as int, k + 1, item, every_node()));
        }
        k = k + 1;
    }
}

/// Find the template literals of a file in pre-order, up to `max_results`; the flag
/// reports whether the limit was reached.
pub fn find_template_literals(t: &SyntaxTree, input: &AstFindTemplateLiteralsInput) -> (r: (Vec<TemplateLiteralMatch>, bool))
    ensures
        templates_view(r.0@) == cap(walk(t@, 0, template_item(t@, *input), every_node()), input.max_results as int),
        r.1 == (r.0@.len() >= input.max_results),
{
    t.wf();
    let mut out: Vec<TemplateLiteralMatch> = Vec::new();
    assert(templates_view(out@) =~= Seq::<TemplateView>::empty());
    collect_templates(t, 0, &mut out, input, input.max_results);
    assert(Seq::<TemplateView>::empty() + walk(t@, 0, template_item(t@, *input), every_node())
        =~= walk(t@, 0, template_item(t@, *input), every_node()));
    let truncated = out.len() >= input.max_results;
    (out, truncated)
}

} // verus!
