//! Member accesses (`a.b`, `a[b]`, `pkg.Name`) in a file, with optional filters.
use vstd::prelude::*;

use super::calls::{enclosing_scope_of, find_enclosing_scope};
use crate::shared::{MemberAccess, MemberView, member_view};
use crate::syntax::{
    SyntaxNode, SyntaxTree, cap, child_by_field, child_count_of, child_of, every_node, field_child,
    has_kind_in, kind_in, lemma_cap_full, lemma_cap_step, lemma_walk_children_step, node_range,
    node_range_spec, opt_seq, text_in, tree_wf, walk, walk_children,
};
use crate::text::{chars_contain, chars_of, contains_seq, str_eq};

verus! {

/// Options of a member-access search.
pub struct AstFindMemberAccessInput {
    pub file_path: String,
    pub property: Option<String>,
    pub object_contains: Option<String>,
    pub full_text_contains: Option<String>,
    pub include_enclosing_scope: bool,
    pub max_results: usize,
}

impl Default for AstFindMemberAccessInput {
    fn default() -> (r: Self)
        ensures
            r.file_path@ == Seq::<char>::empty(),
            r.property is None,
            r.object_contains is None,
            r.full_text_contains is None,
            r.include_enclosing_scope,
            r.max_results == 200,
    {
        AstFindMemberAccessInput {
            file_path: String::new(),
            property: None,
            object_contains: None,
            full_text_contains: None,
            include_enclosing_scope: true,
            max_results: 200,
        }
    }
}

/// Kinds of member-access nodes.
pub open spec fn member_kinds() -> Seq<&'static str> {
    seq!["member_expression", "attribute", "field_expression", "selector_expression", "subscript_expression"]
}

/// Kinds a trailing child may have to be taken as the accessed property.
pub open spec fn property_ident_kinds() -> Seq<&'static str> {
    seq!["property_identifier", "identifier", "field_identifier"]
}

/// The object text of member node `i`: its `object` field, else its `operand` field,
/// else empty.
pub open spec fn object_of(t: Seq<SyntaxNode>, i: int) -> Seq<char> {
    match field_child(t, i, "object"@) {
        Some(c) => t[c].text@,
        None => match field_child(t, i, "operand"@) {
            Some(c) => t[c].text@,
            None => Seq::empty(),
        },
    }
}

/// The property text of member node `i`: its `property` field, else its `field` field,
/// else its last child when that is an identifier, else empty.
pub open spec fn property_of(t: Seq<SyntaxNode>, i: int) -> Seq<char> {
    match field_child(t, i, "property"@) {
        Some(c) => t[c].text@,
        None => match field_child(t, i, "field"@) {
            Some(c) => t[c].text@,
            None => {
                let n = child_count_of(t, i);
                if n > 0 && kind_in(t, child_of(t, i, n - 1), property_ident_kinds()) {
                    t[child_of(t, i, n - 1)].text@
                } else {
                    Seq::empty()
                }
            },
        },
    }
}

/// The member access reported for member node `i` under the given filters, if it passes.
pub open spec fn member_match(t: Seq<SyntaxNode>, i: int, input: AstFindMemberAccessInput) -> Option<MemberView> {
    let object = object_of(t, i);
    let property = property_of(t, i);
    let full = t[i].text@;
    if input.property matches Some(p) && property != p@ {
        None
    } else if input.object_contains matches Some(sub) && !contains_seq(object, sub@) {
        None
    } else if input.full_text_contains matches Some(sub) && !contains_seq(full, sub@) {
        None
    } else {
        Some((object, property, full, node_range_spec(t[i]),
            if input.include_enclosing_scope { enclosing_scope_of(t, i) } else { None }))
    }
}

/// What each node contributes to a member-access search.
pub open spec fn member_item(t: Seq<SyntaxNode>, input: AstFindMemberAccessInput) -> spec_fn(int) -> Seq<MemberView> {
    |n: int| if kind_in(t, n, member_kinds()) { opt_seq(member_match(t, n, input)) } else { Seq::empty() }
}

/// The plain-value view of a list of member accesses.
pub open spec fn members_view(v: Seq<MemberAccess>) -> Seq<MemberView> {
    v.map_values(|m: MemberAccess| member_view(m))
}

/// Whether a node kind is a member access.
pub fn is_member_node(kind: &str) -> (r: bool)
    ensures
        r == text_in(kind@, member_kinds()),
{
    let ks: &[&str] = &["member_expression", "attribute", "field_expression", "selector_expression", "subscript_expression"];
    assert(ks@ =~= member_kinds());
    crate::syntax::str_in(kind, ks)
}

fn extract_object(t: &SyntaxTree, i: usize) -> (r: String)
    requires
        i < t@.len(),
    ensures
        r@ == object_of(t@, i as int),
{
    if let Some(c) = child_by_field(t, i, "object") {
        return t.node(c).text.clone();
    }
    match child_by_field(t, i, "operand") {
        Some(c) => t.node(c).text.clone(),
        None => String::new(),
    }
}

fn extract_property(t: &SyntaxTree, i: usize) -> (r: String)
    requires
        i < t@.len(),
    ensures
        r@ == property_of(t@, i as int),
{
    t.wf();
    if let Some(c) = child_by_field(t, i, "property") {
        return t.node(c).text.clone();
    }
    if let Some(c) = child_by_field(t, i, "field") {
        return t.node(c).text.clone();
    }
    let node = t.node(i);
    let n = node.children.len();
    if n > 0 {
        let last = node.children[n - 1];
        assert(last as int == child_of(t@, i as int, n - 1));
        let ks: &[&str] = &["property_identifier", "identifier", "field_identifier"];
        assert(ks@ =~= property_ident_kinds());
        if has_kind_in(t, last, ks) {
            return t.node(last).text.clone();
        }
    }
    String::new()
}

fn build_member(t: &SyntaxTree, i: usize, input: &AstFindMemberAccessInput) -> (r: Option<MemberAccess>)
    requires
        i < t@.len(),
    ensures
        match r {
            Some(m) => member_match(t@, i as int, *input) == Some(member_view(m)),
            None => member_match(t@, i as int, *input) is None,
        },
{
    let node = t.node(i);
    let full_text = node.text.clone();
    let object_text = extract_object(t, i);
    let property = extract_property(t, i);
    if let Some(p) = &input.property {
        if !str_eq(property.as_str(), p.as_str()) {
            return None;
        }
    }
    if let Some(sub) = &input.object_contains {
        let hay = chars_of(object_text.as_str());
        let needle = chars_of(sub.as_str());
        if !chars_contain(hay.as_slice(), needle.as_slice()) {
            return None;
        }
    }
    if let Some(sub) = &input.full_text_contains {
        let hay = chars_of(full_text.as_str());
        let needle = chars_of(sub.as_str());
        if !chars_contain(hay.as_slice(), needle.as_slice()) {
            return None;
        }
    }
    let enclosing_scope = if input.include_enclosing_scope { find_enclosing_scope(t, i) } else { None };
    Some(MemberAccess { object_text, property, full_text, range: node_range(node), enclosing_scope })
}

fn collect_members(t: &SyntaxTree, i: usize, out: &mut Vec<MemberAccess>, input: &AstFindMemberAccessInput, max: usize)
    requires
        i < t@.len(),
        old(out)@.len() <= max,
    ensures
        final(out)@.len() <= max,
        members_view(final(out)@) == cap(members_view(old(out)@) + walk(t@, i as int, member_item(t@, *input), every_node()), max as int),
    decreases t@.len() - i,
{
    t.wf();
    let ghost item = member_item(t@, *input);
    let ghost base = members_view(out@);
    let ghost whole = walk(t@, i as int, item, every_node());
    if out.len() >= max {
        proof { lemma_cap_full(base, whole, max as int); }
        return;
    }
    let node = t.node(i);
    if is_member_node(node.kind.as_str()) {
        if let Some(m) = build_member(t, i, input) {
            out.push(m);
        }
    }
    assert(members_view(out@) =~= cap(base + item(i as int), max as int));
    let n = node.children.len();
    let mut k: usize = 0;
    while k < n
        invariant
            tree_wf(t@),
            i < t@.len(),
            node == t@[i as int],
            n == child_count_of(t@, i as int),
            k <= n,
            item == member_item(t@, *input),
            out@.len() <= max,
            members_view(out@) == cap(base + (item(i as int) + walk_children(t@, i as int, k as int, item, every_node())), max as int),
        decreases n - k,
    {
        let c = node.children[k];
        proof { lemma_walk_children_step(t@, i as int, k as int, item, every_node()); }
        collect_members(t, c, out, input, max);
        proof {
            lemma_cap_step(base, item(i as int) + walk_children(t@, i as int, k as int, item, every_node()),
                walk(t@, c as int, item, every_node()), max as int);
            assert(item(i as int) + walk_children(t@, i as int, k as int, item, every_node())
                + walk(t@, c as int, item, every_node())
                =~= item(i as int) + walk_children(t@, i as int, k + 1, item, every_node()));
        }
        k = k + 1;
    }
}

/// Find the member accesses of a file in pre-order, up to `max_results`; the flag
/// reports whether the limit was reached.
pub fn find_member_accesses(t: &SyntaxTree, input: &AstFindMemberAccessInput) -> (r: (Vec<MemberAccess>, bool))
    ensures
        members_view(r.0@) == cap(walk(t@, 0, member_item(t@, *input), every_node()), input.max_results as int),
        r.1 == (r.0@.len() >= input.max_results),
{
    t.wf();
    let mut out: Vec<MemberAccess> = Vec::new();
    assert(members_view(out@) =~= Seq::<MemberView>::empty());
    collect_members(t, 0, &mut out, input, input.max_results);
    assert(Seq::<MemberView>::empty() + walk(t@, 0, member_item(t@, *input), every_node())
        =~= walk(t@, 0, member_item(t@, *input), every_node()));
    let truncated = out.len() >= input.max_results;
    (out, truncated)
}

} // verus!
