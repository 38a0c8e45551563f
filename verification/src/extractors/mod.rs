//! Extractors of functions, classes, imports, exports, outlines and chunks from syntax
//! trees, and the helpers they share.
use vstd::prelude::*;

use crate::syntax::{
    SyntaxNode, SyntaxTree, child_by_field, child_count_of, child_of, child_with_kind_in,
    field_child, kind_child_from, tree_wf,
};
use crate::text::{
    CharSet, capped_bytes, capped_text, chars_of, string_bytes, trim_set, trim_to_string,
};

pub mod chunks;
pub mod classes;
pub mod enclosing_node;
pub mod exports;
pub mod functions;
pub mod imports;
pub mod outline;
pub mod queries;
pub mod top_level;

verus! {

/// A node that may appear in a file outline, with the candidates below it.
#[derive(Debug)]
pub struct OutlineCandidate {
    pub kind: String,
    pub name: Option<String>,
    pub range: crate::shared::Range,
    pub children: Vec<OutlineCandidate>,
}

/// The name of node `i`: the text of its `name` field, else of its first `identifier`
/// child.
pub open spec fn identifier_name(t: Seq<SyntaxNode>, i: int) -> Option<Seq<char>> {
    match field_child(t, i, "name"@) {
        Some(c) => Some(t[c].text@),
        None => match kind_child_from(t, i, 0, seq!["identifier"]) {
            Some(c) => Some(t[c].text@),
            None => None,
        },
    }
}

/// The name of a node.
pub fn extract_identifier_name(t: &SyntaxTree, i: usize) -> (r: Option<String>)
    requires
        i < t@.len(),
    ensures
        crate::shared::opt_text(r) == identifier_name(t@, i as int),
{
    if let Some(c) = child_by_field(t, i, "name") {
        return Some(t.node(c).text.clone());
    }
    let ks: &[&str] = &["identifier"];
    assert(ks@ =~= seq!["identifier"]);
    match child_with_kind_in(t, i, ks) {
        Some(c) => Some(t.node(c).text.clone()),
        None => None,
    }
}

/// The text of the child of node `i` under field `name`, if any.
pub open spec fn field_text(t: Seq<SyntaxNode>, i: int, name: Seq<char>) -> Option<Seq<char>> {
    match field_child(t, i, name) {
        Some(c) => Some(t[c].text@),
        None => None,
    }
}

/// The text of a node's child under a field.
pub fn extract_field_text(t: &SyntaxTree, i: usize, name: &str) -> (r: Option<String>)
    requires
        i < t@.len(),
    ensures
        crate::shared::opt_text(r) == field_text(t@, i as int, name@),
{
    match child_by_field(t, i, name) {
        Some(c) => Some(t.node(c).text.clone()),
        None => None,
    }
}

/// Whether node `i` has a child (named or not) of kind `k`.
pub open spec fn has_child_kind(t: Seq<SyntaxNode>, i: int, k: Seq<char>) -> bool {
    exists|j: int| 0 <= j < child_count_of(t, i) && t[child_of(t, i, j)].kind@ == k
}

/// Whether a node has a child of the given kind, such as the `async` keyword.
pub fn has_anonymous_child(t: &SyntaxTree, i: usize, target: &str) -> (r: bool)
    requires
        i < t@.len(),
    ensures
        r == has_child_kind(t@, i as int, target@),
{
    t.wf();
    let node = t.node(i);
    let n = node.children.len();
    let mut k: usize = 0;
    while k < n
        invariant
            tree_wf(t@),
            i < t@.len(),
            node == t@[i as int],
            n == child_count_of(t@, i as int),
            k <= n,
            forall|j: int| 0 <= j < k ==> t@[child_of(t@, i as int, j)].kind@ != target@,
        decreases n - k,
    {
        let c = node.children[k];
        assert(c as int == child_of(t@, i as int, k as int));
        if crate::text::str_eq(t.node(c).kind.as_str(), target) {
            return true;
        }
        k = k + 1;
    }
    false
}

/// The text of node `i` without leading and trailing whitespace, cut to `max_bytes`
/// bytes on a character boundary.
pub open spec fn trimmed_text(t: Seq<SyntaxNode>, i: int, max_bytes: int) -> Seq<u8> {
    capped_bytes(string_bytes(trim_set(t[i].text@, CharSet::Whitespace)), max_bytes)
}

/// A node's text, trimmed and cut to `max_bytes` bytes.
pub fn trimmed_node_text(t: &SyntaxTree, i: usize, max_bytes: usize) -> (r: String)
    requires
        i < t@.len(),
    ensures
        string_bytes(r@) == trimmed_text(t@, i as int, max_bytes as int),
{
    let chars = chars_of(t.node(i).text.as_str());
    let trimmed = trim_to_string(chars.as_slice(), CharSet::Whitespace);
    capped_text(trimmed.as_str(), max_bytes)
}

} // verus!
