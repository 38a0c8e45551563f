//! Node search and naming helpers shared by the context tools.
use vstd::prelude::*;

use crate::shared::{AstNodeSummary, SummaryView, opt_text, summary_view};
use crate::syntax::{
    SyntaxTree, child_by_field, child_count_of, child_of, child_with_kind_in, field_child,
    kind_child_from, node_range, node_range_spec, tree_wf,
};
use crate::text::{capped_bytes, string_bytes, truncate_text};

verus! {

/// Kinds whose first occurrence among the children names a node that has no `name` field.
pub open spec fn name_kinds() -> Seq<&'static str> {
    seq!["identifier", "property_identifier"]
}

/// The name of node `i`: the text of its `name` field, else of its first identifier or
/// property-identifier child.
pub open spec fn name_of(t: Seq<crate::syntax::SyntaxNode>, i: int) -> Option<Seq<char>> {
    match field_child(t, i, "name"@) {
        Some(c) => Some(t[c].text@),
        None => match kind_child_from(t, i, 0, name_kinds()) {
            Some(c) => Some(t[c].text@),
            None => None,
        },
    }
}

/// Extract a human-readable name from node `i`.
pub fn extract_name(t: &SyntaxTree, i: usize) -> (r: Option<String>)
    requires
        i < t@.len(),
    ensures
        opt_text(r) == name_of(t@, i as int),
{
    if let Some(c) = child_by_field(t, i, "name") {
        return Some(t.node(c).text.clone());
    }
    let ks: &[&str] = &["identifier", "property_identifier"];
    assert(ks@ =~= name_kinds());
    match child_with_kind_in(t, i, ks) {
        Some(c) => Some(t.node(c).text.clone()),
        None => None,
    }
}

/// Whether node `c` spans the byte range `[ts, te)`.
pub open spec fn spans(t: Seq<crate::syntax::SyntaxNode>, c: int, ts: int, te: int) -> bool {
    t[c].start_byte <= ts && t[c].end_byte >= te
}

/// The first child of node `i`, from position `k` on, that spans `[ts, te)`.
pub open spec fn spanning_child_from(t: Seq<crate::syntax::SyntaxNode>, i: int, k: int, ts: int, te: int) -> Option<int>
    decreases child_count_of(t, i) - k,
{
    if 0 <= k < child_count_of(t, i) {
        if spans(t, child_of(t, i, k), ts, te) {
            Some(child_of(t, i, k))
        } else {
            spanning_child_from(t, i, k + 1, ts, te)
        }
    } else {
        None
    }
}

/// The node reached from `i` by repeatedly entering the first child that spans `[ts, te)`.
pub open spec fn smallest_containing(t: Seq<crate::syntax::SyntaxNode>, i: int, ts: int, te: int) -> int
    decreases t.len() - i,
{
    if 0 <= i < t.len() {
        match spanning_child_from(t, i, 0, ts, te) {
            Some(c) => if i < c < t.len() { smallest_containing(t, c, ts, te) } else { i },
            None => i,
        }
    } else {
        i
    }
}

/// The first child of node `i` that spans `[ts, te)`.
pub fn spanning_child(t: &SyntaxTree, i: usize, ts: usize, te: usize) -> (r: Option<usize>)
    requires
        i < t@.len(),
    ensures
        match r {
            Some(c) => spanning_child_from(t@, i as int, 0, ts as int, te as int) == Some(c as int) && i < c < t@.len(),
            None => spanning_child_from(t@, i as int, 0, ts as int, te as int) is None,
        },
{
    let node = t.node(i);
    let n = node.children.len();
    let mut k: usize = 0;
    while k < n
        invariant
            node == t@[i as int],
            tree_wf(t@),
            i < t@.len(),
            n == child_count_of(t@, i as int),
            k <= n,
            spanning_child_from(t@, i as int, 0, ts as int, te as int)
                == spanning_child_from(t@, i as int, k as int, ts as int, te as int),
        decreases n - k,
    {
        let c = node.children[k];
        let cn = t.node(c);
        if cn.start_byte <= ts && cn.end_byte >= te {
            return Some(c);
        }
        k = k + 1;
    }
    None
}

/// Find the smallest node, descending from `start`, whose byte range contains `[ts, te)`:
/// at each level the first child that spans the range is entered.
pub fn find_smallest_containing(t: &SyntaxTree, start: usize, target_start: usize, target_end: usize) -> (r: Option<usize>)
    requires
        start < t@.len(),
    ensures
        r == Some(smallest_containing(t@, start as int, target_start as int, target_end as int) as usize),
{
    let mut cursor = start;
    loop
        invariant
            cursor < t@.len(),
            smallest_containing(t@, start as int, target_start as int, target_end as int)
                == smallest_containing(t@, cursor as int, target_start as int, target_end as int),
        decreases t@.len() - cursor,
    {
        match spanning_child(t, cursor, target_start, target_end) {
            Some(c) => {
                cursor = c;
            },
            None => {
                return Some(cursor);
            },
        }
    }
}

/// The summary of node `i`, with its text cut to `max_text` bytes when text is wanted.
pub open spec fn summary_spec(t: Seq<crate::syntax::SyntaxNode>, i: int, include_text: bool, max_text: int, text: Option<Seq<char>>) -> bool {
    &&& include_text && max_text > 0 ==> (text matches Some(s)
        && string_bytes(s) == capped_bytes(string_bytes(t[i].text@), max_text))
    &&& !(include_text && max_text > 0) ==> text is None
}

/// `s` summarises node `i`: its kind, name, range and byte range, and its text cut to
/// `max_text` bytes when text is wanted and the cap is positive.
pub open spec fn summarized(t: Seq<crate::syntax::SyntaxNode>, i: int, include_text: bool, max_text: int, s: AstNodeSummary) -> bool {
    &&& s.id is None
    &&& s.children is None
    &&& s.kind@ == t[i].kind@
    &&& opt_text(s.name) == name_of(t, i)
    &&& s.range == node_range_spec(t[i])
    &&& s.byte_range == Some((t[i].start_byte, t[i].end_byte))
    &&& summary_spec(t, i, include_text, max_text, opt_text(s.text))
}

/// Build a summary for node `i`.
pub fn make_summary(t: &SyntaxTree, i: usize, include_text: bool, max_text: usize) -> (r: AstNodeSummary)
    requires
        i < t@.len(),
    ensures
        summarized(t@, i as int, include_text, max_text as int, r),
{
    let node = t.node(i);
    let text = if include_text && max_text > 0 {
        let (s, _) = truncate_text(node.text.as_str(), max_text);
        Some(s)
    } else {
        None
    };
    AstNodeSummary {
        id: None,
        kind: node.kind.clone(),
        name: extract_name(t, i),
        range: node_range(node),
        byte_range: Some((node.start_byte, node.end_byte)),
        text,
        children: None,
    }
}

} // verus!
