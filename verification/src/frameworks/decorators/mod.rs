//! Decorator and attribute detectors (Python, Rust, TypeScript).
use vstd::prelude::*;

use super::{Confidence, Evidence, EvidenceView, evidences_view};
use crate::extractors::{extract_field_text, field_text};
use crate::shared::{Range, opt_text, texts};
use crate::syntax::{SyntaxNode, SyntaxTree, child_count_of, child_of, node_range, node_range_spec, parent_of, tree_wf};
use crate::text::str_eq;

pub mod python;
pub mod rust;
pub mod typescript;

verus! {

/// A decorator or attribute found in a file, with the declaration it applies to.
#[derive(Debug)]
pub struct AstDecorator {
    pub file_path: String,
    pub language: String,
    pub name: String,
    pub arguments_text: Vec<String>,
    pub target_kind: Option<String>,
    pub target_name: Option<String>,
    pub range: Range,
    pub target_range: Option<Range>,
    pub confidence: Confidence,
    pub evidence: Vec<Evidence>,
}

/// A decorator as plain values.
pub struct DecoratorView {
    pub file_path: Seq<char>,
    pub language: Seq<char>,
    pub name: Seq<char>,
    pub arguments_text: Seq<Seq<char>>,
    pub target_kind: Option<Seq<char>>,
    pub target_name: Option<Seq<char>>,
    pub range: Range,
    pub target_range: Option<Range>,
    pub confidence: Confidence,
    pub evidence: Seq<EvidenceView>,
}

impl View for AstDecorator {
    type V = DecoratorView;

    open spec fn view(&self) -> DecoratorView {
        DecoratorView {
            file_path: self.file_path@,
            language: self.language@,
            name: self.name@,
            arguments_text: texts(self.arguments_text@),
            target_kind: opt_text(self.target_kind),
            target_name: opt_text(self.target_name),
            range: self.range,
            target_range: self.target_range,
            confidence: self.confidence,
            evidence: evidences_view(self.evidence@),
        }
    }
}

/// What a decorator says of the declaration it applies to: its kind, name and range.
pub struct TargetView {
    pub kind: Option<Seq<char>>,
    pub name: Option<Seq<char>>,
    pub range: Option<Range>,
}

/// The target a declaration node gives, or none.
pub open spec fn target_of(t: Seq<SyntaxNode>, d: Option<int>) -> TargetView {
    match d {
        Some(x) => TargetView { kind: Some(t[x].kind@), name: field_text(t, x, "name"@), range: Some(node_range_spec(t[x])) },
        None => TargetView { kind: None, name: None, range: None },
    }
}

/// The target of declaration node `d`, if any, as plain values.
pub fn target_values(t: &SyntaxTree, d: Option<usize>) -> (r: (Option<String>, Option<String>, Option<Range>))
    requires
        d matches Some(x) ==> x < t@.len(),
    ensures
        (opt_text(r.0), opt_text(r.1), r.2) == ({
            let v = target_of(t@, match d { Some(x) => Some(x as int), None => None });
            (v.kind, v.name, v.range)
        }),
{
    match d {
        Some(x) => (Some(t.node(x).kind.clone()), extract_field_text(t, x, "name"), Some(node_range(t.node(x)))),
        None => (None, None, None),
    }
}

/// The first child of node `p`, from position `k` on, that is not node `n`, is named and
/// is not of kind `skip`: the declaration a decorator or attribute `n` applies to.
pub open spec fn sibling_target_from(t: Seq<SyntaxNode>, p: int, k: int, n: int, skip: Seq<char>) -> Option<int>
    decreases child_count_of(t, p) - k,
{
    if 0 <= k < child_count_of(t, p) {
        let c = child_of(t, p, k);
        if c != n && t[c].named && t[c].kind@ != skip {
            Some(c)
        } else {
            sibling_target_from(t, p, k + 1, n, skip)
        }
    } else {
        None
    }
}

/// The declaration node `n` applies to among the children of its parent.
pub open spec fn sibling_target(t: Seq<SyntaxNode>, n: int, skip: Seq<char>) -> Option<int> {
    match t[n].parent {
        Some(p) => sibling_target_from(t, p as int, 0, n, skip),
        None => None,
    }
}

/// The first named sibling of node `n` whose kind is not `skip`.
pub fn find_sibling_target(t: &SyntaxTree, n: usize, skip: &str) -> (r: Option<usize>)
    requires
        n < t@.len(),
    ensures
        match r {
            Some(c) => sibling_target(t@, n as int, skip@) == Some(c as int) && c < t@.len(),
            None => sibling_target(t@, n as int, skip@) is None,
        },
{
    t.wf();
    let p = match parent_of(t, n) {
        Some(p) => p,
        None => {
            return None;
        },
    };
    let node = t.node(p);
    let m = node.children.len();
    let mut k: usize = 0;
    while k < m
        invariant
            tree_wf(t@),
            p < t@.len(),
            node == t@[p as int],
            m == child_count_of(t@, p as int),
            k <= m,
            sibling_target(t@, n as int, skip@) == sibling_target_from(t@, p as int, k as int, n as int, skip@),
        decreases m - k,
    {
        let c = node.children[k];
        assert(c as int == child_of(t@, p as int, k as int));
        if c != n && t.node(c).named && !str_eq(t.node(c).kind.as_str(), skip) {
            return Some(c);
        }
        k = k + 1;
    }
    None
}

} // verus!
