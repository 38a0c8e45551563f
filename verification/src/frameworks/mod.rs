//! Framework detectors: routes, decorators, dependencies, schemas, React components and
//! hooks, and tests, found in syntax trees; and the helpers they share.
use vstd::prelude::*;
use vstd::string::*;

use crate::shared::{Range, opt_text};
use crate::syntax::{
    SyntaxNode, SyntaxTree, child_by_field, field_child, has_kind, kind_is, node_range, node_range_spec,
    parent_of,
};
use crate::text::{capped_bytes, capped_text, chars_of, string_bytes};

pub mod decorators;
pub mod dependencies;
pub mod react;
pub mod routes;
pub mod schemas;
pub mod tests;

verus! {

/// How sure a detector is of a finding.
#[derive(Debug, Clone, Copy, PartialEq, Eq, Structural)]
pub enum Confidence {
    High,
    Medium,
    Low,
}

/// A piece of source that supports a finding.
#[derive(Debug)]
pub struct Evidence {
    pub kind: String,
    pub text: Option<String>,
    pub range: Option<Range>,
    pub node_kind: Option<String>,
}

/// Evidence as plain values; its text is given by its UTF-8 bytes.
pub struct EvidenceView {
    pub kind: Seq<char>,
    pub text_bytes: Option<Seq<u8>>,
    pub range: Option<Range>,
    pub node_kind: Option<Seq<char>>,
}

/// The plain-value view of evidence.
pub open spec fn evidence_view(e: Evidence) -> EvidenceView {
    EvidenceView {
        kind: e.kind@,
        text_bytes: match e.text { Some(t) => Some(string_bytes(t@)), None => None },
        range: e.range,
        node_kind: opt_text(e.node_kind),
    }
}

/// The plain-value view of a list of evidence.
pub open spec fn evidences_view(v: Seq<Evidence>) -> Seq<EvidenceView> {
    v.map_values(|e: Evidence| evidence_view(e))
}

/// The file a detector looks at: its path relative to the workspace, its language and
/// its syntax tree.
pub struct AstFileContext {
    pub relative_path: String,
    pub language: String,
    pub tree: SyntaxTree,
}

/// A detector of one kind of finding in a file.
pub trait AstDetector<T> {
    fn detect(&self, ctx: &AstFileContext) -> Vec<T>;
}

/// High confidence.
pub fn confidence_high() -> (r: Confidence)
    ensures
        r == Confidence::High,
{
    Confidence::High
}

/// Medium confidence.
pub fn confidence_medium() -> (r: Confidence)
    ensures
        r == Confidence::Medium,
{
    Confidence::Medium
}

/// Low confidence.
pub fn confidence_low() -> (r: Confidence)
    ensures
        r == Confidence::Low,
{
    Confidence::Low
}

/// The most bytes of text a piece of evidence carries.
pub const MAX_EVIDENCE_TEXT: usize = 500;

/// Evidence text: at most `MAX_EVIDENCE_TEXT` bytes, cut on a character boundary.
pub open spec fn evidence_text(text: Seq<char>) -> Seq<u8> {
    capped_bytes(string_bytes(text), MAX_EVIDENCE_TEXT as int)
}

/// Cut evidence text to `MAX_EVIDENCE_TEXT` bytes on a character boundary.
pub fn truncate_evidence_text(text: &str) -> (r: String)
    ensures
        string_bytes(r@) == evidence_text(text@),
{
    capped_text(text, MAX_EVIDENCE_TEXT)
}

/// Evidence of the given kind, with the text cut to `MAX_EVIDENCE_TEXT` bytes.
pub fn make_evidence(kind: &str, text: Option<&str>, range: Option<Range>, node_kind: Option<&str>) -> (r: Evidence)
    ensures
        evidence_view(r) == (EvidenceView {
            kind: kind@,
            text_bytes: match text { Some(t) => Some(evidence_text(t@)), None => None },
            range,
            node_kind: match node_kind { Some(k) => Some(k@), None => None },
        }),
{
    let t = match text {
        Some(x) => Some(truncate_evidence_text(x)),
        None => None,
    };
    let nk = match node_kind {
        Some(k) => Some(k.to_owned()),
        None => None,
    };
    Evidence { kind: kind.to_owned(), text: t, range, node_kind: nk }
}

/// The evidence a node gives: its text, range and kind.
pub open spec fn node_evidence(t: Seq<SyntaxNode>, n: int, kind: Seq<char>) -> EvidenceView {
    EvidenceView {
        kind,
        text_bytes: Some(evidence_text(t[n].text@)),
        range: Some(node_range_spec(t[n])),
        node_kind: Some(t[n].kind@),
    }
}

/// The evidence node `n` gives, labelled `kind`.
pub fn evidence_for_node(t: &SyntaxTree, n: usize, kind: &str) -> (r: Evidence)
    requires
        n < t@.len(),
    ensures
        evidence_view(r) == node_evidence(t@, n as int, kind@),
{
    let node = t.node(n);
    make_evidence(kind, Some(node.text.as_str()), Some(node_range(node)), Some(node.kind.as_str()))
}

/// The single piece of evidence node `n` gives, as a list.
pub fn evidence_list(t: &SyntaxTree, n: usize, kind: &str) -> (r: Vec<Evidence>)
    requires
        n < t@.len(),
    ensures
        evidences_view(r@) == seq![node_evidence(t@, n as int, kind@)],
{
    let mut v: Vec<Evidence> = Vec::new();
    v.push(evidence_for_node(t, n, kind));
    assert(evidences_view(v@) =~= seq![node_evidence(t@, n as int, kind@)]);
    v
}

/// The definition a decorator decorates: the `definition` field of its parent, when
/// that parent is a `decorated_definition`.
pub open spec fn decorated_definition(t: Seq<SyntaxNode>, n: int) -> Option<int> {
    match t[n].parent {
        Some(p) => if kind_is(t, p as int, "decorated_definition"@) {
            field_child(t, p as int, "definition"@)
        } else {
            None
        },
        None => None,
    }
}

/// The definition decorator node `n` decorates, if any.
pub fn decorated_definition_of(t: &SyntaxTree, n: usize) -> (r: Option<usize>)
    requires
        n < t@.len(),
    ensures
        match r {
            Some(d) => decorated_definition(t@, n as int) == Some(d as int) && d < t@.len(),
            None => decorated_definition(t@, n as int) is None,
        },
{
    match parent_of(t, n) {
        Some(p) => if has_kind(t, p, "decorated_definition") {
            child_by_field(t, p, "definition")
        } else {
            None
        },
        None => None,
    }
}

/// Whether a character is uppercase (the Unicode `Uppercase` property).
pub uninterp spec fn is_upper(c: char) -> bool;

/// Whether a character is lowercase (the Unicode `Lowercase` property).
pub uninterp spec fn is_lower(c: char) -> bool;

/// `char::is_uppercase`: whether the character has the Unicode `Uppercase` property; for
/// ASCII characters that is exactly `A` to `Z`.
#[verifier::external_body]
pub(crate) fn char_is_uppercase(c: char) -> (r: bool)
    ensures
        r == is_upper(c),
        c <= '\x7f' ==> (r == ('A' <= c && c <= 'Z')),
{
    c.is_uppercase()
}

/// `char::is_lowercase`: whether the character has the Unicode `Lowercase` property; for
/// ASCII characters that is exactly `a` to `z`.
#[verifier::external_body]
pub(crate) fn char_is_lowercase(c: char) -> (r: bool)
    ensures
        r == is_lower(c),
        c <= '\x7f' ==> (r == ('a' <= c && c <= 'z')),
{
    c.is_lowercase()
}

/// Whether a name is in PascalCase: it starts with an uppercase letter and holds no `_`.
pub open spec fn pascal_case(name: Seq<char>) -> bool {
    name.len() > 0 && is_upper(name[0]) && !name.contains('_')
}

/// Whether a name is in camelCase: it starts with a lowercase letter and holds no `_`.
pub open spec fn camel_case(name: Seq<char>) -> bool {
    name.len() > 0 && is_lower(name[0]) && !name.contains('_')
}

fn has_underscore(s: &[char]) -> (r: bool)
    ensures
        r == s@.contains('_'),
{
    let mut i: usize = 0;
    while i < s.len()
        invariant
            i <= s@.len(),
            forall|j: int| 0 <= j < i ==> s@[j] != '_',
        decreases s@.len() - i,
    {
        if s[i] == '_' {
            assert(s@[i as int] == '_');
            return true;
        }
        i = i + 1;
    }
    false
}

/// Whether a name is in PascalCase.
pub fn is_pascal_case(name: &str) -> (r: bool)
    ensures
        r == pascal_case(name@),
{
    let chars = chars_of(name);
    if chars.len() == 0 {
        return false;
    }
    let first = chars[0];
    char_is_uppercase(first) && !has_underscore(chars.as_slice()) && first != '_'
}

/// Whether a name is in camelCase.
pub fn is_camel_case(name: &str) -> (r: bool)
    ensures
        r == camel_case(name@),
{
    let chars = chars_of(name);
    if chars.len() == 0 {
        return false;
    }
    char_is_lowercase(chars[0]) && !has_underscore(chars.as_slice())
}

/// Evidence text is at most `MAX_EVIDENCE_TEXT` bytes, and a text that fits is kept whole.
pub proof fn law_evidence_text_bounded(text: Seq<char>)
    ensures
        evidence_text(text).len() <= MAX_EVIDENCE_TEXT,
        string_bytes(text).len() <= MAX_EVIDENCE_TEXT ==> evidence_text(text) == string_bytes(text),
{
    crate::text::lemma_capped_len(string_bytes(text), MAX_EVIDENCE_TEXT as int);
}

} // verus!
