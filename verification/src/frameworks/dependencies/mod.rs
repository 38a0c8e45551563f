//! Dependency-edge detectors: imports, exports, `require` calls, `use` and `mod` items.
use vstd::prelude::*;

use super::{Confidence, Evidence, EvidenceView, evidences_view};
use crate::shared::Range;

pub mod go;
pub mod python;
pub mod rust;
pub mod typescript;

verus! {

/// How one file depends on another module.
#[derive(Debug, Clone, Copy, PartialEq, Eq, Structural)]
pub enum EdgeKind {
    Import,
    Export,
    Require,
    Use,
    Mod,
    Package,
}

/// A dependency of a file on a module.
#[derive(Debug)]
pub struct AstDependencyEdge {
    pub from_file: String,
    pub to_specifier: String,
    pub kind: EdgeKind,
    pub is_relative: bool,
    pub is_type_only: Option<bool>,
    pub range: Range,
    pub confidence: Confidence,
    pub evidence: Vec<Evidence>,
}

/// A dependency edge as plain values.
pub struct EdgeView {
    pub from_file: Seq<char>,
    pub to_specifier: Seq<char>,
    pub kind: EdgeKind,
    pub is_relative: bool,
    pub is_type_only: Option<bool>,
    pub range: Range,
    pub confidence: Confidence,
    pub evidence: Seq<EvidenceView>,
}

impl View for AstDependencyEdge {
    type V = EdgeView;

    open spec fn view(&self) -> EdgeView {
        EdgeView {
            from_file: self.from_file@,
            to_specifier: self.to_specifier@,
            kind: self.kind,
            is_relative: self.is_relative,
            is_type_only: self.is_type_only,
            range: self.range,
            confidence: self.confidence,
            evidence: evidences_view(self.evidence@),
        }
    }
}

/// Whether a module specifier is relative: it starts with `.`.
pub open spec fn dot_relative(spec: Seq<char>) -> bool {
    spec.len() > 0 && spec[0] == '.'
}

/// Whether a module specifier starts with `.`.
pub fn starts_with_dot(spec: &str) -> (r: bool)
    ensures
        r == dot_relative(spec@),
{
    let chars = crate::text::chars_of(spec);
    chars.len() > 0 && chars[0] == '.'
}

} // verus!
