//! Test detectors: Go, JavaScript (Jest-style), Python (pytest and unittest) and Rust.
use vstd::prelude::*;

use super::{Confidence, Evidence, EvidenceView, evidences_view};
use crate::shared::{Range, opt_text};

pub mod go;
pub mod javascript;
pub mod python;
pub mod rust;

verus! {

/// What a test item is.
#[derive(Debug, Clone, Copy, PartialEq, Eq, Structural)]
pub enum TestKind {
    Test,
    Suite,
    Hook,
    Fixture,
}

/// A test, suite, hook or fixture declared in a file.
#[derive(Debug)]
pub struct AstTestItem {
    pub file_path: String,
    pub language: String,
    pub framework: String,
    pub kind: TestKind,
    pub name: Option<String>,
    pub range: Range,
    pub parent_name: Option<String>,
    pub confidence: Confidence,
    pub evidence: Vec<Evidence>,
}

/// A test item as plain values.
pub struct TestView {
    pub file_path: Seq<char>,
    pub language: Seq<char>,
    pub framework: Seq<char>,
    pub kind: TestKind,
    pub name: Option<Seq<char>>,
    pub range: Range,
    pub parent_name: Option<Seq<char>>,
    pub confidence: Confidence,
    pub evidence: Seq<EvidenceView>,
}

impl View for AstTestItem {
    type V = TestView;

    open spec fn view(&self) -> TestView {
        TestView {
            file_path: self.file_path@,
            language: self.language@,
            framework: self.framework@,
            kind: self.kind,
            name: opt_text(self.name),
            range: self.range,
            parent_name: opt_text(self.parent_name),
            confidence: self.confidence,
            evidence: evidences_view(self.evidence@),
        }
    }
}

/// The innermost name on a stack of enclosing suites, if any.
pub open spec fn innermost(stack: Seq<Seq<char>>) -> Option<Seq<char>> {
    if stack.len() > 0 { Some(stack.last()) } else { None }
}

/// The innermost name on a stack of enclosing suites.
pub fn innermost_of(stack: &Vec<String>) -> (r: Option<String>)
    ensures
        opt_text(r) == innermost(crate::shared::texts(stack@)),
{
    if stack.len() > 0 {
        Some(stack[stack.len() - 1].clone())
    } else {
        None
    }
}

} // verus!
