//! React detectors: components and hooks.
use vstd::prelude::*;

use super::{Confidence, Evidence, EvidenceView, evidences_view};
use crate::shared::{Range, opt_text, texts};

pub mod components;
pub mod hooks;

verus! {

/// How a React component is written.
#[derive(Debug, Clone, Copy, PartialEq, Eq, Structural)]
pub enum ComponentKind {
    FunctionComponent,
    ArrowFunctionComponent,
    MemoComponent,
    ForwardRefComponent,
    ClassComponent,
    Unknown,
}

/// A React component declared in a file.
#[derive(Debug)]
pub struct AstReactComponent {
    pub file_path: String,
    pub name: String,
    pub kind: ComponentKind,
    pub exported: bool,
    pub default_export: bool,
    pub props_name: Option<String>,
    pub props_type_text: Option<String>,
    pub hooks: Vec<String>,
    pub jsx_root: Option<String>,
    pub range: Range,
    pub confidence: Confidence,
    pub evidence: Vec<Evidence>,
}

/// A component as plain values.
pub struct ComponentView {
    pub file_path: Seq<char>,
    pub name: Seq<char>,
    pub kind: ComponentKind,
    pub exported: bool,
    pub default_export: bool,
    pub props_name: Option<Seq<char>>,
    pub props_type_text: Option<Seq<char>>,
    pub hooks: Seq<Seq<char>>,
    pub jsx_root: Option<Seq<char>>,
    pub range: Range,
    pub confidence: Confidence,
    pub evidence: Seq<EvidenceView>,
}

impl View for AstReactComponent {
    type V = ComponentView;

    open spec fn view(&self) -> ComponentView {
        ComponentView {
            file_path: self.file_path@,
            name: self.name@,
            kind: self.kind,
            exported: self.exported,
            default_export: self.default_export,
            props_name: opt_text(self.props_name),
            props_type_text: opt_text(self.props_type_text),
            hooks: texts(self.hooks@),
            jsx_root: opt_text(self.jsx_root),
            range: self.range,
            confidence: self.confidence,
            evidence: evidences_view(self.evidence@),
        }
    }
}

/// How a hook appears.
#[derive(Debug, Clone, Copy, PartialEq, Eq, Structural)]
pub enum HookKind {
    BuiltinUsage,
    CustomUsage,
    CustomDefinition,
}

/// A hook used or defined in a file.
#[derive(Debug)]
pub struct AstHook {
    pub file_path: String,
    pub name: String,
    pub kind: HookKind,
    pub enclosing_component: Option<String>,
    pub range: Range,
    pub confidence: Confidence,
    pub evidence: Vec<Evidence>,
}

/// A hook as plain values.
pub struct HookView {
    pub file_path: Seq<char>,
    pub name: Seq<char>,
    pub kind: HookKind,
    pub enclosing_component: Option<Seq<char>>,
    pub range: Range,
    pub confidence: Confidence,
    pub evidence: Seq<EvidenceView>,
}

impl View for AstHook {
    type V = HookView;

    open spec fn view(&self) -> HookView {
        HookView {
            file_path: self.file_path@,
            name: self.name@,
            kind: self.kind,
            enclosing_component: opt_text(self.enclosing_component),
            range: self.range,
            confidence: self.confidence,
            evidence: evidences_view(self.evidence@),
        }
    }
}

} // verus!
