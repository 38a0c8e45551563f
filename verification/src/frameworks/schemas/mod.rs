//! Schema detectors: dataclasses, Go and Rust structs, TypeScript interfaces and object
//! types, and Zod object schemas.
use vstd::prelude::*;
use vstd::string::*;

use super::{Confidence, Evidence, EvidenceView, evidences_view};
use crate::shared::{Range, opt_text};
use crate::text::{capped_bytes, capped_text, string_bytes};

pub mod dataclass;
pub mod go_struct;
pub mod rust_struct;
pub mod typescript_interfaces;
pub mod zod;

verus! {

/// A field of a schema. Its type text is given by its UTF-8 bytes.
#[derive(Debug)]
pub struct AstSchemaField {
    pub name: String,
    pub type_text: Option<String>,
    pub required: Option<bool>,
    pub range: Option<Range>,
}

/// A schema field as plain values.
pub struct FieldView {
    pub name: Seq<char>,
    pub type_bytes: Option<Seq<u8>>,
    pub required: Option<bool>,
    pub range: Option<Range>,
}

impl View for AstSchemaField {
    type V = FieldView;

    open spec fn view(&self) -> FieldView {
        FieldView {
            name: self.name@,
            type_bytes: match self.type_text { Some(t) => Some(string_bytes(t@)), None => None },
            required: self.required,
            range: self.range,
        }
    }
}

/// A data schema declared in a file.
#[derive(Debug)]
pub struct AstSchemaDefinition {
    pub file_path: String,
    pub language: String,
    pub kind: String,
    pub name: Option<String>,
    pub framework: Option<String>,
    pub fields: Vec<AstSchemaField>,
    pub range: Range,
    pub confidence: Confidence,
    pub evidence: Vec<Evidence>,
}

/// A schema as plain values.
pub struct SchemaView {
    pub file_path: Seq<char>,
    pub language: Seq<char>,
    pub kind: Seq<char>,
    pub name: Option<Seq<char>>,
    pub framework: Option<Seq<char>>,
    pub fields: Seq<FieldView>,
    pub range: Range,
    pub confidence: Confidence,
    pub evidence: Seq<EvidenceView>,
}

impl View for AstSchemaDefinition {
    type V = SchemaView;

    open spec fn view(&self) -> SchemaView {
        SchemaView {
            file_path: self.file_path@,
            language: self.language@,
            kind: self.kind@,
            name: opt_text(self.name),
            framework: opt_text(self.framework),
            fields: crate::visit::views(self.fields@),
            range: self.range,
            confidence: self.confidence,
            evidence: evidences_view(self.evidence@),
        }
    }
}

/// The most bytes of a field's type text that a schema keeps.
pub const MAX_TYPE_TEXT: usize = 200;

/// Whether a type text can be cut to `MAX_TYPE_TEXT` bytes: it is no longer, or the cut
/// falls on a character boundary.
pub open spec fn cuttable(text: Seq<char>) -> bool {
    string_bytes(text).len() <= MAX_TYPE_TEXT || vstd::utf8::is_char_boundary(string_bytes(text), MAX_TYPE_TEXT as int)
}

/// The bytes of a type text cut to its first `MAX_TYPE_TEXT` bytes.
pub open spec fn type_cut(text: Seq<char>) -> Seq<u8> {
    if string_bytes(text).len() > MAX_TYPE_TEXT { string_bytes(text).take(MAX_TYPE_TEXT as int) } else { string_bytes(text) }
}

/// Cut a type text to its first `MAX_TYPE_TEXT` bytes.
pub fn cut_type_text(text: &str) -> (r: String)
    requires
        cuttable(text@),
    ensures
        string_bytes(r@) == type_cut(text@),
{
    let r = capped_text(text, MAX_TYPE_TEXT);
    assert(capped_bytes(text.spec_bytes(), MAX_TYPE_TEXT as int) == type_cut(text@));
    r
}

/// Whether a type text can be cut.
pub fn is_cuttable(text: &str) -> (r: bool)
    ensures
        r == cuttable(text@),
{
    let n = text.as_bytes().len();
    n <= MAX_TYPE_TEXT || text.is_char_boundary(MAX_TYPE_TEXT)
}

} // verus!
