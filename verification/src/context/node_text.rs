//! The exact source text of a byte range.
use vstd::prelude::*;
use vstd::string::*;

use crate::config::defaults::MAX_TEXT_BYTES;
use crate::shared::Range;
use crate::syntax::slice_source;
use crate::text::{capped_bytes, string_bytes, truncate_text};

verus! {

/// Options of a node-text request.
pub struct AstNodeTextInput {
    pub file_path: String,
    pub range: Option<Range>,
    pub max_bytes: usize,
}

impl Default for AstNodeTextInput {
    fn default() -> (r: Self)
        ensures
            r.file_path@ == Seq::<char>::empty(),
            r.range is None,
            r.max_bytes == MAX_TEXT_BYTES,
    {
        AstNodeTextInput { file_path: String::new(), range: None, max_bytes: MAX_TEXT_BYTES }
    }
}

/// The text of a range.
pub struct NodeText {
    /// The text, cut to the byte limit on a character boundary.
    pub text: String,
    /// Whether it was cut.
    pub truncated: bool,
    /// The byte length of the whole range.
    pub byte_count: usize,
    /// The byte offset where the returned text ends.
    pub end_byte: usize,
}

/// The source text of `[start_byte, end_byte)` (the end taken at most at the end of the
/// source), cut to `max_bytes` bytes; the offsets must lie on character boundaries.
pub fn node_text(source: &str, start_byte: usize, end_byte: usize, max_bytes: usize) -> (r: NodeText)
    requires
        ({
            let b = source.spec_bytes();
            let end = if end_byte <= b.len() { end_byte as int } else { b.len() as int };
            &&& start_byte <= end
            &&& 0 <= end <= b.len()
            &&& vstd::utf8::is_char_boundary(b, start_byte as int)
            &&& vstd::utf8::is_char_boundary(b, end)
        }),
    ensures
        ({
            let b = source.spec_bytes();
            let end = if end_byte <= b.len() { end_byte as int } else { b.len() as int };
            let raw = b.subrange(start_byte as int, end);
            &&& string_bytes(r.text@) == capped_bytes(raw, max_bytes as int)
            &&& r.truncated == (raw.len() > max_bytes)
            &&& r.byte_count == raw.len()
            &&& r.end_byte == start_byte + capped_bytes(raw, max_bytes as int).len()
        }),
{
    let n = source.as_bytes().len();
    let end = if end_byte <= n { end_byte } else { n };
    let raw = slice_source(source, start_byte, end);
    let raw_str = raw.as_str();
    let byte_count = raw_str.as_bytes().len();
    let (text, truncated) = truncate_text(raw_str, max_bytes);
    let text_len = text.as_str().as_bytes().len();
    proof {
        crate::text::lemma_capped_len(string_bytes(raw@), max_bytes as int);
    }
    NodeText { text, truncated, byte_count, end_byte: start_byte + text_len }
}

} // verus!
