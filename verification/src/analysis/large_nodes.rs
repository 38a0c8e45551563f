//! Heuristic detection of large files.
use vstd::prelude::*;

use super::complexity::{function_patterns, sat, total_matches};
use crate::shared::{Position, Range};
use crate::text::{chars_of, count_lines, line_count};

verus! {

/// Options of a large-node search.
pub struct DetectLargeNodesInput {
    pub file_path: Option<String>,
    pub glob: Option<String>,
    pub max_files: Option<usize>,
    pub min_lines: Option<usize>,
    pub node_kinds: Option<Vec<String>>,
    pub max_results: Option<usize>,
}

/// A node (here, a whole file) that is larger than the threshold.
#[derive(Debug)]
pub struct LargeNode {
    pub file_path: String,
    pub kind: String,
    pub name: Option<String>,
    pub range: Range,
    pub line_count: usize,
    pub child_count: usize,
    pub nesting_depth: usize,
}

/// The result of a large-node search.
#[derive(Debug)]
pub struct DetectLargeNodesResult {
    pub nodes: Vec<LargeNode>,
    pub scanned_files: usize,
    pub returned: usize,
    pub truncated: bool,
}

/// The line threshold a search uses: the requested one, else 80.
pub open spec fn min_lines_of(input: DetectLargeNodesInput) -> int {
    match input.min_lines { Some(m) => m as int, None => 80 }
}

/// Report the file as a large node when it has at least the threshold of lines: its
/// range spans from the start to the line count (cut to 32 bits), and its child count is
/// the number of function keywords in it.
pub fn detect_in_file(file_path: &str, source: &str, input: &DetectLargeNodesInput) -> (r: Vec<LargeNode>)
    ensures
        ({
            let total = line_count(source@);
            if total >= min_lines_of(*input) {
                &&& r@.len() == 1
                &&& r@[0].file_path@ == file_path@
                &&& r@[0].kind@ == "file"@
                &&& r@[0].name is None
                &&& r@[0].range.start == (Position { line: 0, character: 0 })
                &&& r@[0].range.end == (Position { line: total as u32, character: 0 })
                &&& r@[0].line_count == total
                &&& r@[0].child_count == sat(total_matches(source@, function_patterns()))
                &&& r@[0].nesting_depth == 0
            } else {
                r@.len() == 0
            }
        }),
{
    let min_lines = match input.min_lines { Some(m) => m, None => 80 };
    let s = chars_of(source);
    let total_lines = count_lines(s.as_slice());
    if total_lines >= min_lines {
        let functions: &[&str] = &["fn ", "func ", "def ", "function "];
        proof {
            reveal_strlit("fn ");
            reveal_strlit("func ");
            reveal_strlit("def ");
            reveal_strlit("function ");
            assert(functions@.map_values(|p: &str| p@) =~= function_patterns());
        }
        let func_lines = super::complexity::count_all(s.as_slice(), functions);
        let mut out: Vec<LargeNode> = Vec::new();
        out.push(LargeNode {
            file_path: file_path.to_owned(),
            kind: "file".to_owned(),
            name: None,
            range: Range {
                start: Position { line: 0, character: 0 },
                end: Position { line: total_lines as u32, character: 0 },
            },
            line_count: total_lines,
            child_count: func_lines,
            nesting_depth: 0,
        });
        return out;
    }
    Vec::new()
}

/// The result of a search over no files.
pub fn empty_result() -> (r: DetectLargeNodesResult)
    ensures
        r.nodes@.len() == 0,
        r.scanned_files == 0,
        r.returned == 0,
        !r.truncated,
{
    DetectLargeNodesResult { nodes: Vec::new(), scanned_files: 0, returned: 0, truncated: false }
}

} // verus!
