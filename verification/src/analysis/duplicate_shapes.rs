//! Groups of structurally identical nodes across files.
use vstd::prelude::*;

use crate::shared::Range;

verus! {

/// Options of a duplicate-shape search.
pub struct DetectDuplicateShapesInput {
    pub glob: String,
    pub max_files: Option<usize>,
    pub min_node_lines: Option<usize>,
    pub node_kinds: Option<Vec<String>>,
    pub normalize_identifiers: Option<bool>,
    pub normalize_literals: Option<bool>,
    pub max_candidates: Option<usize>,
}

/// One occurrence of a duplicated shape.
#[derive(Debug)]
pub struct DuplicateOccurrence {
    pub file_path: String,
    pub range: Range,
}

/// Nodes that share one structural fingerprint.
#[derive(Debug)]
pub struct DuplicateShapeGroup {
    pub fingerprint: String,
    pub node_kind: String,
    pub occurrences: Vec<DuplicateOccurrence>,
}

/// The result of a duplicate-shape search.
#[derive(Debug)]
pub struct DetectDuplicateShapesResult {
    pub groups: Vec<DuplicateShapeGroup>,
    pub scanned_files: usize,
    pub candidate_count: usize,
    pub returned: usize,
    pub truncated: bool,
}

/// The result of a search that found no groups after scanning `scanned` files.
pub fn empty_result(scanned: usize) -> (r: DetectDuplicateShapesResult)
    ensures
        r.groups@.len() == 0,
        r.scanned_files == scanned,
        r.candidate_count == 0,
        r.returned == 0,
        !r.truncated,
{
    DetectDuplicateShapesResult { groups: Vec::new(), scanned_files: scanned, candidate_count: 0, returned: 0, truncated: false }
}

} // verus!
