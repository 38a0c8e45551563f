//! Heuristic complexity summaries of source files.
use vstd::prelude::*;

use crate::shared::Range;
use crate::text::{chars_of, count_lines, count_matches, count_occurrences, line_count};

verus! {

/// Options of a complexity summary.
pub struct ComplexitySummaryInput {
    pub file_path: Option<String>,
    pub glob: Option<String>,
    pub max_files: Option<usize>,
    pub include_functions: Option<bool>,
    pub include_classes: Option<bool>,
    pub max_results: Option<usize>,
}

/// The complexity figures of one file.
#[derive(Debug)]
pub struct FileComplexitySummary {
    pub file_path: String,
    pub line_count: usize,
    pub function_count: usize,
    pub class_count: usize,
    pub import_count: usize,
    pub max_nesting_depth: usize,
    pub max_function_lines: usize,
    pub branch_count: usize,
    pub loop_count: usize,
}

/// A place in a file that stands out by its complexity.
#[derive(Debug)]
pub struct ComplexityHotspot {
    pub file_path: String,
    pub name: Option<String>,
    pub kind: String,
    pub range: Range,
    pub line_count: usize,
}

/// The result of a complexity summary over a set of files.
#[derive(Debug)]
pub struct ComplexitySummaryResult {
    pub total_files_scanned: usize,
    pub total_nodes_analyzed: usize,
    pub files: Vec<FileComplexitySummary>,
    pub hotspots: Vec<ComplexityHotspot>,
    pub truncated: bool,
}

/// A sum held in a `usize`, which stops at `usize::MAX`.
pub open spec fn sat(n: int) -> int {
    if n <= usize::MAX { n } else { usize::MAX as int }
}

/// The number of occurrences of each pattern in `s`, added up.
pub open spec fn total_matches(s: Seq<char>, pats: Seq<Seq<char>>) -> int
    decreases pats.len(),
{
    if pats.len() == 0 { 0 } else { total_matches(s, pats.drop_last()) + count_matches(s, pats.last()) }
}

/// Patterns whose occurrences count as imports.
pub open spec fn import_patterns() -> Seq<Seq<char>> { seq!["import"@, "from "@] }

/// Patterns whose occurrences count as functions.
pub open spec fn function_patterns() -> Seq<Seq<char>> { seq!["fn "@, "func "@, "def "@, "function "@] }

/// Patterns whose occurrences count as classes.
pub open spec fn class_patterns() -> Seq<Seq<char>> { seq!["class "@, "struct "@, "impl "@] }

/// Patterns whose occurrences count as branches.
pub open spec fn branch_patterns() -> Seq<Seq<char>> { seq!["if "@, "else"@, "match"@, "switch"@, "case "@] }

/// Patterns whose occurrences count as loops.
pub open spec fn loop_patterns() -> Seq<Seq<char>> { seq!["for "@, "while "@, "loop "@] }

/// Count the occurrences of each pattern in `s` and add them up, stopping at `usize::MAX`.
pub fn count_all(s: &[char], pats: &[&str]) -> (r: usize)
    requires
        forall|j: int| 0 <= j < pats@.len() ==> (#[trigger] pats@[j])@.len() > 0,
    ensures
        r == sat(total_matches(s@, pats@.map_values(|p: &str| p@))),
{
    let n = pats.len();
    let mut i: usize = 0;
    let mut total: usize = 0;
    while i < n
        invariant
            n == pats@.len(),
            i <= n,
            forall|j: int| 0 <= j < pats@.len() ==> (#[trigger] pats@[j])@.len() > 0,
            total == sat(total_matches(s@, pats@.map_values(|p: &str| p@).take(i as int))),
        decreases n - i,
    {
        let p = chars_of(pats[i]);
        let c = count_occurrences(s, p.as_slice());
        proof {
            let all = pats@.map_values(|p: &str| p@);
            assert(all.take(i + 1).drop_last() =~= all.take(i as int));
            assert(all.take(i + 1).last() == pats@[i as int]@);
            assert(total_matches(s@, all.take(i as int)) >= 0) by { lemma_total_nonneg(s@, all.take(i as int)); }
        }
        total = total.saturating_add(c);
        i = i + 1;
    }
    assert(pats@.map_values(|p: &str| p@).take(n as int) =~= pats@.map_values(|p: &str| p@));
    total
}

proof fn lemma_total_nonneg(s: Seq<char>, pats: Seq<Seq<char>>)
    ensures
        total_matches(s, pats) >= 0,
    decreases pats.len(),
{
    if pats.len() > 0 {
        lemma_total_nonneg(s, pats.drop_last());
    }
}

/// The figures `analyze_file` reports for `source`: its line count and the pattern
/// counts (each sum stopping at `usize::MAX`); nesting depth and function length are not
/// measured and stay zero.
pub open spec fn complexity_of(file_path: Seq<char>, source: Seq<char>, r: FileComplexitySummary) -> bool {
    &&& r.file_path@ == file_path
    &&& r.line_count == line_count(source)
    &&& r.function_count == sat(total_matches(source, function_patterns()))
    &&& r.class_count == sat(total_matches(source, class_patterns()))
    &&& r.import_count == sat(total_matches(source, import_patterns()))
    &&& r.max_nesting_depth == 0
    &&& r.max_function_lines == 0
    &&& r.branch_count == sat(total_matches(source, branch_patterns()))
    &&& r.loop_count == sat(total_matches(source, loop_patterns()))
}

fn count_patterns(s: &[char], pats: &[&str], Ghost(expected): Ghost<Seq<Seq<char>>>) -> (r: usize)
    requires
        pats@.map_values(|p: &str| p@) == expected,
        forall|j: int| 0 <= j < pats@.len() ==> (#[trigger] pats@[j])@.len() > 0,
    ensures
        r == sat(total_matches(s@, expected)),
{
    count_all(s, pats)
}

/// Summarise the complexity of one file by counting keyword patterns in its text. It
/// never fails; no hotspots are reported.
pub fn analyze_file(file_path: &str, source: &str, _input: &ComplexitySummaryInput)
    -> (r: Result<(FileComplexitySummary, Vec<ComplexityHotspot>), String>)
    ensures
        r matches Ok((summary, hotspots)) && complexity_of(file_path@, source@, summary) && hotspots@.len() == 0,
{
    let s = chars_of(source);
    let text = s.as_slice();
    let imports: &[&str] = &["import", "from "];
    let functions: &[&str] = &["fn ", "func ", "def ", "function "];
    let classes: &[&str] = &["class ", "struct ", "impl "];
    let branches: &[&str] = &["if ", "else", "match", "switch", "case "];
    let loops: &[&str] = &["for ", "while ", "loop "];
    proof {
        reveal_strlit("import");
        reveal_strlit("from ");
        reveal_strlit("fn ");
        reveal_strlit("func ");
        reveal_strlit("def ");
        reveal_strlit("function ");
        reveal_strlit("class ");
        reveal_strlit("struct ");
        reveal_strlit("impl ");
        reveal_strlit("if ");
        reveal_strlit("else");
        reveal_strlit("match");
        reveal_strlit("switch");
        reveal_strlit("case ");
        reveal_strlit("for ");
        reveal_strlit("while ");
        reveal_strlit("loop ");
        assert(imports@.map_values(|p: &str| p@) =~= import_patterns());
        assert(functions@.map_values(|p: &str| p@) =~= function_patterns());
        assert(classes@.map_values(|p: &str| p@) =~= class_patterns());
        assert(branches@.map_values(|p: &str| p@) =~= branch_patterns());
        assert(loops@.map_values(|p: &str| p@) =~= loop_patterns());
    }
    let summary = FileComplexitySummary {
        file_path: file_path.to_owned(),
        line_count: count_lines(text),
        function_count: count_patterns(text, functions, Ghost(function_patterns())),
        class_count: count_patterns(text, classes, Ghost(class_patterns())),
        import_count: count_patterns(text, imports, Ghost(import_patterns())),
        max_nesting_depth: 0,
        max_function_lines: 0,
        branch_count: count_patterns(text, branches, Ghost(branch_patterns())),
        loop_count: count_patterns(text, loops, Ghost(loop_patterns())),
    };
    Ok((summary, Vec::new()))
}

/// The result of a summary over no files.
pub fn empty_result() -> (r: ComplexitySummaryResult)
    ensures
        r.total_files_scanned == 0,
        r.total_nodes_analyzed == 0,
        r.files@.len() == 0,
        r.hotspots@.len() == 0,
        !r.truncated,
{
    ComplexitySummaryResult { total_files_scanned: 0, total_nodes_analyzed: 0, files: Vec::new(), hotspots: Vec::new(), truncated: false }
}

} // verus!
