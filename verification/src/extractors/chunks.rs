//! Splitting a file into chunks along its syntax: top-level nodes, functions and
//! classes, semantic blocks, or runs of top-level nodes under a line budget.
use vstd::prelude::*;
use vstd::string::*;

use crate::config::defaults::{MAX_CHUNK_BYTES, MAX_CHUNK_LINES, MAX_RESULTS};
use crate::syntax::{
    SyntaxNode, SyntaxTree, cap, child_count_of, child_of, lemma_cap_full, lemma_cap_step,
    slice_source, source_slice, str_in, text_in, tree_wf,
};
use crate::text::{
    CharSet, capped_bytes, capped_text, chars_of, count_lines, line_count, string_bytes, trim_set,
    trim_to_string,
};

verus! {

/// A chunk of a file.
#[derive(Debug)]
pub struct AstChunk {
    pub start_line: u32,
    pub end_line: u32,
    pub start_byte: usize,
    pub end_byte: usize,
    pub text: String,
    pub kind: String,
}

/// How a file is split into chunks.
#[derive(Debug, Clone, Copy, PartialEq, Eq, Structural)]
pub enum ChunkStrategy {
    TopLevel,
    FunctionClass,
    SemanticBlocks,
    MaxLinesWithAstBoundaries,
}

/// Options of a chunking.
#[derive(Debug, Clone, Copy)]
pub struct ChunkOptions {
    pub strategy: ChunkStrategy,
    pub max_results: usize,
    pub max_lines_per_chunk: usize,
    pub max_bytes_per_chunk: usize,
}

impl Default for ChunkOptions {
    fn default() -> (r: Self)
        ensures
            r.strategy == ChunkStrategy::TopLevel,
            r.max_results == MAX_RESULTS,
            r.max_lines_per_chunk == MAX_CHUNK_LINES,
            r.max_bytes_per_chunk == MAX_CHUNK_BYTES,
    {
        ChunkOptions {
            strategy: ChunkStrategy::TopLevel,
            max_results: MAX_RESULTS,
            max_lines_per_chunk: MAX_CHUNK_LINES,
            max_bytes_per_chunk: MAX_CHUNK_BYTES,
        }
    }
}

/// The chunks of a file.
#[derive(Debug)]
pub struct ChunkResult {
    pub chunks: Vec<AstChunk>,
    pub strategy: String,
    pub total_chunks: usize,
}

/// A chunk as plain values; its text is given by its UTF-8 bytes.
pub struct ChunkView {
    pub start_line: u32,
    pub end_line: u32,
    pub start_byte: usize,
    pub end_byte: usize,
    pub text_bytes: Seq<u8>,
    pub kind: Seq<char>,
}

/// The plain-value view of a chunk.
pub open spec fn chunk_view(c: AstChunk) -> ChunkView {
    ChunkView {
        start_line: c.start_line,
        end_line: c.end_line,
        start_byte: c.start_byte,
        end_byte: c.end_byte,
        text_bytes: string_bytes(c.text@),
        kind: c.kind@,
    }
}

/// The plain-value view of a list of chunks.
pub open spec fn chunks_view(v: Seq<AstChunk>) -> Seq<ChunkView> {
    v.map_values(|c: AstChunk| chunk_view(c))
}

/// The name a strategy is reported under.
pub open spec fn strategy_name(s: ChunkStrategy) -> Seq<char> {
    match s {
        ChunkStrategy::TopLevel => "top_level"@,
        ChunkStrategy::FunctionClass => "function_class"@,
        ChunkStrategy::SemanticBlocks => "semantic_blocks"@,
        ChunkStrategy::MaxLinesWithAstBoundaries => "max_lines_with_ast_boundaries"@,
    }
}

// ---------------------------------------------------------------------------
// Chunks of single nodes
// ---------------------------------------------------------------------------

/// The chunk node `c` gives: its lines, byte offsets, trimmed text cut to `max_bytes`
/// and kind; nothing when its trimmed text is empty.
pub open spec fn node_chunk(t: Seq<SyntaxNode>, c: int, max_bytes: int) -> Seq<ChunkView> {
    let trimmed = trim_set(t[c].text@, CharSet::Whitespace);
    if trimmed.len() == 0 {
        Seq::empty()
    } else {
        seq![ChunkView {
            start_line: t[c].start.line,
            end_line: t[c].end.line,
            start_byte: t[c].start_byte,
            end_byte: t[c].end_byte,
            text_bytes: capped_bytes(string_bytes(trimmed), max_bytes),
            kind: t[c].kind@,
        }]
    }
}

fn push_node_chunk(t: &SyntaxTree, c: usize, max_bytes: usize, max: usize, chunks: &mut Vec<AstChunk>)
    requires
        c < t@.len(),
        old(chunks)@.len() < max,
    ensures
        final(chunks)@.len() <= max,
        chunks_view(final(chunks)@) == chunks_view(old(chunks)@) + node_chunk(t@, c as int, max_bytes as int),
{
    let node = t.node(c);
    let chars = chars_of(node.text.as_str());
    let trimmed = trim_to_string(chars.as_slice(), CharSet::Whitespace);
    let ghost before = chunks_view(chunks@);
    proof {
        if trimmed@.len() > 0 {
            vstd::utf8::encode_utf8_first_scalar(trimmed@);
        } else {
            assert(vstd::utf8::encode_utf8(trimmed@) =~= Seq::<u8>::empty());
        }
    }
    if trimmed.as_str().as_bytes().len() == 0 {
        assert(chunks_view(chunks@) =~= before + node_chunk(t@, c as int, max_bytes as int));
        return;
    }
    chunks.push(AstChunk {
        start_line: node.start.line,
        end_line: node.end.line,
        start_byte: node.start_byte,
        end_byte: node.end_byte,
        text: capped_text(trimmed.as_str(), max_bytes),
        kind: node.kind.clone(),
    });
    assert(chunks_view(chunks@) =~= before + node_chunk(t@, c as int, max_bytes as int));
}

// ---------------------------------------------------------------------------
// Top level
// ---------------------------------------------------------------------------

/// The chunks of the named children among the first `k` children of the root.
pub open spec fn top_chunks_upto(t: Seq<SyntaxNode>, k: int, max_bytes: int) -> Seq<ChunkView>
    decreases k,
{
    if k <= 0 {
        Seq::empty()
    } else {
        let c = child_of(t, 0, k - 1);
        top_chunks_upto(t, k - 1, max_bytes) + (if t[c].named { node_chunk(t, c, max_bytes) } else { Seq::empty() })
    }
}

fn chunk_top_level(t: &SyntaxTree, opts: &ChunkOptions) -> (r: Vec<AstChunk>)
    ensures
        chunks_view(r@) == cap(top_chunks_upto(t@, child_count_of(t@, 0), opts.max_bytes_per_chunk as int), opts.max_results as int),
{
    t.wf();
    let root = t.node(0);
    let m = root.children.len();
    let mut chunks: Vec<AstChunk> = Vec::new();
    let ghost mb = opts.max_bytes_per_chunk as int;
    let ghost mx = opts.max_results as int;
    let mut k: usize = 0;
    assert(chunks_view(chunks@) =~= cap(top_chunks_upto(t@, 0, mb), mx));
    while k < m
        invariant
            tree_wf(t@),
            root == t@[0],
            m == child_count_of(t@, 0),
            k <= m,
            mb == opts.max_bytes_per_chunk as int,
            mx == opts.max_results as int,
            chunks@.len() <= opts.max_results,
            chunks_view(chunks@) == cap(top_chunks_upto(t@, k as int, mb), mx),
        decreases m - k,
    {
        let c = root.children[k];
        assert(c as int == child_of(t@, 0, k as int));
        let ghost item = if t@[c as int].named { node_chunk(t@, c as int, mb) } else { Seq::empty() };
        let ghost prev = top_chunks_upto(t@, k as int, mb);
        if chunks.len() >= opts.max_results {
            proof { lemma_cap_full(chunks_view(chunks@), item, mx); }
        } else if t.node(c).named {
            push_node_chunk(t, c, opts.max_bytes_per_chunk, opts.max_results, &mut chunks);
        } else {
            assert(chunks_view(chunks@) + item =~= chunks_view(chunks@));
        }
        proof {
            lemma_cap_step(Seq::<ChunkView>::empty(), prev, item, mx);
            assert(Seq::<ChunkView>::empty() + prev =~= prev);
            assert(Seq::<ChunkView>::empty() + (prev + item) =~= prev + item);
        }
        k = k + 1;
    }
    chunks
}

// ---------------------------------------------------------------------------
// Functions and classes, semantic blocks
// ---------------------------------------------------------------------------

/// Kinds that form function-or-class chunks.
pub open spec fn function_class_kinds() -> Seq<&'static str> {
    seq![
        "function_declaration", "generator_function_declaration", "method_definition",
        "arrow_function", "function_signature", "class_declaration", "class_expression",
        "function_definition", "class_definition", "decorated_definition", "export_statement"
    ]
}

/// Kinds that form semantic-block chunks.
pub open spec fn semantic_kinds() -> Seq<&'static str> {
    seq![
        "function_declaration", "generator_function_declaration", "method_definition",
        "arrow_function", "function_signature", "class_declaration", "class_expression",
        "function_definition", "class_definition", "decorated_definition", "export_statement",
        "import_statement", "import_from_statement", "if_statement", "for_statement",
        "for_in_statement", "while_statement", "switch_statement", "try_statement",
        "lexical_declaration", "variable_declaration"
    ]
}

/// Kinds the chunk walks enter looking for chunks.
pub open spec fn descend_kinds() -> Seq<&'static str> {
    seq!["program", "module", "statement_block", "block", "class_body", "body", "export_statement"]
}

/// Whether the chunk walks enter a node of this kind.
pub fn should_descend_for_chunks(kind: &str) -> (r: bool)
    ensures
        r == text_in(kind@, descend_kinds()),
{
    let ks: &[&str] = &["program", "module", "statement_block", "block", "class_body", "body", "export_statement"];
    assert(ks@ =~= descend_kinds());
    str_in(kind, ks)
}

/// The chunks the walk for chunk kinds `ks` finds below node `i`.
pub open spec fn kind_chunks(t: Seq<SyntaxNode>, i: int, ks: Seq<&str>, max_bytes: int) -> Seq<ChunkView>
    decreases t.len() - i, 1nat, 0int,
{
    if 0 <= i < t.len() { kind_chunks_upto(t, i, child_count_of(t, i), ks, max_bytes) } else { Seq::empty() }
}

/// The chunks the walk finds in the first `k` children of node `i`: a named child of a
/// chunk kind is a chunk; a named child of a descend kind is entered.
pub open spec fn kind_chunks_upto(t: Seq<SyntaxNode>, i: int, k: int, ks: Seq<&str>, max_bytes: int) -> Seq<ChunkView>
    decreases t.len() - i, 0nat, k,
{
    if 0 <= i < t.len() && 0 < k <= child_count_of(t, i) && i < child_of(t, i, k - 1) < t.len() {
        let c = child_of(t, i, k - 1);
        kind_chunks_upto(t, i, k - 1, ks, max_bytes) + (if !t[c].named {
            Seq::empty()
        } else if text_in(t[c].kind@, ks) {
            node_chunk(t, c, max_bytes)
        } else if text_in(t[c].kind@, descend_kinds()) {
            kind_chunks(t, c, ks, max_bytes)
        } else {
            Seq::empty()
        })
    } else {
        Seq::empty()
    }
}

fn collect_kind_chunks(t: &SyntaxTree, i: usize, ks: &[&str], opts: &ChunkOptions, chunks: &mut Vec<AstChunk>)
    requires
        i < t@.len(),
        old(chunks)@.len() <= opts.max_results,
    ensures
        final(chunks)@.len() <= opts.max_results,
        chunks_view(final(chunks)@) == cap(chunks_view(old(chunks)@)
            + kind_chunks(t@, i as int, ks@, opts.max_bytes_per_chunk as int), opts.max_results as int),
    decreases t@.len() - i,
{
    t.wf();
    let ghost base = chunks_view(chunks@);
    let ghost mb = opts.max_bytes_per_chunk as int;
    let ghost mx = opts.max_results as int;
    if chunks.len() >= opts.max_results {
        proof { lemma_cap_full(base, kind_chunks(t@, i as int, ks@, mb), mx); }
        return;
    }
    let node = t.node(i);
    let m = node.children.len();
    let mut k: usize = 0;
    assert(base + kind_chunks_upto(t@, i as int, 0, ks@, mb) =~= base);
    while k < m
        invariant
            tree_wf(t@),
            i < t@.len(),
            node == t@[i as int],
            m == child_count_of(t@, i as int),
            k <= m,
            mb == opts.max_bytes_per_chunk as int,
            mx == opts.max_results as int,
            chunks@.len() <= opts.max_results,
            chunks_view(chunks@) == cap(base + kind_chunks_upto(t@, i as int, k as int, ks@, mb), mx),
        decreases m - k,
    {
        let c = node.children[k];
        assert(c as int == child_of(t@, i as int, k as int));
        let ghost prev = kind_chunks_upto(t@, i as int, k as int, ks@, mb);
        let ghost item = if !t@[c as int].named {
            Seq::empty()
        } else if text_in(t@[c as int].kind@, ks@) {
            node_chunk(t@, c as int, mb)
        } else if text_in(t@[c as int].kind@, descend_kinds()) {
            kind_chunks(t@, c as int, ks@, mb)
        } else {
            Seq::empty()
        };
        let cn = t.node(c);
        if chunks.len() >= opts.max_results {
            proof { lemma_cap_full(chunks_view(chunks@), item, mx); }
        } else if !cn.named {
            assert(chunks_view(chunks@) + item =~= chunks_view(chunks@));
        } else if str_in(cn.kind.as_str(), ks) {
            push_node_chunk(t, c, opts.max_bytes_per_chunk, opts.max_results, chunks);
        } else if should_descend_for_chunks(cn.kind.as_str()) {
            collect_kind_chunks(t, c, ks, opts, chunks);
            proof { lemma_cap_step(Seq::<ChunkView>::empty(), chunks_view(chunks@), Seq::empty(), mx); }
        } else {
            assert(chunks_view(chunks@) + item =~= chunks_view(chunks@));
        }
        proof {
            lemma_cap_step(base, prev, item, mx);
        }
        k = k + 1;
    }
}

// ---------------------------------------------------------------------------
// Runs of top-level nodes under a line budget
// ---------------------------------------------------------------------------

/// The number of line-feed bytes in `b`.
pub open spec fn count_feeds(b: Seq<u8>) -> nat
    decreases b.len(),
{
    if b.len() == 0 { 0 } else { count_feeds(b.drop_last()) + (if b.last() == 10 { 1nat } else { 0nat }) }
}

/// The number of lines `str::lines` yields for a text, counted on its bytes.
pub open spec fn byte_line_count(b: Seq<u8>) -> nat {
    count_feeds(b) + (if b.len() > 0 && b.last() != 10 { 1nat } else { 0nat })
}

/// The zero-based line of byte offset `byte` (taken at most at the end of the text):
/// the number of lines before it, less one, and zero at least.
pub open spec fn line_of_byte(source: Seq<u8>, byte: int) -> nat {
    let b = if byte <= source.len() { byte } else { source.len() as int };
    let n = byte_line_count(source.take(b));
    if n > 0 { (n - 1) as nat } else { 0 }
}

proof fn lemma_count_feeds_bound(b: Seq<u8>)
    ensures
        count_feeds(b) <= b.len(),
    decreases b.len(),
{
    if b.len() > 0 {
        lemma_count_feeds_bound(b.drop_last());
    }
}

/// The zero-based line of a byte offset.
pub fn byte_to_line(source: &str, byte: usize) -> (r: usize)
    requires
        vstd::utf8::is_char_boundary(source.spec_bytes(), (if byte <= source.spec_bytes().len() { byte as int } else { source.spec_bytes().len() as int })),
    ensures
        r == line_of_byte(source.spec_bytes(), byte as int),
{
    let bytes = source.as_bytes();
    let n = bytes.len();
    let b = if byte <= n { byte } else { n };
    let mut i: usize = 0;
    let mut feeds: usize = 0;
    while i < b
        invariant
            n == bytes@.len(),
            bytes@ == source.spec_bytes(),
            b <= n,
            i <= b,
            feeds <= i,
            feeds == count_feeds(bytes@.take(i as int)),
        decreases b - i,
    {
        assert(bytes@.take(i + 1).drop_last() =~= bytes@.take(i as int));
        if bytes[i] == 10 {
            feeds = feeds + 1;
        }
        i = i + 1;
    }
    let ghost pre = bytes@.take(b as int);
    proof {
        if b > 0 {
            lemma_count_feeds_bound(pre.drop_last());
            assert(pre.drop_last() =~= bytes@.take(b - 1));
        }
    }
    let lines = if b > 0 && bytes[b - 1] != 10 { feeds + 1 } else { feeds };
    if lines > 0 { lines - 1 } else { 0 }
}

/// The named children among the first `k` children of the root, in order.
pub open spec fn top_named_upto(t: Seq<SyntaxNode>, k: int) -> Seq<int>
    decreases k,
{
    if k <= 0 {
        Seq::empty()
    } else {
        let c = child_of(t, 0, k - 1);
        top_named_upto(t, k - 1) + (if t[c].named { seq![c] } else { Seq::empty() })
    }
}

/// The named children of the root, in order.
pub open spec fn top_named(t: Seq<SyntaxNode>) -> Seq<int> {
    top_named_upto(t, child_count_of(t, 0))
}

/// The state of the line-budget walk: chunks so far, start of the open run, lines in it
/// and end of its last node.
pub struct RunState {
    pub chunks: Seq<ChunkView>,
    pub start: int,
    pub lines: int,
    pub last: int,
}

/// The chunk holding the source bytes `[start, end)`; its last line is that of byte
/// `end_line_byte`.
pub open spec fn run_chunk(source: Seq<u8>, start: int, end: int, end_line_byte: int, max_bytes: int) -> ChunkView {
    ChunkView {
        start_line: line_of_byte(source, start) as u32,
        end_line: line_of_byte(source, end_line_byte) as u32,
        start_byte: start as usize,
        end_byte: end as usize,
        text_bytes: capped_bytes(source_slice(source, start, end), max_bytes),
        kind: "chunk"@,
    }
}

/// One step of the line-budget walk over top-level node `c`: when the open run is not
/// empty and `c` would take it over the budget, the run becomes a chunk and a new run
/// starts at `c`. Nothing changes once `max_results` chunks are made.
pub open spec fn run_step(t: Seq<SyntaxNode>, source: Seq<u8>, st: RunState, c: int, max_lines: int, opts: ChunkOptions) -> RunState {
    if st.chunks.len() >= opts.max_results {
        st
    } else {
        let n = line_count(t[c].text@) as int;
        let flush = st.lines + n > max_lines && st.lines > 0;
        let chunks = if flush {
            st.chunks.push(run_chunk(source, st.start, st.last, if st.last >= 1 { st.last - 1 } else { 0 }, opts.max_bytes_per_chunk as int))
        } else {
            st.chunks
        };
        RunState {
            chunks,
            start: if flush { t[c].start_byte as int } else { st.start },
            lines: (if flush { 0 } else { st.lines }) + n,
            last: t[c].end_byte as int,
        }
    }
}

/// The line-budget walk over the nodes `ns`.
pub open spec fn run_walk(t: Seq<SyntaxNode>, source: Seq<u8>, st: RunState, ns: Seq<int>, max_lines: int, opts: ChunkOptions) -> RunState
    decreases ns.len(),
{
    if ns.len() == 0 {
        st
    } else {
        run_step(t, source, run_walk(t, source, st, ns.drop_last(), max_lines, opts), ns.last(), max_lines, opts)
    }
}

/// The chunks of the line-budget strategy: with no named top-level node, the whole file
/// as one chunk; else the runs of the walk, the open run closed at the end if it is not
/// empty and the limit allows.
pub open spec fn max_lines_chunks(t: Seq<SyntaxNode>, source: Seq<u8>, text: Seq<char>, opts: ChunkOptions) -> Seq<ChunkView> {
    let ns = top_named(t);
    let len = source.len() as int;
    if ns.len() == 0 {
        seq![ChunkView {
            start_line: 0,
            end_line: (if line_count(text) >= 1 { line_count(text) - 1 } else { 0 }) as u32,
            start_byte: 0,
            end_byte: len as usize,
            text_bytes: capped_bytes(source, opts.max_bytes_per_chunk as int),
            kind: "file"@,
        }]
    } else {
        let max_lines = if opts.max_lines_per_chunk >= 1 { opts.max_lines_per_chunk as int } else { 1 };
        let s0 = t[ns[0]].start_byte as int;
        let st = run_walk(t, source, RunState { chunks: Seq::empty(), start: s0, lines: 0, last: s0 }, ns, max_lines, opts);
        if st.last > st.start && st.chunks.len() < opts.max_results {
            let end = if st.last <= len { st.last } else { len };
            let last_byte = if st.last >= 1 { st.last - 1 } else { 0 };
            let end_line_byte = if last_byte <= (if len >= 1 { len - 1 } else { 0 }) { last_byte } else { if len >= 1 { len - 1 } else { 0 } };
            st.chunks.push(run_chunk(source, st.start, end, end_line_byte, opts.max_bytes_per_chunk as int))
        } else {
            st.chunks
        }
    }
}

/// The top-level named nodes lie in source order without overlapping, on character
/// boundaries, and the byte before each node's end is a character boundary too, so that
/// the source can be sliced and its lines counted at these places.
pub open spec fn runs_sliceable(t: Seq<SyntaxNode>, source: Seq<u8>) -> bool {
    let ns = top_named(t);
    &&& forall|j: int| 0 <= j < ns.len() ==> {
        let n = #[trigger] t[ns[j]];
        &&& n.start_byte <= n.end_byte <= source.len()
        &&& vstd::utf8::is_char_boundary(source, n.start_byte as int)
        &&& vstd::utf8::is_char_boundary(source, n.end_byte as int)
        &&& (n.end_byte >= 1 ==> vstd::utf8::is_char_boundary(source, n.end_byte - 1))
    }
    &&& forall|j: int, k: int| 0 <= j < k < ns.len() ==> #[trigger] t[ns[j]].end_byte <= #[trigger] t[ns[k]].start_byte
}

/// Chunks lie in source order: each one's start is not after its end, and each one ends
/// at or before the start of every later one.
pub open spec fn chunks_in_order(cs: Seq<ChunkView>) -> bool {
    &&& forall|j: int| 0 <= j < cs.len() ==> (#[trigger] cs[j]).start_byte <= cs[j].end_byte
    &&& forall|j: int, k: int| 0 <= j < k < cs.len() ==> (#[trigger] cs[j]).end_byte <= (#[trigger] cs[k]).start_byte
}

/// What holds of the line-budget walk after the first `i` top-level nodes `all`.
spec fn walk_ordered(t: Seq<SyntaxNode>, source: Seq<u8>, all: Seq<int>, i: int, st: RunState) -> bool {
    &&& chunks_in_order(st.chunks)
    &&& (st.chunks.len() > 0 ==> st.chunks.last().end_byte <= st.start)
    &&& 0 <= st.start <= st.last <= usize::MAX
    &&& st.start <= source.len()
    &&& forall|k: int| i <= k < all.len() ==> st.last <= #[trigger] t[all[k]].start_byte
}

proof fn lemma_push_in_order(cs: Seq<ChunkView>, c: ChunkView)
    requires
        chunks_in_order(cs),
        cs.len() > 0 ==> cs.last().end_byte <= c.start_byte,
        c.start_byte <= c.end_byte,
    ensures
        chunks_in_order(cs.push(c)),
{
    let ds = cs.push(c);
    assert forall|j: int, k: int| 0 <= j < k < ds.len() implies (#[trigger] ds[j]).end_byte <= (#[trigger] ds[k]).start_byte by {
        if k == cs.len() {
            if j < cs.len() - 1 {
                assert(cs[j].end_byte <= cs[cs.len() - 1].start_byte);
            }
        } else {
            assert(ds[j] == cs[j] && ds[k] == cs[k]);
        }
    }
    assert forall|j: int| 0 <= j < ds.len() implies (#[trigger] ds[j]).start_byte <= ds[j].end_byte by {
        if j < cs.len() {
            assert(ds[j] == cs[j]);
        }
    }
}

proof fn lemma_walk_ordered(
    t: Seq<SyntaxNode>,
    source: Seq<u8>,
    all: Seq<int>,
    i: int,
    max_lines: int,
    opts: ChunkOptions,
)
    requires
        all == top_named(t),
        runs_sliceable(t, source),
        0 < all.len(),
        0 <= i <= all.len(),
    ensures
        walk_ordered(t, source, all, i, run_walk(t, source, RunState {
            chunks: Seq::empty(),
            start: t[all[0]].start_byte as int,
            lines: 0,
            last: t[all[0]].start_byte as int,
        }, all.take(i), max_lines, opts)),
    decreases i,
{
    let s0 = t[all[0]].start_byte as int;
    let st0 = RunState { chunks: Seq::empty(), start: s0, lines: 0, last: s0 };
    if i == 0 {
        assert(all.take(0) =~= Seq::<int>::empty());
        assert forall|k: int| 0 <= k < all.len() implies s0 <= #[trigger] t[all[k]].start_byte by {
            if k > 0 {
                assert(t[all[0]].end_byte <= t[all[k]].start_byte);
            }
        }
    } else {
        lemma_walk_ordered(t, source, all, i - 1, max_lines, opts);
        assert(all.take(i).drop_last() =~= all.take(i - 1));
        let st = run_walk(t, source, st0, all.take(i - 1), max_lines, opts);
        let c = all[i - 1];
        assert(all.take(i).last() == c);
        let next = run_step(t, source, st, c, max_lines, opts);
        assert(run_walk(t, source, st0, all.take(i), max_lines, opts) == next);
        let n = t[c];
        assert(n.start_byte <= n.end_byte <= source.len());
        assert(st.last <= n.start_byte);
        assert forall|k: int| i <= k < all.len() implies n.end_byte <= #[trigger] t[all[k]].start_byte by {
            assert(t[all[i - 1]].end_byte <= t[all[k]].start_byte);
        }
        if st.chunks.len() < opts.max_results {
            let lines = line_count(n.text@) as int;
            if st.lines + lines > max_lines && st.lines > 0 {
                let ch = run_chunk(source, st.start, st.last, if st.last >= 1 { st.last - 1 } else { 0 }, opts.max_bytes_per_chunk as int);
                lemma_push_in_order(st.chunks, ch);
                assert(next.chunks == st.chunks.push(ch));
            }
        }
    }
}

/// The line-budget strategy gives chunks in source order that do not overlap, whenever
/// the top-level nodes lie in order in the source (what `chunk_file` asks of that
/// strategy).
pub proof fn law_line_chunks_in_order(t: Seq<SyntaxNode>, source: Seq<u8>, text: Seq<char>, opts: ChunkOptions)
    requires
        runs_sliceable(t, source),
    ensures
        chunks_in_order(max_lines_chunks(t, source, text, opts)),
{
    let ns = top_named(t);
    if ns.len() > 0 {
        let max_lines = if opts.max_lines_per_chunk >= 1 { opts.max_lines_per_chunk as int } else { 1 };
        lemma_walk_ordered(t, source, ns, ns.len() as int, max_lines, opts);
        assert(ns.take(ns.len() as int) =~= ns);
        let s0 = t[ns[0]].start_byte as int;
        let st = run_walk(t, source, RunState { chunks: Seq::empty(), start: s0, lines: 0, last: s0 }, ns, max_lines, opts);
        let len = source.len() as int;
        if st.last > st.start && st.chunks.len() < opts.max_results {
            let end = if st.last <= len { st.last } else { len };
            let last_byte = if st.last >= 1 { st.last - 1 } else { 0 };
            let end_line_byte = if last_byte <= (if len >= 1 { len - 1 } else { 0 }) { last_byte } else { if len >= 1 { len - 1 } else { 0 } };
            lemma_push_in_order(st.chunks, run_chunk(source, st.start, end, end_line_byte, opts.max_bytes_per_chunk as int));
        }
    }
}

fn collect_top_named(t: &SyntaxTree) -> (r: Vec<usize>)
    ensures
        r@.map_values(|x: usize| x as int) == top_named(t@),
        forall|j: int| 0 <= j < r@.len() ==> (#[trigger] r@[j]) < t@.len(),
{
    t.wf();
    let root = t.node(0);
    let m = root.children.len();
    let mut out: Vec<usize> = Vec::new();
    let mut k: usize = 0;
    assert(out@.map_values(|x: usize| x as int) =~= top_named_upto(t@, 0));
    while k < m
        invariant
            tree_wf(t@),
            root == t@[0],
            m == child_count_of(t@, 0),
            k <= m,
            out@.map_values(|x: usize| x as int) == top_named_upto(t@, k as int),
            forall|j: int| 0 <= j < out@.len() ==> (#[trigger] out@[j]) < t@.len(),
        decreases m - k,
    {
        let c = root.children[k];
        assert(c as int == child_of(t@, 0, k as int));
        let ghost prev = out@;
        if t.node(c).named {
            out.push(c);
        }
        assert(out@.map_values(|x: usize| x as int) =~= top_named_upto(t@, k + 1));
        k = k + 1;
    }
    out
}

fn push_run_chunk(source: &str, start: usize, end: usize, end_line_byte: usize, max_bytes: usize, chunks: &mut Vec<AstChunk>)
    requires
        vstd::utf8::is_char_boundary(source.spec_bytes(), (if end_line_byte <= source.spec_bytes().len() { end_line_byte as int } else { source.spec_bytes().len() as int })),
        vstd::utf8::is_char_boundary(source.spec_bytes(), (if start <= source.spec_bytes().len() { start as int } else { source.spec_bytes().len() as int })),
    ensures
        chunks_view(final(chunks)@) == chunks_view(old(chunks)@).push(run_chunk(source.spec_bytes(), start as int, end as int, end_line_byte as int, max_bytes as int)),
{
    let slice = slice_source(source, start, end);
    let text = capped_text(slice.as_str(), max_bytes);
    let start_line = byte_to_line(source, start);
    let end_line = byte_to_line(source, end_line_byte);
    let ghost before = chunks_view(chunks@);
    chunks.push(AstChunk {
        start_line: start_line as u32,
        end_line: end_line as u32,
        start_byte: start,
        end_byte: end,
        text,
        kind: "chunk".to_owned(),
    });
    assert(chunks_view(chunks@) =~= before.push(run_chunk(source.spec_bytes(), start as int, end as int, end_line_byte as int, max_bytes as int)));
}

fn chunk_max_lines(t: &SyntaxTree, source: &str, opts: &ChunkOptions) -> (r: Vec<AstChunk>)
    requires
        runs_sliceable(t@, source.spec_bytes()),
    ensures
        chunks_view(r@) == max_lines_chunks(t@, source.spec_bytes(), source@, *opts),
{
    t.wf();
    let ghost src = source.spec_bytes();
    let boundaries = collect_top_named(t);
    let ghost ns = top_named(t@);
    assert(forall|j: int| 0 <= j < boundaries@.len() ==> boundaries@[j] as int == #[trigger] ns[j]) by {
        assert forall|j: int| 0 <= j < boundaries@.len() implies boundaries@[j] as int == #[trigger] ns[j] by {
            assert(boundaries@.map_values(|x: usize| x as int)[j] == boundaries@[j] as int);
        }
    }
    let len = source.as_bytes().len();
    if boundaries.len() == 0 {
        let chars = chars_of(source);
        let lines = count_lines(chars.as_slice());
        let mut out: Vec<AstChunk> = Vec::new();
        out.push(AstChunk {
            start_line: 0,
            end_line: (if lines >= 1 { lines - 1 } else { 0 }) as u32,
            start_byte: 0,
            end_byte: len,
            text: capped_text(source, opts.max_bytes_per_chunk),
            kind: "file".to_owned(),
        });
        assert(chunks_view(out@) =~= max_lines_chunks(t@, src, source@, *opts));
        return out;
    }
    let max_lines = if opts.max_lines_per_chunk >= 1 { opts.max_lines_per_chunk } else { 1 };
    let mut chunks: Vec<AstChunk> = Vec::new();
    let first = t.node(boundaries[0]);
    let mut current_start = first.start_byte;
    let mut current_lines: usize = 0;
    let mut last_byte = current_start;
    let ghost s0 = first.start_byte as int;
    let ghost st0 = RunState { chunks: Seq::empty(), start: s0, lines: 0, last: s0 };
    let nb = boundaries.len();
    let mut i: usize = 0;
    assert(chunks_view(chunks@) =~= Seq::<ChunkView>::empty());
    assert(ns.take(0) =~= Seq::<int>::empty());
    assert(ns.take(nb as int) =~= ns);
    while i < nb
        invariant_except_break
            tree_wf(t@),
            nb == boundaries@.len(),
            nb == ns.len(),
            i <= nb,
            src == source.spec_bytes(),
            len == src.len(),
            runs_sliceable(t@, src),
            ns == top_named(t@),
            ns.take(nb as int) == ns,
            forall|j: int| 0 <= j < nb ==> boundaries@[j] as int == #[trigger] ns[j],
            forall|j: int| 0 <= j < nb ==> (#[trigger] boundaries@[j]) < t@.len(),
            st0 == (RunState { chunks: Seq::empty(), start: s0, lines: 0, last: s0 }),
            max_lines == (if opts.max_lines_per_chunk >= 1 { opts.max_lines_per_chunk } else { 1 }),
            (RunState { chunks: chunks_view(chunks@), start: current_start as int, lines: current_lines as int, last: last_byte as int })
                == run_walk(t@, src, st0, ns.take(i as int), max_lines as int, *opts),
            current_start <= len,
            vstd::utf8::is_char_boundary(src, current_start as int),
            last_byte <= len,
            i == 0 ==> last_byte == current_start && current_lines == 0,
            i > 0 ==> last_byte as int == t@[ns[i - 1]].end_byte,
        ensures
            (RunState { chunks: chunks_view(chunks@), start: current_start as int, lines: current_lines as int, last: last_byte as int })
                == run_walk(t@, src, st0, ns, max_lines as int, *opts),
            current_start <= len,
            vstd::utf8::is_char_boundary(src, current_start as int),
            last_byte <= len,
            last_byte > current_start ==> last_byte >= 1 && vstd::utf8::is_char_boundary(src, last_byte - 1),
        decreases nb - i,
    {
        let ghost before = run_walk(t@, src, st0, ns.take(i as int), max_lines as int, *opts);
        if chunks.len() >= opts.max_results {
            proof {
                lemma_run_full(t@, src, st0, ns, i as int, max_lines as int, *opts);
                if last_byte > current_start {
                    assert(i > 0);
                    let n = t@[ns[i - 1]];
                    assert(n == t@[ns[i - 1]]);
                }
            }
            break;
        }
        let c = boundaries[i];
        let node = t.node(c);
        proof {
            assert(ns.take(i + 1).drop_last() =~= ns.take(i as int));
            assert(ns.take(i + 1).last() == ns[i as int]);
            let nn = t@[ns[i as int]];
            assert(nn == t@[ns[i as int]]);
        }
        let chars = chars_of(node.text.as_str());
        let node_lines = count_lines(chars.as_slice());
        let over = match current_lines.checked_add(node_lines) {
            Some(sum) => sum > max_lines,
            None => true,
        };
        if over && current_lines > 0 {
            let end_line_byte = if last_byte >= 1 { last_byte - 1 } else { 0 };
            proof {
                let nn = t@[ns[i - 1]];
                assert(nn == t@[ns[i - 1]]);
            }
            push_run_chunk(source, current_start, last_byte, end_line_byte, opts.max_bytes_per_chunk, &mut chunks);
            current_start = node.start_byte;
            current_lines = 0;
        }
        current_lines = current_lines + node_lines;
        last_byte = node.end_byte;
        i = i + 1;
    }
    let ghost fin = run_walk(t@, src, st0, ns, max_lines as int, *opts);
    if last_byte > current_start && chunks.len() < opts.max_results {
        let end = if last_byte <= len { last_byte } else { len };
        let lb = if last_byte >= 1 { last_byte - 1 } else { 0 };
        let lim = if len >= 1 { len - 1 } else { 0 };
        let end_line_byte = if lb <= lim { lb } else { lim };
        push_run_chunk(source, current_start, end, end_line_byte, opts.max_bytes_per_chunk, &mut chunks);
    }
    chunks
}

/// Once the limit is reached, the line-budget walk changes nothing more.
proof fn lemma_run_full(t: Seq<SyntaxNode>, source: Seq<u8>, st0: RunState, ns: Seq<int>, i: int, max_lines: int, opts: ChunkOptions)
    requires
        0 <= i <= ns.len(),
        run_walk(t, source, st0, ns.take(i), max_lines, opts).chunks.len() >= opts.max_results,
    ensures
        run_walk(t, source, st0, ns, max_lines, opts) == run_walk(t, source, st0, ns.take(i), max_lines, opts),
    decreases ns.len() - i,
{
    if i < ns.len() {
        assert(ns.take(i + 1).drop_last() =~= ns.take(i));
        lemma_run_full(t, source, st0, ns, i + 1, max_lines, opts);
    } else {
        assert(ns.take(i) =~= ns);
    }
}

/// Whether the top-level nodes of `t` lie in order on character boundaries of `source`,
/// as the line-budget strategy of `chunk_file` needs.
pub fn check_runs_sliceable(t: &SyntaxTree, source: &str) -> (r: bool)
    ensures
        r == runs_sliceable(t@, source.spec_bytes()),
{
    let ns = collect_top_named(t);
    let ghost nsi = top_named(t@);
    let ghost b = source.spec_bytes();
    let len = source.as_bytes().len();
    let mut i: usize = 0;
    while i < ns.len()
        invariant
            ns@.map_values(|x: usize| x as int) == nsi,
            nsi == top_named(t@),
            forall|j: int| 0 <= j < ns@.len() ==> (#[trigger] ns@[j]) < t@.len(),
            b == source.spec_bytes(),
            len == b.len(),
            i <= ns@.len(),
            forall|j: int| 0 <= j < i ==> {
                let n = #[trigger] t@[nsi[j]];
                &&& n.start_byte <= n.end_byte <= b.len()
                &&& vstd::utf8::is_char_boundary(b, n.start_byte as int)
                &&& vstd::utf8::is_char_boundary(b, n.end_byte as int)
                &&& (n.end_byte >= 1 ==> vstd::utf8::is_char_boundary(b, n.end_byte - 1))
            },
            forall|j: int, k: int| 0 <= j < k < i ==> #[trigger] t@[nsi[j]].end_byte <= #[trigger] t@[nsi[k]].start_byte,
        decreases ns@.len() - i,
    {
        let node = t.node(ns[i]);
        assert(nsi[i as int] == ns@[i as int] as int);
        let s = node.start_byte;
        let e = node.end_byte;
        if !(s <= e && e <= len && source.is_char_boundary(s) && source.is_char_boundary(e)) {
            return false;
        }
        if e >= 1 && !source.is_char_boundary(e - 1) {
            return false;
        }
        if i > 0 {
            let prev = t.node(ns[i - 1]);
            assert(nsi[i - 1] == ns@[i - 1] as int);
            if prev.end_byte > s {
                return false;
            }
            assert forall|j: int, k: int| 0 <= j < k < i + 1 implies #[trigger] t@[nsi[j]].end_byte <= #[trigger] t@[nsi[k]].start_byte by {
                if k == i && j < i - 1 {
                    assert(t@[nsi[j]].end_byte <= t@[nsi[i - 1]].start_byte);
                }
            }
        }
        i = i + 1;
    }
    true
}

/// Split a file into chunks with the chosen strategy. The line-budget strategy slices
/// the source between top-level nodes, which must lie in order on character boundaries.
pub fn chunk_file(t: &SyntaxTree, source: &str, _file_path: &str, opts: &ChunkOptions) -> (r: Result<ChunkResult, ()>)
    requires
        opts.strategy == ChunkStrategy::MaxLinesWithAstBoundaries ==> runs_sliceable(t@, source.spec_bytes()),
    ensures
        r matches Ok(res) && res.strategy@ == strategy_name(opts.strategy) && res.total_chunks == res.chunks@.len()
            && chunks_view(res.chunks@) == (match opts.strategy {
                ChunkStrategy::TopLevel => cap(top_chunks_upto(t@, child_count_of(t@, 0), opts.max_bytes_per_chunk as int), opts.max_results as int),
                ChunkStrategy::FunctionClass => cap(kind_chunks(t@, 0, function_class_kinds(), opts.max_bytes_per_chunk as int), opts.max_results as int),
                ChunkStrategy::SemanticBlocks => cap(kind_chunks(t@, 0, semantic_kinds(), opts.max_bytes_per_chunk as int), opts.max_results as int),
                ChunkStrategy::MaxLinesWithAstBoundaries => max_lines_chunks(t@, source.spec_bytes(), source@, *opts),
            }),
{
    let chunks = match opts.strategy {
        ChunkStrategy::TopLevel => chunk_top_level(t, opts),
        ChunkStrategy::FunctionClass => {
            let ks: &[&str] = &[
                "function_declaration", "generator_function_declaration", "method_definition",
                "arrow_function", "function_signature", "class_declaration", "class_expression",
                "function_definition", "class_definition", "decorated_definition", "export_statement",
            ];
            assert(ks@ =~= function_class_kinds());
            chunk_by_kinds(t, ks, opts)
        },
        ChunkStrategy::SemanticBlocks => {
            let ks: &[&str] = &[
                "function_declaration", "generator_function_declaration", "method_definition",
                "arrow_function", "function_signature", "class_declaration", "class_expression",
                "function_definition", "class_definition", "decorated_definition", "export_statement",
                "import_statement", "import_from_statement", "if_statement", "for_statement",
                "for_in_statement", "while_statement", "switch_statement", "try_statement",
                "lexical_declaration", "variable_declaration",
            ];
            assert(ks@ =~= semantic_kinds());
            chunk_by_kinds(t, ks, opts)
        },
        ChunkStrategy::MaxLinesWithAstBoundaries => chunk_max_lines(t, source, opts),
    };
    let total = chunks.len();
    let strategy_name: &str = match opts.strategy {
        ChunkStrategy::TopLevel => "top_level",
        ChunkStrategy::FunctionClass => "function_class",
        ChunkStrategy::SemanticBlocks => "semantic_blocks",
        ChunkStrategy::MaxLinesWithAstBoundaries => "max_lines_with_ast_boundaries",
    };
    Ok(ChunkResult { chunks, strategy: strategy_name.to_owned(), total_chunks: total })
}

fn chunk_by_kinds(t: &SyntaxTree, ks: &[&str], opts: &ChunkOptions) -> (r: Vec<AstChunk>)
    ensures
        chunks_view(r@) == cap(kind_chunks(t@, 0, ks@, opts.max_bytes_per_chunk as int), opts.max_results as int),
{
    t.wf();
    let mut chunks: Vec<AstChunk> = Vec::new();
    assert(chunks_view(chunks@) =~= Seq::<ChunkView>::empty());
    collect_kind_chunks(t, 0, ks, opts, &mut chunks);
    assert(Seq::<ChunkView>::empty() + kind_chunks(t@, 0, ks@, opts.max_bytes_per_chunk as int)
        =~= kind_chunks(t@, 0, ks@, opts.max_bytes_per_chunk as int));
    chunks
}

} // verus!
