//! Running a tree-sitter query over a tree: matches with their captures, limited in
//! number, with capture texts cut to a byte limit and captures ordered by name.
use vstd::prelude::*;
use vstd::string::*;
#[allow(unused_imports)]
use tree_sitter::{QueryCursor, StreamingIterator};

use crate::shared::{Position, Range};
use crate::syntax::to_u32_pos;
use crate::text::{capped_bytes, capped_text, string_bytes};

verus! {

#[verifier::external_type_specification]
#[verifier::external_body]
pub struct ExTsQuery(tree_sitter::Query);

/// How a query is run.
#[derive(Debug, Clone, Copy, PartialEq, Eq, Structural)]
pub struct QueryOptions {
    pub max_results: usize,
    pub include_node_text: bool,
    pub max_text_bytes: usize,
}

/// A captured node of a match.
#[derive(Debug)]
pub struct Capture {
    pub name: String,
    pub kind: String,
    pub range: Range,
    pub text: Option<String>,
}

/// A match of a query: the pattern it matched and its captures, ordered by name.
#[derive(Debug)]
pub struct AstQueryMatch {
    pub pattern_index: Option<u32>,
    pub captures: Vec<Capture>,
}

/// A capture as the query engine reports it: its name, node kind, start and end as
/// (row, column) and full text.
#[derive(Debug)]
pub struct RawCapture {
    pub name: String,
    pub kind: String,
    pub start: (usize, usize),
    pub end: (usize, usize),
    pub text: String,
}

/// A match as the query engine reports it: its pattern's index and its captures.
#[derive(Debug)]
pub struct RawQueryMatch {
    pub pattern_index: usize,
    pub captures: Vec<RawCapture>,
}

/// A raw capture as plain values: (name, kind, start, end, text).
pub type RawCaptureView = (Seq<char>, Seq<char>, (usize, usize), (usize, usize), Seq<char>);

/// A raw match as plain values: (pattern index, captures).
pub type RawMatchView = (usize, Seq<RawCaptureView>);

impl View for RawCapture {
    type V = RawCaptureView;

    open spec fn view(&self) -> RawCaptureView {
        (self.name@, self.kind@, self.start, self.end, self.text@)
    }
}

impl View for RawQueryMatch {
    type V = RawMatchView;

    open spec fn view(&self) -> RawMatchView {
        (self.pattern_index, crate::visit::views(self.captures@))
    }
}

/// The matches `tree_sitter::QueryCursor::matches` finds for a query over a tree and its
/// source text, in the order the cursor yields them.
pub uninterp spec fn query_engine_matches(query: tree_sitter::Query, tree: tree_sitter::Tree, source: Seq<char>) -> Seq<RawMatchView>;

/// A position from a (row, column) pair, each cut to `u32::MAX`.
pub open spec fn position_of(p: (usize, usize)) -> Position {
    Position {
        line: if p.0 <= u32::MAX { p.0 as u32 } else { u32::MAX },
        character: if p.1 <= u32::MAX { p.1 as u32 } else { u32::MAX },
    }
}

/// A capture as plain values; its text is given by its UTF-8 bytes.
pub struct CaptureView {
    pub name: Seq<char>,
    pub kind: Seq<char>,
    pub range: Range,
    pub text_bytes: Option<Seq<u8>>,
}

impl View for Capture {
    type V = CaptureView;

    open spec fn view(&self) -> CaptureView {
        CaptureView {
            name: self.name@,
            kind: self.kind@,
            range: self.range,
            text_bytes: match self.text { Some(t) => Some(string_bytes(t@)), None => None },
        }
    }
}

/// A match as plain values.
pub struct MatchView {
    pub pattern_index: Option<u32>,
    pub captures: Seq<CaptureView>,
}

impl View for AstQueryMatch {
    type V = MatchView;

    open spec fn view(&self) -> MatchView {
        MatchView { pattern_index: self.pattern_index, captures: crate::visit::views(self.captures@) }
    }
}

/// Whether name `a` sorts no later than name `b` (by code point, which is the byte order
/// of their UTF-8 forms).
pub open spec fn name_le(a: Seq<char>, b: Seq<char>) -> bool
    decreases a.len(),
{
    if a.len() == 0 {
        true
    } else if b.len() == 0 {
        false
    } else if a[0] != b[0] {
        (a[0] as u32) < (b[0] as u32)
    } else {
        name_le(a.drop_first(), b.drop_first())
    }
}

/// `s`, sorted by name, with `x` inserted after every capture whose name sorts no later.
pub open spec fn insert_by_name(s: Seq<CaptureView>, x: CaptureView) -> Seq<CaptureView>
    decreases s.len(),
{
    if s.len() == 0 {
        seq![x]
    } else if name_le(s.last().name, x.name) {
        s.push(x)
    } else {
        insert_by_name(s.drop_last(), x).push(s.last())
    }
}

/// The captures in stable order by name (as `slice::sort_by` comparing names).
pub open spec fn sort_by_name(s: Seq<CaptureView>) -> Seq<CaptureView>
    decreases s.len(),
{
    if s.len() == 0 { s } else { insert_by_name(sort_by_name(s.drop_last()), s.last()) }
}

/// Whether a text can be cut to `max` bytes: it is no longer, or byte `max` starts a
/// character.
pub open spec fn cuttable_at(text: Seq<char>, max: int) -> bool {
    string_bytes(text).len() <= max || vstd::utf8::is_char_boundary(string_bytes(text), max)
}

/// The first `max` bytes of a text.
pub open spec fn bytes_cut(text: Seq<char>, max: int) -> Seq<u8> {
    if string_bytes(text).len() > max { string_bytes(text).take(max) } else { string_bytes(text) }
}

/// A raw capture as reported: its range from its (row, column) pairs, its text only when
/// node text is asked for, cut to the limit.
pub open spec fn capture_of(c: RawCaptureView, opts: QueryOptions) -> CaptureView {
    CaptureView {
        name: c.0,
        kind: c.1,
        range: Range { start: position_of(c.2), end: position_of(c.3) },
        text_bytes: if opts.include_node_text { Some(bytes_cut(c.4, opts.max_text_bytes as int)) } else { None },
    }
}

/// A raw match as reported: its pattern index (as a `u32`) and its captures in stable
/// order by name.
pub open spec fn match_of(m: RawMatchView, opts: QueryOptions) -> MatchView {
    MatchView {
        pattern_index: Some(m.0 as u32),
        captures: sort_by_name(m.1.map_values(|c: RawCaptureView| capture_of(c, opts))),
    }
}

/// The matches reported for raw matches: at most `max_results`, in order.
pub open spec fn matches_of(raw: Seq<RawMatchView>, opts: QueryOptions) -> Seq<MatchView> {
    let kept = if raw.len() <= opts.max_results { raw } else { raw.take(opts.max_results as int) };
    kept.map_values(|m: RawMatchView| match_of(m, opts))
}

/// Whether every capture text of the reported matches can be cut.
pub open spec fn texts_cuttable(raw: Seq<RawMatchView>, opts: QueryOptions) -> bool {
    !opts.include_node_text || forall|i: int, j: int| 0 <= i < raw.len() && i < opts.max_results && 0 <= j < raw[i].1.len()
        ==> cuttable_at(#[trigger] raw[i].1[j].4, opts.max_text_bytes as int)
}

fn name_le_exec(a: &str, b: &str) -> (r: bool)
    ensures
        r == name_le(a@, b@),
{
    let x = crate::text::chars_of(a);
    let y = crate::text::chars_of(b);
    let mut i: usize = 0;
    assert(x@.skip(0) =~= x@);
    assert(y@.skip(0) =~= y@);
    while i < x.len()
        invariant
            i <= x@.len(),
            i <= y@.len(),
            x@.take(i as int) == y@.take(i as int),
            name_le(a@, b@) == name_le(x@.skip(i as int), y@.skip(i as int)),
            x@ == a@,
            y@ == b@,
        decreases x@.len() - i,
    {
        if i >= y.len() {
            return false;
        }
        if x[i] != y[i] {
            return (x[i] as u32) < (y[i] as u32);
        }
        assert(x@.skip(i as int).drop_first() =~= x@.skip(i + 1));
        assert(y@.skip(i as int).drop_first() =~= y@.skip(i + 1));
        assert(x@.take(i + 1) =~= x@.take(i as int).push(x@[i as int]));
        assert(y@.take(i + 1) =~= y@.take(i as int).push(y@[i as int]));
        i = i + 1;
    }
    true
}

fn insert_capture(out: &mut Vec<Capture>, x: Capture)
    ensures
        crate::visit::views(final(out)@) == insert_by_name(crate::visit::views(old(out)@), x@),
    decreases old(out)@.len(),
{
    let n = out.len();
    if n == 0 {
        out.push(x);
        assert(crate::visit::views(out@) =~= seq![x@]);
        return;
    }
    let ghost before = crate::visit::views(out@);
    if name_le_exec(out[n - 1].name.as_str(), x.name.as_str()) {
        out.push(x);
        assert(crate::visit::views(out@) =~= before.push(x@));
    } else {
        let last = out.pop().unwrap();
        assert(crate::visit::views(out@) =~= before.drop_last());
        insert_capture(out, x);
        let ghost mid = crate::visit::views(out@);
        out.push(last);
        assert(crate::visit::views(out@) =~= mid.push(before.last()));
    }
}

fn cut_text(text: &str, max: usize) -> (r: String)
    requires
        cuttable_at(text@, max as int),
    ensures
        string_bytes(r@) == bytes_cut(text@, max as int),
{
    let r = capped_text(text, max);
    assert(capped_bytes(text.spec_bytes(), max as int) == bytes_cut(text@, max as int));
    r
}

fn finish_match(m: &RawQueryMatch, opts: QueryOptions) -> (r: AstQueryMatch)
    requires
        opts.include_node_text ==> forall|j: int| 0 <= j < m.captures@.len()
            ==> cuttable_at(#[trigger] m.captures@[j].text@, opts.max_text_bytes as int),
    ensures
        r@ == match_of(m@, opts),
{
    let ghost mapped = m@.1.map_values(|c: RawCaptureView| capture_of(c, opts));
    let mut captures: Vec<Capture> = Vec::new();
    let mut i: usize = 0;
    assert(crate::visit::views(captures@) =~= sort_by_name(mapped.take(0)));
    while i < m.captures.len()
        invariant
            i <= m.captures@.len(),
            mapped == m@.1.map_values(|c: RawCaptureView| capture_of(c, opts)),
            m@.1.len() == m.captures@.len(),
            opts.include_node_text ==> forall|j: int| 0 <= j < m.captures@.len()
                ==> cuttable_at(#[trigger] m.captures@[j].text@, opts.max_text_bytes as int),
            crate::visit::views(captures@) == sort_by_name(mapped.take(i as int)),
        decreases m.captures@.len() - i,
    {
        let c = &m.captures[i];
        let text = if opts.include_node_text { Some(cut_text(c.text.as_str(), opts.max_text_bytes)) } else { None };
        let range = Range { start: to_u32_pos(c.start.0, c.start.1), end: to_u32_pos(c.end.0, c.end.1) };
        let cap = Capture { name: c.name.clone(), kind: c.kind.clone(), range, text };
        assert(m@.1[i as int] == c@);
        assert(cap@ == mapped[i as int]);
        insert_capture(&mut captures, cap);
        assert(mapped.take(i + 1).drop_last() =~= mapped.take(i as int));
        i = i + 1;
    }
    assert(mapped.take(m.captures@.len() as int) =~= mapped);
    #[verifier::truncate]
    let index = m.pattern_index as u32;
    AstQueryMatch { pattern_index: Some(index), captures }
}

/// The matches to report for raw matches: the first `max_results`, each with its
/// captures' texts cut to `max_text_bytes` (when node text is asked for) and its
/// captures in stable order by name; `None` when a text would have to be cut inside a
/// character.
pub fn finish_query(raw: Vec<RawQueryMatch>, opts: QueryOptions) -> (r: Option<Vec<AstQueryMatch>>)
    ensures
        match r {
            Some(v) => texts_cuttable(crate::visit::views(raw@), opts)
                && crate::visit::views(v@) == matches_of(crate::visit::views(raw@), opts),
            None => !texts_cuttable(crate::visit::views(raw@), opts),
        },
{
    let ghost raw0 = raw@;
    let ghost rv = crate::visit::views(raw0);
    let mut out: Vec<AstQueryMatch> = Vec::new();
    let mut i: usize = 0;
    let n = raw.len();
    let limit = if n <= opts.max_results { n } else { opts.max_results };
    let ghost kept = if raw0.len() <= opts.max_results { raw0 } else { raw0.take(opts.max_results as int) };
    assert(kept.len() == limit);
    // Check every reported text first, so that nothing is cut inside a character.
    if opts.include_node_text {
        let mut a: usize = 0;
        while a < limit
            invariant
                raw@ == raw0,
                rv == crate::visit::views(raw0),
                limit <= raw0.len(),
                limit <= opts.max_results,
                a <= limit,
                opts.include_node_text,
                forall|x: int, y: int| 0 <= x < a && 0 <= y < raw0[x].captures@.len()
                    ==> cuttable_at(#[trigger] raw0[x].captures@[y].text@, opts.max_text_bytes as int),
            decreases limit - a,
        {
            let cs = &raw[a].captures;
            let mut b: usize = 0;
            while b < cs.len()
                invariant
                    raw@ == raw0,
                    rv == crate::visit::views(raw0),
                    a < limit,
                    limit <= raw0.len(),
                    limit <= opts.max_results,
                    opts.include_node_text,
                    forall|x: int, y: int| 0 <= x < a && 0 <= y < raw0[x].captures@.len()
                        ==> cuttable_at(#[trigger] raw0[x].captures@[y].text@, opts.max_text_bytes as int),
                    b <= cs@.len(),
                    cs@ == raw0[a as int].captures@,
                    forall|y: int| 0 <= y < b ==> cuttable_at(#[trigger] cs@[y].text@, opts.max_text_bytes as int),
                decreases cs@.len() - b,
            {
                let t = cs[b].text.as_str();
                if !(t.as_bytes().len() <= opts.max_text_bytes || t.is_char_boundary(opts.max_text_bytes)) {
                    assert(!cuttable_at(raw0[a as int].captures@[b as int].text@, opts.max_text_bytes as int));
                    assert(rv[a as int] == raw0[a as int]@);
                    assert(rv[a as int].1[b as int] == raw0[a as int].captures@[b as int]@);
                    assert(rv.len() == raw0.len());
                    assert(rv[a as int].1.len() == raw0[a as int].captures@.len());
                    assert(!cuttable_at(rv[a as int].1[b as int].4, opts.max_text_bytes as int));
                    assert(!texts_cuttable(rv, opts));
                    return None;
                }
                b = b + 1;
            }
            a = a + 1;
        }
    }
    assert(texts_cuttable(rv, opts)) by {
        if opts.include_node_text {
            assert forall|x: int, y: int| 0 <= x < rv.len() && x < opts.max_results && 0 <= y < rv[x].1.len()
                implies cuttable_at(#[trigger] rv[x].1[y].4, opts.max_text_bytes as int) by {
                assert(rv[x] == raw0[x]@);
                assert(rv[x].1[y] == raw0[x].captures@[y]@);
            }
        }
    }
    while i < limit
        invariant
            i <= limit,
            limit == kept.len(),
            limit <= raw@.len(),
            limit <= opts.max_results,
            raw@ == raw0,
            opts.include_node_text ==> forall|x: int, y: int| 0 <= x < limit && 0 <= y < raw0[x].captures@.len()
                ==> cuttable_at(#[trigger] raw0[x].captures@[y].text@, opts.max_text_bytes as int),
            kept == (if raw0.len() <= opts.max_results { raw0 } else { raw0.take(opts.max_results as int) }),
            crate::visit::views(out@) == kept.take(i as int).map_values(|m: RawQueryMatch| match_of(m@, opts)),
        decreases limit - i,
    {
        let m = &raw[i];
        assert(*m == kept[i as int]);
        proof {
            if opts.include_node_text {
                assert forall|j: int| 0 <= j < m.captures@.len() implies cuttable_at(#[trigger] m.captures@[j].text@, opts.max_text_bytes as int) by {
                    assert(raw0[i as int] == *m);
                }
            }
        }
        let fm = finish_match(m, opts);
        let ghost before = crate::visit::views(out@);
        out.push(fm);
        assert(crate::visit::views(out@) =~= before.push(fm@));
        assert(kept.take(i + 1).map_values(|m: RawQueryMatch| match_of(m@, opts))
            =~= kept.take(i as int).map_values(|m: RawQueryMatch| match_of(m@, opts)).push(match_of(kept[i as int]@, opts)));
        i = i + 1;
    }
    assert(kept.take(limit as int) =~= kept);
    assert(matches_of(rv, opts) =~= kept.map_values(|m: RawQueryMatch| match_of(m@, opts)));
    Some(out)
}

/// `tree_sitter::QueryCursor::matches` run over the whole tree with the source text: for
/// each match, in the order the cursor yields them, its pattern index and, for each of its
/// captures, the capture's name (looked up in `Query::capture_names`), the node's kind, its
/// start and end (row, column), and its text: the source between the node's byte offsets,
/// empty where those are not character boundaries of the source (what `Node::utf8_text`
/// gives on the tree's own source, without its panic on a shorter one). The result is
/// named, not stated: it depends on the query, the tree and the source alone.
#[verifier::external_body]
fn ts_query_matches(query: &tree_sitter::Query, tree: &tree_sitter::Tree, source: &str) -> (r: Vec<RawQueryMatch>)
    ensures
        crate::visit::views(r@) == query_engine_matches(*query, *tree, source@),
{
    let mut cursor = QueryCursor::new();
    let mut it = cursor.matches(query, tree.root_node(), source.as_bytes());
    let mut found = vec![];
    while let Some(m) = it.next() {
        found.push(RawQueryMatch { pattern_index: m.pattern_index, captures: m.captures().iter().map(|c| RawCapture {
            name: query.capture_names()[c.index as usize].to_string(),
            kind: c.node.kind().to_string(),
            start: (c.node.start_position().row, c.node.start_position().column),
            end: (c.node.end_position().row, c.node.end_position().column),
            text: source.get(c.node.byte_range()).unwrap_or_default().to_string()
        }).collect() })
    }
    found
}

/// Run a query over a tree: the matches the query engine yields, the first
/// `max_results` of them, reported as `finish_query` reports them; `None` when a capture
/// text would have to be cut inside a character.
pub fn run_query(query: &tree_sitter::Query, tree: &tree_sitter::Tree, source: &str, opts: QueryOptions) -> (r: Option<Vec<AstQueryMatch>>)
    ensures
        ({
            let m = query_engine_matches(*query, *tree, source@);
            match r {
                Some(v) => texts_cuttable(m, opts) && crate::visit::views(v@) == matches_of(m, opts),
                None => !texts_cuttable(m, opts),
            }
        }),
{
    finish_query(ts_query_matches(query, tree, source), opts)
}

} // verus!
