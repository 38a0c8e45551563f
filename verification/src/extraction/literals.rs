//! Literals (string, number, boolean, null, regex) in a file.
use vstd::prelude::*;
use vstd::string::*;

use super::calls::{enclosing_scope_of, find_enclosing_scope};
use crate::shared::{LiteralMatch, LiteralView, literal_view, opt_scope_view, opt_text};
use crate::syntax::{
    SyntaxNode, SyntaxTree, cap, child_count_of, every_node, lemma_cap_full, lemma_cap_step,
    lemma_walk_children_step, node_range, node_range_spec, opt_seq, slice_source, source_slice,
    tree_wf, walk, walk_children,
};
use crate::text::{chars_contain, chars_eq, chars_of, contains_seq, str_eq};

verus! {

/// The kind of literal to look for.
#[derive(Debug, Clone, Copy, PartialEq, Eq, Structural)]
pub enum LiteralKind {
    String,
    Number,
    Boolean,
    Null,
    Regex,
    Unknown,
}

/// Options of a literal search.
pub struct AstFindLiteralsInput {
    pub file_path: String,
    pub literal_kind: Option<LiteralKind>,
    pub contains: Option<String>,
    pub exact: Option<String>,
    pub include_enclosing_scope: bool,
    pub max_results: usize,
}

impl Default for AstFindLiteralsInput {
    fn default() -> (r: Self)
        ensures
            r.file_path@ == Seq::<char>::empty(),
            r.literal_kind is None,
            r.contains is None,
            r.exact is None,
            r.include_enclosing_scope,
            r.max_results == 200,
    {
        AstFindLiteralsInput {
            file_path: String::new(),
            literal_kind: None,
            contains: None,
            exact: None,
            include_enclosing_scope: true,
            max_results: 200,
        }
    }
}

/// The literal class code of a node kind: 0 string, 1 number, 2 boolean, 3 null,
/// 4 regex; `None` when the node is not a literal.
pub open spec fn class_code(k: Seq<char>) -> Option<u8> {
    if k == "string"@ || k == "string_literal"@ {
        Some(0u8)
    } else if k == "number"@ || k == "integer"@ || k == "float"@ {
        Some(1u8)
    } else if k == "true"@ || k == "false"@ {
        Some(2u8)
    } else if k == "null"@ || k == "none"@ || k == "nil"@ {
        Some(3u8)
    } else if k == "regex"@ || k == "regex_pattern"@ {
        Some(4u8)
    } else {
        None
    }
}

/// The name of a literal class code.
pub open spec fn class_name_of(c: u8) -> Seq<char> {
    if c == 0 { "string"@ } else if c == 1 { "number"@ } else if c == 2 { "boolean"@ } else if c == 3 { "null"@ } else { "regex"@ }
}

/// The literal class of a node kind and the raw text reported for it, or `None` when the
/// node is not a literal. Booleans and nulls report their kind as raw text.
pub open spec fn literal_class(k: Seq<char>, text: Seq<char>) -> Option<(Seq<char>, Seq<char>)> {
    match class_code(k) {
        None => None,
        Some(c) => Some((class_name_of(c), if c == 2 || c == 3 { k } else { text })),
    }
}

/// The class name a requested literal kind stands for (`Unknown` accepts any class).
pub open spec fn expected_class(lk: LiteralKind, found: Seq<char>) -> Seq<char> {
    match lk {
        LiteralKind::String => "string"@,
        LiteralKind::Number => "number"@,
        LiteralKind::Boolean => "boolean"@,
        LiteralKind::Null => "null"@,
        LiteralKind::Regex => "regex"@,
        LiteralKind::Unknown => found,
    }
}

/// The text between the outer quotes of a string literal: its bytes without the first and
/// the last one (empty when those are not character boundaries).
pub open spec fn unquoted(raw: Seq<char>) -> Seq<u8> {
    let b = vstd::utf8::encode_utf8(raw);
    source_slice(b, 1, b.len() - 1)
}

/// The value text reported for a literal: for a string literal of at least two bytes, the
/// text without its quotes; otherwise none.
pub open spec fn value_of(class: Seq<char>, raw: Seq<char>) -> Option<Seq<char>> {
    if class == "string"@ && vstd::utf8::encode_utf8(raw).len() >= 2 {
        Some(vstd::utf8::decode_utf8(unquoted(raw)))
    } else {
        None
    }
}

/// The literal reported for node `i` under the given filters, if it is one and passes them.
pub open spec fn literal_match(t: Seq<SyntaxNode>, i: int, input: AstFindLiteralsInput) -> Option<LiteralView> {
    match literal_class(t[i].kind@, t[i].text@) {
        None => None,
        Some((class, raw)) => {
            let value = value_of(class, raw);
            let search = match value { Some(v) => v, None => raw };
            if input.literal_kind matches Some(lk) && class != expected_class(lk, class) {
                None
            } else if input.contains matches Some(sub) && !contains_seq(search, sub@) {
                None
            } else if input.exact matches Some(ex) && search != ex@ {
                None
            } else {
                Some((class, raw, value, node_range_spec(t[i]),
                    if input.include_enclosing_scope { enclosing_scope_of(t, i) } else { None }))
            }
        },
    }
}

/// What each node contributes to a literal search: the literal, if it is one and passes.
pub open spec fn literal_item(t: Seq<SyntaxNode>, input: AstFindLiteralsInput) -> spec_fn(int) -> Seq<LiteralView> {
    |n: int| opt_seq(literal_match(t, n, input))
}

/// The plain-value view of a list of literals.
pub open spec fn literals_view(v: Seq<LiteralMatch>) -> Seq<LiteralView> {
    v.map_values(|l: LiteralMatch| literal_view(l))
}

proof fn lemma_string_class(c: u8)
    ensures
        (class_name_of(c) == "string"@) == (c == 0),
{
    reveal_strlit("string");
    reveal_strlit("number");
    reveal_strlit("boolean");
    reveal_strlit("null");
    reveal_strlit("regex");
    if c != 0 {
        assert(class_name_of(c)[0] != "string"@[0]);
    }
}

fn literal_class_exec(kind: &str) -> (r: Option<u8>)
    ensures
        r == class_code(kind@),
{
    if str_eq(kind, "string") || str_eq(kind, "string_literal") {
        Some(0)
    } else if str_eq(kind, "number") || str_eq(kind, "integer") || str_eq(kind, "float") {
        Some(1)
    } else if str_eq(kind, "true") || str_eq(kind, "false") {
        Some(2)
    } else if str_eq(kind, "null") || str_eq(kind, "none") || str_eq(kind, "nil") {
        Some(3)
    } else if str_eq(kind, "regex") || str_eq(kind, "regex_pattern") {
        Some(4)
    } else {
        None
    }
}

fn class_name(c: u8) -> (r: &'static str)
    ensures
        r@ == class_name_of(c),
{
    if c == 0 { "string" } else if c == 1 { "number" } else if c == 2 { "boolean" } else if c == 3 { "null" } else { "regex" }
}

fn expected_name(lk: LiteralKind, found: &'static str) -> (r: &'static str)
    ensures
        r@ == expected_class(lk, found@),
{
    match lk {
        LiteralKind::String => "string",
        LiteralKind::Number => "number",
        LiteralKind::Boolean => "boolean",
        LiteralKind::Null => "null",
        LiteralKind::Regex => "regex",
        LiteralKind::Unknown => found,
    }
}

fn build_literal(t: &SyntaxTree, i: usize, input: &AstFindLiteralsInput) -> (r: Option<LiteralMatch>)
    requires
        i < t@.len(),
    ensures
        match r {
            Some(l) => literal_match(t@, i as int, *input) == Some(literal_view(l)),
            None => literal_match(t@, i as int, *input) is None,
        },
{
    broadcast use vstd::utf8::group_utf8_lib;
    let node = t.node(i);
    let cls = literal_class_exec(node.kind.as_str());
    let c = match cls {
        None => {
            return None;
        },
        Some(c) => c,
    };
    let kind = class_name(c);
    let raw_text: String = if c == 2 || c == 3 { node.kind.clone() } else { node.text.clone() };
    assert(literal_class(node.kind@, node.text@) == Some((kind@, raw_text@)));
    let raw_str = raw_text.as_str();
    let raw_bytes = raw_str.as_bytes();
    let raw_len = raw_bytes.len();
    assert(raw_str@ == raw_text@);
    assert(raw_bytes@ == raw_str.spec_bytes());
    let value_text: Option<String> = if c == 0 && raw_len >= 2 {
        Some(slice_source(raw_text.as_str(), 1, raw_len - 1))
    } else {
        None
    };
    proof {
        lemma_string_class(c);
        assert(raw_len == vstd::utf8::encode_utf8(raw_text@).len());
        assert((c == 0) == (kind@ == "string"@));
        if value_text is Some {
            vstd::utf8::encode_utf8_decode_utf8(value_text.unwrap()@);
        }
        assert(opt_text(value_text) == value_of(kind@, raw_text@));
    }
    if let Some(lk) = input.literal_kind {
        let expected = expected_name(lk, kind);
        if !str_eq(kind, expected) {
            return None;
        }
    }
    let search: &str = match &value_text {
        Some(v) => v.as_str(),
        None => raw_text.as_str(),
    };
    if let Some(sub) = &input.contains {
        let hay = chars_of(search);
        let needle = chars_of(sub.as_str());
        if !chars_contain(hay.as_slice(), needle.as_slice()) {
            return None;
        }
    }
    if let Some(ex) = &input.exact {
        if !str_eq(search, ex.as_str()) {
            return None;
        }
    }
    let enclosing_scope = if input.include_enclosing_scope { find_enclosing_scope(t, i) } else { None };
    Some(LiteralMatch {
        kind: kind.to_owned(),
        raw_text,
        value_text,
        range: node_range(node),
        enclosing_scope,
    })
}

fn collect_literals(t: &SyntaxTree, i: usize, out: &mut Vec<LiteralMatch>, input: &AstFindLiteralsInput, max: usize)
    requires
        i < t@.len(),
        old(out)@.len() <= max,
    ensures
        final(out)@.len() <= max,
        literals_view(final(out)@) == cap(literals_view(old(out)@) + walk(t@, i as int, literal_item(t@, *input), every_node()), max as int),
    decreases t@.len() - i,
{
    t.wf();
    let ghost item = literal_item(t@, *input);
    let ghost base = literals_view(out@);
    let ghost whole = walk(t@, i as int, item, every_node());
    if out.len() >= max {
        proof { lemma_cap_full(base, whole, max as int); }
        return;
    }
    let node = t.node(i);
    if let Some(lm) = build_literal(t, i, input) {
        out.push(lm);
    }
    assert(literals_view(out@) =~= cap(base + item(i as int), max as int));
    let n = node.children.len();
    let mut k: usize = 0;
    while k < n
        invariant
            tree_wf(t@),
            i < t@.len(),
            node == t@[i as int],
            n == child_count_of(t@, i as int),
            k <= n,
            item == literal_item(t@, *input),
            out@.len() <= max,
            literals_view(out@) == cap(base + (item(i as int) + walk_children(t@, i as int, k as int, item, every_node())), max as int),
        decreases n - k,
    {
        let c = node.children[k];
        proof { lemma_walk_children_step(t@, i as int, k as int, item, every_node()); }
        collect_literals(t, c, out, input, max);
        proof {
            lemma_cap_step(base, item(i as int) + walk_children(t@, i as int, k as int, item, every_node()),
                walk(t@, c as int, item, every_node()), max as int);
            assert(item(i as int) + walk_children(t@, i as int, k as int, item, every_node())
                + walk(t@, c as int, item, every_node())
                =~= item(i as int) + walk_children(t@, i as int, k + 1, item, every_node()));
        }
        k = k + 1;
    }
}

/// Find the literals of a file in pre-order, up to `max_results`; the flag reports whether
/// the limit was reached.
pub fn find_literals(t: &SyntaxTree, input: &AstFindLiteralsInput) -> (r: (Vec<LiteralMatch>, bool))
    ensures
        literals_view(r.0@) == cap(walk(t@, 0, literal_item(t@, *input), every_node()), input.max_results as int),
        r.1 == (r.0@.len() >= input.max_results),
{
    t.wf();
    let mut out: Vec<LiteralMatch> = Vec::new();
    assert(literals_view(out@) =~= Seq::<LiteralView>::empty());
    collect_literals(t, 0, &mut out, input, input.max_results);
    assert(Seq::<LiteralView>::empty() + walk(t@, 0, literal_item(t@, *input), every_node())
        =~= walk(t@, 0, literal_item(t@, *input), every_node()));
    let truncated = out.len() >= input.max_results;
    (out, truncated)
}

} // verus!
