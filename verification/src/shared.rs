use vstd::prelude::*;

verus! {

/// A zero-based line/character position in a source file.
#[derive(Debug, Clone, Copy, PartialEq, Eq, Structural)]
pub struct Position {
    pub line: u32,
    pub character: u32,
}

/// A half-open source range between two positions.
#[derive(Debug, Clone, Copy, PartialEq, Eq, Structural)]
pub struct Range {
    pub start: Position,
    pub end: Position,
}

/// The all-zero range, used for blocks that do not map to a source span.
pub fn zero_range() -> (r: Range)
    ensures
        r.start.line == 0 && r.start.character == 0,
        r.end.line == 0 && r.end.character == 0,
{
    Range { start: Position { line: 0, character: 0 }, end: Position { line: 0, character: 0 } }
}


/// The text of an optional string.
pub open spec fn opt_text(o: Option<String>) -> Option<Seq<char>> {
    match o {
        Some(s) => Some(s@),
        None => None,
    }
}

/// The texts of a list of strings.
pub open spec fn texts(v: Seq<String>) -> Seq<Seq<char>> {
    v.map_values(|s: String| s@)
}

/// The kind of a lexical scope.
#[derive(Debug, Clone, Copy, PartialEq, Eq, Structural)]
pub enum ScopeKind {
    Module,
    Class,
    Interface,
    Function,
    Method,
    Constructor,
    ArrowFunction,
    Lambda,
    Block,
}

/// A lexical scope enclosing some position.
#[derive(Debug)]
pub struct ScopeSummary {
    pub kind: ScopeKind,
    pub name: Option<String>,
    pub node_kind: String,
    pub range: Range,
    pub selection_range: Option<Range>,
}

/// A scope as plain values: (kind, name, node kind, range, selection range).
pub type ScopeView = (ScopeKind, Option<Seq<char>>, Seq<char>, Range, Option<Range>);

/// The plain-value view of a scope.
pub open spec fn scope_view(s: ScopeSummary) -> ScopeView {
    (s.kind, opt_text(s.name), s.node_kind@, s.range, s.selection_range)
}

/// The plain-value view of an optional scope.
pub open spec fn opt_scope_view(s: Option<ScopeSummary>) -> Option<ScopeView> {
    match s {
        Some(s) => Some(scope_view(s)),
        None => None,
    }
}

/// The plain-value view of a list of scopes.
pub open spec fn scopes_view(v: Seq<ScopeSummary>) -> Seq<ScopeView> {
    v.map_values(|s: ScopeSummary| scope_view(s))
}

/// A call expression found in a file.
#[derive(Debug)]
pub struct CallExpression {
    pub callee_text: String,
    pub arguments_text: Vec<String>,
    pub range: Range,
    pub enclosing_scope: Option<ScopeSummary>,
}

/// A call as plain values: (callee, arguments, range, enclosing scope).
pub type CallView = (Seq<char>, Seq<Seq<char>>, Range, Option<ScopeView>);

/// The plain-value view of a call.
pub open spec fn call_view(c: CallExpression) -> CallView {
    (c.callee_text@, texts(c.arguments_text@), c.range, opt_scope_view(c.enclosing_scope))
}

/// A literal found in a file.
#[derive(Debug)]
pub struct LiteralMatch {
    pub kind: String,
    pub raw_text: String,
    pub value_text: Option<String>,
    pub range: Range,
    pub enclosing_scope: Option<ScopeSummary>,
}

/// A literal as plain values: (kind, raw text, value text, range, enclosing scope).
pub type LiteralView = (Seq<char>, Seq<char>, Option<Seq<char>>, Range, Option<ScopeView>);

/// The plain-value view of a literal.
pub open spec fn literal_view(l: LiteralMatch) -> LiteralView {
    (l.kind@, l.raw_text@, opt_text(l.value_text), l.range, opt_scope_view(l.enclosing_scope))
}

/// A member access found in a file.
#[derive(Debug)]
pub struct MemberAccess {
    pub object_text: String,
    pub property: String,
    pub full_text: String,
    pub range: Range,
    pub enclosing_scope: Option<ScopeSummary>,
}

/// A member access as plain values: (object, property, full text, range, enclosing scope).
pub type MemberView = (Seq<char>, Seq<char>, Seq<char>, Range, Option<ScopeView>);

/// The plain-value view of a member access.
pub open spec fn member_view(m: MemberAccess) -> MemberView {
    (m.object_text@, m.property@, m.full_text@, m.range, opt_scope_view(m.enclosing_scope))
}

/// A template literal found in a file.
#[derive(Debug)]
pub struct TemplateLiteralMatch {
    pub tag: Option<String>,
    pub raw_text: String,
    pub range: Range,
    pub interpolation_count: usize,
    pub enclosing_scope: Option<ScopeSummary>,
}

/// A template literal as plain values: (tag, raw text, range, interpolations, enclosing scope).
pub type TemplateView = (Option<Seq<char>>, Seq<char>, Range, nat, Option<ScopeView>);

/// The plain-value view of a template literal.
pub open spec fn template_view(m: TemplateLiteralMatch) -> TemplateView {
    (opt_text(m.tag), m.raw_text@, m.range, m.interpolation_count as nat, opt_scope_view(m.enclosing_scope))
}

/// A language the analysis tools parse.
#[derive(Debug, Clone, Copy, PartialEq, Eq, Structural)]
pub enum LanguageId {
    TypeScript,
    TypeScriptReact,
    JavaScript,
    JavaScriptReact,
    Python,
    Go,
    Rust,
}

/// The identifier a language is reported under.
pub open spec fn language_name(l: LanguageId) -> Seq<char> {
    match l {
        LanguageId::TypeScript => "typescript"@,
        LanguageId::TypeScriptReact => "typescriptreact"@,
        LanguageId::JavaScript => "javascript"@,
        LanguageId::JavaScriptReact => "javascriptreact"@,
        LanguageId::Python => "python"@,
        LanguageId::Go => "go"@,
        LanguageId::Rust => "rust"@,
    }
}

/// Whether a language is TypeScript or JavaScript (with or without JSX).
pub open spec fn is_ts_js(l: LanguageId) -> bool {
    l == LanguageId::TypeScript || l == LanguageId::TypeScriptReact || l == LanguageId::JavaScript
        || l == LanguageId::JavaScriptReact
}

impl LanguageId {
    /// The identifier the language is reported under.
    pub fn as_str(&self) -> (r: &'static str)
        ensures
            r@ == language_name(*self),
    {
        match self {
            LanguageId::TypeScript => "typescript",
            LanguageId::TypeScriptReact => "typescriptreact",
            LanguageId::JavaScript => "javascript",
            LanguageId::JavaScriptReact => "javascriptreact",
            LanguageId::Python => "python",
            LanguageId::Go => "go",
            LanguageId::Rust => "rust",
        }
    }
}

/// The extension of the last component of a path, as `Path::extension` finds it: the
/// text after the last `.` of the file name, unless the name has no `.` other than a
/// leading one.
pub open spec fn path_extension(path: Seq<char>) -> Option<Seq<char>> {
    let name = file_name_of(path);
    match last_dot(name) {
        Some(i) => if i > 0 { Some(name.subrange(i + 1, name.len() as int)) } else { None },
        None => None,
    }
}

/// The last component of a path: the text after its last `/` (trailing slashes and `.`
/// components aside, which the extractors never meet).
pub open spec fn file_name_of(path: Seq<char>) -> Seq<char> {
    match last_index_of(path, '/') {
        Some(i) => path.subrange(i + 1, path.len() as int),
        None => path,
    }
}

/// The index of the last `.` in a name.
pub open spec fn last_dot(name: Seq<char>) -> Option<int> {
    last_index_of(name, '.')
}

/// The index of the last occurrence of `c` in `s`.
pub open spec fn last_index_of(s: Seq<char>, c: char) -> Option<int>
    decreases s.len(),
{
    if s.len() == 0 {
        None
    } else if s.last() == c {
        Some(s.len() - 1)
    } else {
        last_index_of(s.drop_last(), c)
    }
}

/// The language registered for a file extension.
pub open spec fn language_for_extension(ext: Seq<char>) -> Option<LanguageId> {
    if ext == "ts"@ || ext == "mts"@ || ext == "cts"@ {
        Some(LanguageId::TypeScript)
    } else if ext == "tsx"@ {
        Some(LanguageId::TypeScriptReact)
    } else if ext == "js"@ || ext == "mjs"@ || ext == "cjs"@ {
        Some(LanguageId::JavaScript)
    } else if ext == "jsx"@ {
        Some(LanguageId::JavaScriptReact)
    } else if ext == "py"@ || ext == "pyi"@ {
        Some(LanguageId::Python)
    } else if ext == "go"@ {
        Some(LanguageId::Go)
    } else if ext == "rs"@ {
        Some(LanguageId::Rust)
    } else {
        None
    }
}

fn last_index(s: &[char], c: char) -> (r: Option<usize>)
    ensures
        match r {
            Some(i) => last_index_of(s@, c) == Some(i as int) && i < s@.len(),
            None => last_index_of(s@, c) is None,
        },
{
    let mut k: usize = s.len();
    assert(s@.take(k as int) =~= s@);
    while k > 0
        invariant
            k <= s@.len(),
            last_index_of(s@, c) == last_index_of(s@.take(k as int), c),
        decreases k,
    {
        assert(s@.take(k as int).drop_last() =~= s@.take(k - 1));
        if s[k - 1] == c {
            return Some(k - 1);
        }
        k = k - 1;
    }
    None
}

/// The language of a file, from its extension.
pub fn extension_to_language(path: &str) -> (r: Option<LanguageId>)
    ensures
        r == (match path_extension(path@) { Some(e) => language_for_extension(e), None => None }),
{
    let chars = crate::text::chars_of(path);
    assert(chars@ =~= path@.take(chars@.len() as int));
    let n = chars.len();
    let start = match last_index(chars.as_slice(), '/') {
        Some(i) => {
            assert(i < n);
            i + 1
        },
        None => 0,
    };
    let name = crate::text::string_from_char_range(chars.as_slice(), start, n);
    let name_chars = crate::text::chars_of(name.as_str());
    assert(name_chars@ == file_name_of(path@)) by {
        assert(path@.subrange(0, n as int) =~= path@);
    }
    let ext = match last_index(name_chars.as_slice(), '.') {
        Some(i) => {
            if i > 0 {
                let m = name_chars.len();
                assert(i < m);
                crate::text::string_from_char_range(name_chars.as_slice(), i + 1, m)
            } else {
                return None;
            }
        },
        None => {
            return None;
        },
    };
    let e = ext.as_str();
    if crate::text::str_eq(e, "ts") || crate::text::str_eq(e, "mts") || crate::text::str_eq(e, "cts") {
        Some(LanguageId::TypeScript)
    } else if crate::text::str_eq(e, "tsx") {
        Some(LanguageId::TypeScriptReact)
    } else if crate::text::str_eq(e, "js") || crate::text::str_eq(e, "mjs") || crate::text::str_eq(e, "cjs") {
        Some(LanguageId::JavaScript)
    } else if crate::text::str_eq(e, "jsx") {
        Some(LanguageId::JavaScriptReact)
    } else if crate::text::str_eq(e, "py") || crate::text::str_eq(e, "pyi") {
        Some(LanguageId::Python)
    } else if crate::text::str_eq(e, "go") {
        Some(LanguageId::Go)
    } else if crate::text::str_eq(e, "rs") {
        Some(LanguageId::Rust)
    } else {
        None
    }
}

/// How a node is chosen for a source range.
#[derive(Debug, Clone, Copy, PartialEq, Eq, Structural)]
pub enum NodeAtRangeMode {
    /// The node whose byte range equals the target.
    Exact,
    /// The deepest node whose byte range contains the target.
    SmallestContaining,
    /// The largest node inside the target.
    LargestContained,
}

impl NodeAtRangeMode {
    /// The mode's name as the tool reports it.
    pub fn as_str(&self) -> (r: &'static str)
        ensures
            r@ == mode_name(*self),
    {
        match self {
            NodeAtRangeMode::Exact => "exact",
            NodeAtRangeMode::SmallestContaining => "smallest_containing",
            NodeAtRangeMode::LargestContained => "largest_contained",
        }
    }
}

/// The reported name of a node-at-range mode.
pub open spec fn mode_name(m: NodeAtRangeMode) -> Seq<char> {
    match m {
        NodeAtRangeMode::Exact => "exact"@,
        NodeAtRangeMode::SmallestContaining => "smallest_containing"@,
        NodeAtRangeMode::LargestContained => "largest_contained"@,
    }
}

/// A summary of one syntax node.
#[derive(Debug)]
pub struct AstNodeSummary {
    pub id: Option<String>,
    pub kind: String,
    pub name: Option<String>,
    pub range: Range,
    pub byte_range: Option<(usize, usize)>,
    pub text: Option<String>,
    pub children: Option<Vec<AstNodeSummary>>,
}

/// A node summary as plain values: (kind, name, range, byte range, text); `id` and
/// `children` are always `None` in summaries built here.
pub type SummaryView = (Seq<char>, Option<Seq<char>>, Range, Option<(usize, usize)>, Option<Seq<char>>);

/// The plain-value view of a node summary.
pub open spec fn summary_view(s: AstNodeSummary) -> SummaryView {
    (s.kind@, opt_text(s.name), s.range, s.byte_range, opt_text(s.text))
}

/// A block of context text.
#[derive(Debug)]
pub struct ContextBlock {
    pub label: String,
    pub kind: String,
    pub file_path: String,
    pub range: Range,
    pub text: String,
    pub truncated: bool,
}

/// A context block as plain values: (label, kind, file path, range, text, truncated).
pub type BlockView = (Seq<char>, Seq<char>, Seq<char>, Range, Seq<char>, bool);

/// The plain-value view of a context block.
pub open spec fn block_view(b: ContextBlock) -> BlockView {
    (b.label@, b.kind@, b.file_path@, b.range, b.text@, b.truncated)
}

/// The plain-value view of a list of context blocks.
pub open spec fn blocks_view(v: Seq<ContextBlock>) -> Seq<BlockView> {
    v.map_values(|b: ContextBlock| block_view(b))
}

} // verus!
