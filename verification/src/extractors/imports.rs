//! Import statements, `require` calls and dynamic imports in TypeScript/JavaScript and
//! Python syntax trees.
use vstd::prelude::*;

use super::{trimmed_node_text, trimmed_text};
use crate::config::defaults::{MAX_RESULTS, MAX_TEXT_BYTES};
use crate::shared::{LanguageId, Range, is_ts_js, opt_text};
use crate::syntax::{
    SyntaxNode, SyntaxTree, cap, child_by_field, child_count_of, child_of, field_child, has_kind,
    kind_is, lemma_cap_full, lemma_cap_step, lemma_walk_children_step, lemma_walk_unfold,
    node_range, node_range_spec, opt_seq, tree_wf, walk, walk_children,
};
use crate::text::{CharSet, chars_of, string_bytes, string_from_char_range, trim_set, trim_bounds};

verus! {

/// An import found in a file.
#[derive(Debug)]
pub struct AstImport {
    pub kind: ImportKind,
    pub module_source: Option<String>,
    pub names: Vec<Alias>,
    pub range: Range,
    pub is_type_only: bool,
    pub source_text: Option<String>,
}

/// How something is imported.
#[derive(Debug, Clone, Copy, PartialEq, Eq, Structural)]
pub enum ImportKind {
    Import,
    FromImport,
    Require,
    DynamicImport,
    Unknown,
}

/// An imported name and the local name it is bound to.
#[derive(Debug)]
pub struct Alias {
    pub imported: String,
    pub local: String,
}

/// An alias as plain values: (imported, local).
pub type AliasView = (Seq<char>, Seq<char>);

/// An import as plain values; its source text is given by its UTF-8 bytes.
pub struct ImportView {
    pub kind: ImportKind,
    pub module_source: Option<Seq<char>>,
    pub names: Seq<AliasView>,
    pub range: Range,
    pub is_type_only: bool,
    pub source_bytes: Option<Seq<u8>>,
}

/// The plain-value view of an alias.
pub open spec fn alias_view(a: Alias) -> AliasView {
    (a.imported@, a.local@)
}

/// The plain-value view of a list of aliases.
pub open spec fn aliases_view(v: Seq<Alias>) -> Seq<AliasView> {
    v.map_values(|a: Alias| alias_view(a))
}

/// The plain-value view of an import.
pub open spec fn import_view(i: AstImport) -> ImportView {
    ImportView {
        kind: i.kind,
        module_source: opt_text(i.module_source),
        names: aliases_view(i.names@),
        range: i.range,
        is_type_only: i.is_type_only,
        source_bytes: match i.source_text { Some(s) => Some(string_bytes(s@)), None => None },
    }
}

/// The plain-value view of a list of imports.
pub open spec fn imports_view(v: Seq<AstImport>) -> Seq<ImportView> {
    v.map_values(|i: AstImport| import_view(i))
}

// ---------------------------------------------------------------------------
// Quotes
// ---------------------------------------------------------------------------

/// Whether `c` is a quote character that can delimit a module path.
pub open spec fn is_quote(c: char) -> bool {
    c == '"' || c == '\'' || c == '`'
}

/// A string literal's text without surrounding whitespace and, when it starts and ends
/// with the same quote character, without those quotes.
pub open spec fn strip_quotes(raw: Seq<char>) -> Seq<char> {
    let s = trim_set(raw, CharSet::Whitespace);
    if s.len() >= 2 && is_quote(s[0]) && s.last() == s[0] {
        s.subrange(1, s.len() - 1)
    } else {
        s
    }
}

/// Strip the whitespace and the quotes around a string literal.
pub fn strip_quotes_text(raw: &str) -> (r: String)
    ensures
        r@ == strip_quotes(raw@),
{
    let chars = chars_of(raw);
    let (a, b) = trim_bounds(chars.as_slice(), CharSet::Whitespace);
    let ghost s = trim_set(raw@, CharSet::Whitespace);
    assert(chars@.subrange(a as int, b as int) == s);
    if b - a >= 2 {
        let first = chars[a];
        let last = chars[b - 1];
        assert(first == s[0] && last == s.last());
        if (first == '"' || first == '\'' || first == '`') && last == first {
            let r = string_from_char_range(chars.as_slice(), a + 1, b - 1);
            assert(r@ =~= s.subrange(1, s.len() - 1));
            return r;
        }
    }
    string_from_char_range(chars.as_slice(), a, b)
}

// ---------------------------------------------------------------------------
// TS/JS import statements
// ---------------------------------------------------------------------------

/// The state of reading an import specifier: imported name, local name, and whether `as`
/// has been seen.
pub type SpecifierState = (Seq<char>, Seq<char>, bool);

/// Reading the first `k` children of import specifier `s`: an identifier sets both names
/// before `as` and only the local name after it.
pub open spec fn specifier_upto(t: Seq<SyntaxNode>, s: int, k: int) -> SpecifierState
    decreases k,
{
    if k <= 0 {
        (Seq::empty(), Seq::empty(), false)
    } else {
        let st = specifier_upto(t, s, k - 1);
        let x = child_of(t, s, k - 1);
        if kind_is(t, x, "identifier"@) {
            if st.2 { (st.0, t[x].text@, true) } else { (t[x].text@, t[x].text@, false) }
        } else if kind_is(t, x, "as"@) {
            (st.0, st.1, true)
        } else {
            st
        }
    }
}

/// The alias an import specifier gives, when it names something.
pub open spec fn specifier_alias(t: Seq<SyntaxNode>, s: int) -> Seq<AliasView> {
    let st = specifier_upto(t, s, child_count_of(t, s));
    if st.0.len() > 0 { seq![(st.0, st.1)] } else { Seq::empty() }
}

/// The aliases of the import specifiers among the first `k` children of `named_imports`
/// node `n`.
pub open spec fn named_imports_upto(t: Seq<SyntaxNode>, n: int, k: int) -> Seq<AliasView>
    decreases k,
{
    if k <= 0 {
        Seq::empty()
    } else {
        let x = child_of(t, n, k - 1);
        named_imports_upto(t, n, k - 1) + (if kind_is(t, x, "import_specifier"@) { specifier_alias(t, x) } else { Seq::empty() })
    }
}

/// The alias of a namespace import: `*` bound to its first identifier.
pub open spec fn namespace_alias(t: Seq<SyntaxNode>, n: int) -> Seq<AliasView> {
    match crate::syntax::kind_child_from(t, n, 0, seq!["identifier"]) {
        Some(x) => seq![("*"@, t[x].text@)],
        None => Seq::empty(),
    }
}

/// The aliases from the first `k` children of import clause `c`.
pub open spec fn clause_upto(t: Seq<SyntaxNode>, c: int, k: int) -> Seq<AliasView>
    decreases k,
{
    if k <= 0 {
        Seq::empty()
    } else {
        let x = child_of(t, c, k - 1);
        clause_upto(t, c, k - 1) + (if kind_is(t, x, "identifier"@) {
            seq![(t[x].text@, t[x].text@)]
        } else if kind_is(t, x, "named_imports"@) {
            named_imports_upto(t, x, child_count_of(t, x))
        } else if kind_is(t, x, "namespace_import"@) {
            namespace_alias(t, x)
        } else {
            Seq::empty()
        })
    }
}

/// The module path a `from` clause `f` names: its last string child, unquoted.
pub open spec fn from_clause_path(t: Seq<SyntaxNode>, f: int, k: int, path: Option<Seq<char>>) -> Option<Seq<char>>
    decreases k,
{
    if k <= 0 {
        path
    } else {
        let x = child_of(t, f, k - 1);
        let prev = from_clause_path(t, f, k - 1, path);
        if kind_is(t, x, "string"@) { Some(strip_quotes(t[x].text@)) } else { prev }
    }
}

/// The state of reading an import statement: module path, names, type-only flag.
pub type StatementState = (Option<Seq<char>>, Seq<AliasView>, bool);

/// Reading the first `k` children of TS/JS import statement `n`.
pub open spec fn ts_statement_upto(t: Seq<SyntaxNode>, n: int, k: int) -> StatementState
    decreases k,
{
    if k <= 0 {
        (None, Seq::empty(), false)
    } else {
        let st = ts_statement_upto(t, n, k - 1);
        let x = child_of(t, n, k - 1);
        if kind_is(t, x, "type"@) {
            (st.0, st.1, true)
        } else if kind_is(t, x, "string"@) {
            (Some(strip_quotes(t[x].text@)), st.1, st.2)
        } else if kind_is(t, x, "import_clause"@) {
            (st.0, st.1 + clause_upto(t, x, child_count_of(t, x)), st.2)
        } else if kind_is(t, x, "from_clause"@) {
            (from_clause_path(t, x, child_count_of(t, x), st.0), st.1, st.2)
        } else {
            st
        }
    }
}

/// The import a TS/JS import statement `n` gives.
pub open spec fn ts_import_statement(t: Seq<SyntaxNode>, n: int) -> ImportView {
    let st = ts_statement_upto(t, n, child_count_of(t, n));
    ImportView {
        kind: ImportKind::Import,
        module_source: st.0,
        names: st.1,
        range: node_range_spec(t[n]),
        is_type_only: st.2,
        source_bytes: Some(trimmed_text(t, n, MAX_TEXT_BYTES as int)),
    }
}

/// The first string argument among the first children of argument list `a`, unquoted,
/// looking from position `k` on.
pub open spec fn first_string_from(t: Seq<SyntaxNode>, a: int, k: int) -> Option<Seq<char>>
    decreases child_count_of(t, a) - k,
{
    if 0 <= k < child_count_of(t, a) {
        let x = child_of(t, a, k);
        if kind_is(t, x, "string"@) { Some(strip_quotes(t[x].text@)) } else { first_string_from(t, a, k + 1) }
    } else {
        None
    }
}

/// The import a call `n` gives: `require(..)` and `import(..)` with an argument list.
pub open spec fn ts_call_import(t: Seq<SyntaxNode>, n: int) -> Option<ImportView> {
    match field_child(t, n, "function"@) {
        Some(f) => {
            let kind = if kind_is(t, f, "identifier"@) && t[f].text@ == "require"@ {
                Some(ImportKind::Require)
            } else if kind_is(t, f, "import"@) {
                Some(ImportKind::DynamicImport)
            } else {
                None
            };
            match kind {
                Some(k) => match field_child(t, n, "arguments"@) {
                    Some(a) => Some(ImportView {
                        kind: k,
                        module_source: first_string_from(t, a, 0),
                        names: Seq::empty(),
                        range: node_range_spec(t[n]),
                        is_type_only: false,
                        source_bytes: Some(trimmed_text(t, n, MAX_TEXT_BYTES as int)),
                    }),
                    None => None,
                },
                None => None,
            }
        },
        None => None,
    }
}

/// What TS/JS node `n` contributes to the import list.
pub open spec fn ts_import_item(t: Seq<SyntaxNode>) -> spec_fn(int) -> Seq<ImportView> {
    |n: int| if kind_is(t, n, "import_statement"@) {
        seq![ts_import_statement(t, n)]
    } else if kind_is(t, n, "call_expression"@) {
        opt_seq(ts_call_import(t, n))
    } else {
        Seq::empty()
    }
}

/// The TS/JS walk does not enter import statements.
pub open spec fn ts_import_descend(t: Seq<SyntaxNode>) -> spec_fn(int) -> bool {
    |n: int| !kind_is(t, n, "import_statement"@)
}

// ---------------------------------------------------------------------------
// Python
// ---------------------------------------------------------------------------

/// Reading the first `k` children of an `aliased_import` in an `import` statement:
/// (imported, local, past `as`).
pub open spec fn py_aliased_upto(t: Seq<SyntaxNode>, a: int, k: int, from_import: bool) -> SpecifierState
    decreases k,
{
    if k <= 0 {
        (Seq::empty(), Seq::empty(), false)
    } else {
        let st = py_aliased_upto(t, a, k - 1, from_import);
        let x = child_of(t, a, k - 1);
        let text = t[x].text@;
        if kind_is(t, x, "dotted_name"@) || (from_import && kind_is(t, x, "identifier"@)) {
            if st.2 { (st.0, text, true) } else { (text, st.1, false) }
        } else if kind_is(t, x, "identifier"@) {
            if st.2 { (st.0, text, true) } else { (text, text, false) }
        } else if kind_is(t, x, "as"@) {
            (st.0, st.1, true)
        } else {
            st
        }
    }
}

/// The alias of a Python `aliased_import`, each empty name filled from the other.
pub open spec fn py_aliased(t: Seq<SyntaxNode>, a: int, from_import: bool) -> AliasView {
    let st = py_aliased_upto(t, a, child_count_of(t, a), from_import);
    let imported = if st.0.len() == 0 { st.1 } else { st.0 };
    let local = if st.1.len() == 0 { imported } else { st.1 };
    (imported, local)
}

/// The aliases from the first `k` children of Python `import` statement `n`.
pub open spec fn py_import_names_upto(t: Seq<SyntaxNode>, n: int, k: int) -> Seq<AliasView>
    decreases k,
{
    if k <= 0 {
        Seq::empty()
    } else {
        let x = child_of(t, n, k - 1);
        py_import_names_upto(t, n, k - 1) + (if kind_is(t, x, "dotted_name"@) {
            seq![(t[x].text@, t[x].text@)]
        } else if kind_is(t, x, "aliased_import"@) {
            seq![py_aliased(t, x, false)]
        } else {
            Seq::empty()
        })
    }
}

/// Reading the first `k` children of Python `from` import `n`: (module path, names,
/// wildcard seen).
pub open spec fn py_from_upto(t: Seq<SyntaxNode>, n: int, k: int) -> StatementState
    decreases k,
{
    if k <= 0 {
        (None, Seq::empty(), false)
    } else {
        let st = py_from_upto(t, n, k - 1);
        let x = child_of(t, n, k - 1);
        if kind_is(t, x, "dotted_name"@) {
            if st.0 is None { (Some(t[x].text@), st.1, st.2) } else { (st.0, st.1.push((t[x].text@, t[x].text@)), st.2) }
        } else if kind_is(t, x, "aliased_import"@) {
            (st.0, st.1.push(py_aliased(t, x, true)), st.2)
        } else if kind_is(t, x, "wildcard_import"@) {
            (st.0, st.1, true)
        } else {
            st
        }
    }
}

/// The import a Python `import` statement `n` gives.
pub open spec fn py_import_statement(t: Seq<SyntaxNode>, n: int) -> ImportView {
    ImportView {
        kind: ImportKind::Import,
        module_source: None,
        names: py_import_names_upto(t, n, child_count_of(t, n)),
        range: node_range_spec(t[n]),
        is_type_only: false,
        source_bytes: Some(trimmed_text(t, n, MAX_TEXT_BYTES as int)),
    }
}

/// The import a Python `from` import `n` gives; a wildcard adds `*` as the last name.
pub open spec fn py_from_import(t: Seq<SyntaxNode>, n: int) -> ImportView {
    let st = py_from_upto(t, n, child_count_of(t, n));
    ImportView {
        kind: ImportKind::FromImport,
        module_source: st.0,
        names: if st.2 { st.1.push(("*"@, "*"@)) } else { st.1 },
        range: node_range_spec(t[n]),
        is_type_only: false,
        source_bytes: Some(trimmed_text(t, n, MAX_TEXT_BYTES as int)),
    }
}

/// What Python node `n` contributes to the import list.
pub open spec fn py_import_item(t: Seq<SyntaxNode>) -> spec_fn(int) -> Seq<ImportView> {
    |n: int| if kind_is(t, n, "import_statement"@) {
        seq![py_import_statement(t, n)]
    } else if kind_is(t, n, "import_from_statement"@) {
        seq![py_from_import(t, n)]
    } else {
        Seq::empty()
    }
}

/// The Python walk does not enter import statements.
pub open spec fn py_import_descend(t: Seq<SyntaxNode>) -> spec_fn(int) -> bool {
    |n: int| !kind_is(t, n, "import_statement"@) && !kind_is(t, n, "import_from_statement"@)
}

/// The imports of a file in the given language, in pre-order, before the result limit.
pub open spec fn all_imports(t: Seq<SyntaxNode>, lang: LanguageId) -> Seq<ImportView> {
    if is_ts_js(lang) {
        walk(t, 0, ts_import_item(t), ts_import_descend(t))
    } else if lang == LanguageId::Python {
        walk(t, 0, py_import_item(t), py_import_descend(t))
    } else {
        Seq::empty()
    }
}

// ---------------------------------------------------------------------------
// Executable parts
// ---------------------------------------------------------------------------

fn specifier_alias_exec(t: &SyntaxTree, s: usize, names: &mut Vec<Alias>)
    requires
        s < t@.len(),
    ensures
        aliases_view(final(names)@) == aliases_view(old(names)@) + specifier_alias(t@, s as int),
{
    t.wf();
    let node = t.node(s);
    let m = node.children.len();
    let mut imported = String::new();
    let mut local = String::new();
    let mut seen_alias = false;
    let mut k: usize = 0;
    assert((imported@, local@, seen_alias) == specifier_upto(t@, s as int, 0));
    while k < m
        invariant
            tree_wf(t@),
            s < t@.len(),
            node == t@[s as int],
            m == child_count_of(t@, s as int),
            k <= m,
            (imported@, local@, seen_alias) == specifier_upto(t@, s as int, k as int),
        decreases m - k,
    {
        let x = node.children[k];
        assert(x as int == child_of(t@, s as int, k as int));
        if has_kind(t, x, "identifier") {
            let text = t.node(x).text.clone();
            if seen_alias {
                local = text;
            } else {
                imported = text.clone();
                local = text;
            }
        } else if has_kind(t, x, "as") {
            seen_alias = true;
        }
        k = k + 1;
    }
    let ghost before = aliases_view(names@);
    if imported.as_str().as_bytes().len() > 0 {
        proof {
            if imported@.len() == 0 {
                assert(vstd::utf8::encode_utf8(imported@) =~= Seq::<u8>::empty());
            }
        }
        names.push(Alias { imported, local });
        assert(aliases_view(names@) =~= before + specifier_alias(t@, s as int));
    } else {
        proof {
            if imported@.len() > 0 {
                vstd::utf8::encode_utf8_first_scalar(imported@);
            }
        }
        assert(aliases_view(names@) =~= before + specifier_alias(t@, s as int));
    }
}

fn extract_named_imports(t: &SyntaxTree, n: usize, names: &mut Vec<Alias>)
    requires
        n < t@.len(),
    ensures
        aliases_view(final(names)@) == aliases_view(old(names)@) + named_imports_upto(t@, n as int, child_count_of(t@, n as int)),
{
    t.wf();
    let ghost base = aliases_view(names@);
    let node = t.node(n);
    let m = node.children.len();
    let mut k: usize = 0;
    assert(base + named_imports_upto(t@, n as int, 0) =~= base);
    while k < m
        invariant
            tree_wf(t@),
            n < t@.len(),
            node == t@[n as int],
            m == child_count_of(t@, n as int),
            k <= m,
            aliases_view(names@) == base + named_imports_upto(t@, n as int, k as int),
        decreases m - k,
    {
        let x = node.children[k];
        assert(x as int == child_of(t@, n as int, k as int));
        let ghost prev = named_imports_upto(t@, n as int, k as int);
        if has_kind(t, x, "import_specifier") {
            specifier_alias_exec(t, x, names);
        }
        assert(aliases_view(names@) =~= base + named_imports_upto(t@, n as int, k + 1));
        k = k + 1;
    }
}

fn extract_namespace_import(t: &SyntaxTree, n: usize, names: &mut Vec<Alias>)
    requires
        n < t@.len(),
    ensures
        aliases_view(final(names)@) == aliases_view(old(names)@) + namespace_alias(t@, n as int),
{
    let ghost before = aliases_view(names@);
    let ks: &[&str] = &["identifier"];
    assert(ks@ =~= seq!["identifier"]);
    if let Some(x) = crate::syntax::child_with_kind_in(t, n, ks) {
        names.push(Alias { imported: "*".to_owned(), local: t.node(x).text.clone() });
    }
    assert(aliases_view(names@) =~= before + namespace_alias(t@, n as int));
}

fn extract_ts_js_import_clause(t: &SyntaxTree, c: usize, names: &mut Vec<Alias>)
    requires
        c < t@.len(),
    ensures
        aliases_view(final(names)@) == aliases_view(old(names)@) + clause_upto(t@, c as int, child_count_of(t@, c as int)),
{
    t.wf();
    let ghost base = aliases_view(names@);
    let node = t.node(c);
    let m = node.children.len();
    let mut k: usize = 0;
    assert(base + clause_upto(t@, c as int, 0) =~= base);
    while k < m
        invariant
            tree_wf(t@),
            c < t@.len(),
            node == t@[c as int],
            m == child_count_of(t@, c as int),
            k <= m,
            aliases_view(names@) == base + clause_upto(t@, c as int, k as int),
        decreases m - k,
    {
        let x = node.children[k];
        assert(x as int == child_of(t@, c as int, k as int));
        let ghost prev = aliases_view(names@);
        if has_kind(t, x, "identifier") {
            let text = t.node(x).text.clone();
            names.push(Alias { imported: text.clone(), local: text });
            assert(aliases_view(names@) =~= prev.push((t@[x as int].text@, t@[x as int].text@)));
        } else if has_kind(t, x, "named_imports") {
            extract_named_imports(t, x, names);
        } else if has_kind(t, x, "namespace_import") {
            extract_namespace_import(t, x, names);
        }
        assert(aliases_view(names@) =~= base + clause_upto(t@, c as int, k + 1));
        k = k + 1;
    }
}

pub(crate) fn from_clause_exec(t: &SyntaxTree, f: usize, path: Option<String>) -> (r: Option<String>)
    requires
        f < t@.len(),
    ensures
        opt_text(r) == from_clause_path(t@, f as int, child_count_of(t@, f as int), opt_text(path)),
{
    t.wf();
    let ghost p0 = opt_text(path);
    let node = t.node(f);
    let m = node.children.len();
    let mut cur = path;
    let mut k: usize = 0;
    while k < m
        invariant
            tree_wf(t@),
            f < t@.len(),
            node == t@[f as int],
            m == child_count_of(t@, f as int),
            k <= m,
            opt_text(cur) == from_clause_path(t@, f as int, k as int, p0),
        decreases m - k,
    {
        let x = node.children[k];
        assert(x as int == child_of(t@, f as int, k as int));
        if has_kind(t, x, "string") {
            cur = Some(strip_quotes_text(t.node(x).text.as_str()));
        }
        k = k + 1;
    }
    cur
}

fn extract_ts_js_import_statement(t: &SyntaxTree, n: usize) -> (r: AstImport)
    requires
        n < t@.len(),
    ensures
        import_view(r) == ts_import_statement(t@, n as int),
{
    t.wf();
    let node = t.node(n);
    let m = node.children.len();
    let mut module_source: Option<String> = None;
    let mut names: Vec<Alias> = Vec::new();
    let mut is_type_only = false;
    let mut k: usize = 0;
    assert((opt_text(module_source), aliases_view(names@), is_type_only) == ts_statement_upto(t@, n as int, 0));
    while k < m
        invariant
            tree_wf(t@),
            n < t@.len(),
            node == t@[n as int],
            m == child_count_of(t@, n as int),
            k <= m,
            (opt_text(module_source), aliases_view(names@), is_type_only) == ts_statement_upto(t@, n as int, k as int),
        decreases m - k,
    {
        let x = node.children[k];
        assert(x as int == child_of(t@, n as int, k as int));
        if has_kind(t, x, "type") {
            is_type_only = true;
        } else if has_kind(t, x, "string") {
            module_source = Some(strip_quotes_text(t.node(x).text.as_str()));
        } else if has_kind(t, x, "import_clause") {
            extract_ts_js_import_clause(t, x, &mut names);
        } else if has_kind(t, x, "from_clause") {
            module_source = from_clause_exec(t, x, module_source);
        }
        k = k + 1;
    }
    AstImport {
        kind: ImportKind::Import,
        module_source,
        names,
        range: node_range(node),
        is_type_only,
        source_text: Some(trimmed_node_text(t, n, MAX_TEXT_BYTES)),
    }
}

pub(crate) fn first_string_arg(t: &SyntaxTree, a: usize) -> (r: Option<String>)
    requires
        a < t@.len(),
    ensures
        opt_text(r) == first_string_from(t@, a as int, 0),
{
    t.wf();
    let node = t.node(a);
    let m = node.children.len();
    let mut k: usize = 0;
    while k < m
        invariant
            tree_wf(t@),
            a < t@.len(),
            node == t@[a as int],
            m == child_count_of(t@, a as int),
            k <= m,
            first_string_from(t@, a as int, 0) == first_string_from(t@, a as int, k as int),
        decreases m - k,
    {
        let x = node.children[k];
        assert(x as int == child_of(t@, a as int, k as int));
        if has_kind(t, x, "string") {
            return Some(strip_quotes_text(t.node(x).text.as_str()));
        }
        k = k + 1;
    }
    None
}

fn extract_ts_js_call_import(t: &SyntaxTree, n: usize) -> (r: Option<AstImport>)
    requires
        n < t@.len(),
    ensures
        match r {
            Some(i) => ts_call_import(t@, n as int) == Some(import_view(i)),
            None => ts_call_import(t@, n as int) is None,
        },
{
    let f = match child_by_field(t, n, "function") {
        Some(f) => f,
        None => {
            return None;
        },
    };
    let is_require = has_kind(t, f, "identifier") && crate::text::str_eq(t.node(f).text.as_str(), "require");
    let kind = if is_require {
        ImportKind::Require
    } else if has_kind(t, f, "import") {
        ImportKind::DynamicImport
    } else {
        return None;
    };
    let a = match child_by_field(t, n, "arguments") {
        Some(a) => a,
        None => {
            return None;
        },
    };
    let names: Vec<Alias> = Vec::new();
    assert(aliases_view(names@) =~= Seq::<AliasView>::empty());
    Some(AstImport {
        kind,
        module_source: first_string_arg(t, a),
        names,
        range: node_range(t.node(n)),
        is_type_only: false,
        source_text: Some(trimmed_node_text(t, n, MAX_TEXT_BYTES)),
    })
}

fn py_aliased_exec(t: &SyntaxTree, a: usize, from_import: bool) -> (r: Alias)
    requires
        a < t@.len(),
    ensures
        alias_view(r) == py_aliased(t@, a as int, from_import),
{
    t.wf();
    let node = t.node(a);
    let m = node.children.len();
    let mut imported = String::new();
    let mut local = String::new();
    let mut past_as = false;
    let mut k: usize = 0;
    assert((imported@, local@, past_as) == py_aliased_upto(t@, a as int, 0, from_import));
    while k < m
        invariant
            tree_wf(t@),
            a < t@.len(),
            node == t@[a as int],
            m == child_count_of(t@, a as int),
            k <= m,
            (imported@, local@, past_as) == py_aliased_upto(t@, a as int, k as int, from_import),
        decreases m - k,
    {
        let x = node.children[k];
        assert(x as int == child_of(t@, a as int, k as int));
        let is_dotted = has_kind(t, x, "dotted_name");
        let is_ident = has_kind(t, x, "identifier");
        if is_dotted || (from_import && is_ident) {
            let text = t.node(x).text.clone();
            if past_as {
                local = text;
            } else {
                imported = text;
            }
        } else if is_ident {
            let text = t.node(x).text.clone();
            if past_as {
                local = text;
            } else {
                imported = text.clone();
                local = text;
            }
        } else if has_kind(t, x, "as") {
            past_as = true;
        }
        k = k + 1;
    }
    proof {
        if imported@.len() > 0 { vstd::utf8::encode_utf8_first_scalar(imported@); }
        if local@.len() > 0 { vstd::utf8::encode_utf8_first_scalar(local@); }
        if imported@.len() == 0 { assert(vstd::utf8::encode_utf8(imported@) =~= Seq::<u8>::empty()); }
        if local@.len() == 0 { assert(vstd::utf8::encode_utf8(local@) =~= Seq::<u8>::empty()); }
    }
    if imported.as_str().as_bytes().len() == 0 {
        imported = local.clone();
    }
    proof {
        if imported@.len() > 0 { vstd::utf8::encode_utf8_first_scalar(imported@); }
    }
    if local.as_str().as_bytes().len() == 0 {
        local = imported.clone();
    }
    Alias { imported, local }
}

fn extract_py_import_statement(t: &SyntaxTree, n: usize) -> (r: AstImport)
    requires
        n < t@.len(),
    ensures
        import_view(r) == py_import_statement(t@, n as int),
{
    t.wf();
    let node = t.node(n);
    let m = node.children.len();
    let mut names: Vec<Alias> = Vec::new();
    let mut k: usize = 0;
    assert(aliases_view(names@) =~= py_import_names_upto(t@, n as int, 0));
    while k < m
        invariant
            tree_wf(t@),
            n < t@.len(),
            node == t@[n as int],
            m == child_count_of(t@, n as int),
            k <= m,
            aliases_view(names@) == py_import_names_upto(t@, n as int, k as int),
        decreases m - k,
    {
        let x = node.children[k];
        assert(x as int == child_of(t@, n as int, k as int));
        let ghost prev = aliases_view(names@);
        if has_kind(t, x, "dotted_name") {
            let text = t.node(x).text.clone();
            names.push(Alias { imported: text.clone(), local: text });
        } else if has_kind(t, x, "aliased_import") {
            names.push(py_aliased_exec(t, x, false));
        }
        assert(aliases_view(names@) =~= py_import_names_upto(t@, n as int, k + 1));
        k = k + 1;
    }
    AstImport {
        kind: ImportKind::Import,
        module_source: None,
        names,
        range: node_range(node),
        is_type_only: false,
        source_text: Some(trimmed_node_text(t, n, MAX_TEXT_BYTES)),
    }
}

fn extract_py_import_from_statement(t: &SyntaxTree, n: usize) -> (r: AstImport)
    requires
        n < t@.len(),
    ensures
        import_view(r) == py_from_import(t@, n as int),
{
    t.wf();
    let node = t.node(n);
    let m = node.children.len();
    let mut module_source: Option<String> = None;
    let mut names: Vec<Alias> = Vec::new();
    let mut is_wildcard = false;
    let mut k: usize = 0;
    assert((opt_text(module_source), aliases_view(names@), is_wildcard) == py_from_upto(t@, n as int, 0));
    while k < m
        invariant
            tree_wf(t@),
            n < t@.len(),
            node == t@[n as int],
            m == child_count_of(t@, n as int),
            k <= m,
            (opt_text(module_source), aliases_view(names@), is_wildcard) == py_from_upto(t@, n as int, k as int),
        decreases m - k,
    {
        let x = node.children[k];
        assert(x as int == child_of(t@, n as int, k as int));
        let ghost prev = aliases_view(names@);
        if has_kind(t, x, "dotted_name") {
            let text = t.node(x).text.clone();
            if module_source.is_none() {
                module_source = Some(text);
            } else {
                names.push(Alias { imported: text.clone(), local: text });
                assert(aliases_view(names@) =~= prev.push((t@[x as int].text@, t@[x as int].text@)));
            }
        } else if has_kind(t, x, "aliased_import") {
            names.push(py_aliased_exec(t, x, true));
            assert(aliases_view(names@) =~= prev.push(py_aliased(t@, x as int, true)));
        } else if has_kind(t, x, "wildcard_import") {
            is_wildcard = true;
        }
        k = k + 1;
    }
    if is_wildcard {
        let ghost prev = aliases_view(names@);
        names.push(Alias { imported: "*".to_owned(), local: "*".to_owned() });
        assert(aliases_view(names@) =~= prev.push(("*"@, "*"@)));
    }
    AstImport {
        kind: ImportKind::FromImport,
        module_source,
        names,
        range: node_range(node),
        is_type_only: false,
        source_text: Some(trimmed_node_text(t, n, MAX_TEXT_BYTES)),
    }
}

fn collect_imports(t: &SyntaxTree, i: usize, python: bool, results: &mut Vec<AstImport>)
    requires
        i < t@.len(),
        old(results)@.len() <= MAX_RESULTS,
    ensures
        final(results)@.len() <= MAX_RESULTS,
        imports_view(final(results)@) == cap(imports_view(old(results)@) + (if python {
            walk(t@, i as int, py_import_item(t@), py_import_descend(t@))
        } else {
            walk(t@, i as int, ts_import_item(t@), ts_import_descend(t@))
        }), MAX_RESULTS as int),
    decreases t@.len() - i,
{
    t.wf();
    let ghost item = if python { py_import_item(t@) } else { ts_import_item(t@) };
    let ghost descend = if python { py_import_descend(t@) } else { ts_import_descend(t@) };
    let ghost base = imports_view(results@);
    let ghost whole = walk(t@, i as int, item, descend);
    if results.len() >= MAX_RESULTS {
        proof { lemma_cap_full(base, whole, MAX_RESULTS as int); }
        return;
    }
    proof { lemma_walk_unfold(t@, i as int, item, descend); }
    let is_import = has_kind(t, i, "import_statement");
    let is_from = python && has_kind(t, i, "import_from_statement");
    if is_import {
        let imp = if python { extract_py_import_statement(t, i) } else { extract_ts_js_import_statement(t, i) };
        results.push(imp);
        assert(imports_view(results@) =~= base + item(i as int));
        return;
    }
    if is_from {
        results.push(extract_py_import_from_statement(t, i));
        assert(imports_view(results@) =~= base + item(i as int));
        return;
    }
    if !python && has_kind(t, i, "call_expression") {
        if let Some(imp) = extract_ts_js_call_import(t, i) {
            results.push(imp);
        }
    }
    assert(imports_view(results@) =~= cap(base + item(i as int), MAX_RESULTS as int));
    let node = t.node(i);
    let m = node.children.len();
    let mut k: usize = 0;
    while k < m
        invariant
            tree_wf(t@),
            i < t@.len(),
            node == t@[i as int],
            m == child_count_of(t@, i as int),
            k <= m,
            item == (if python { py_import_item(t@) } else { ts_import_item(t@) }),
            descend == (if python { py_import_descend(t@) } else { ts_import_descend(t@) }),
            results@.len() <= MAX_RESULTS,
            imports_view(results@) == cap(base + (item(i as int) + walk_children(t@, i as int, k as int, item, descend)), MAX_RESULTS as int),
        decreases m - k,
    {
        let c = node.children[k];
        proof { lemma_walk_children_step(t@, i as int, k as int, item, descend); }
        collect_imports(t, c, python, results);
        proof {
            lemma_cap_step(base, item(i as int) + walk_children(t@, i as int, k as int, item, descend),
                walk(t@, c as int, item, descend), MAX_RESULTS as int);
            assert(item(i as int) + walk_children(t@, i as int, k as int, item, descend) + walk(t@, c as int, item, descend)
                =~= item(i as int) + walk_children(t@, i as int, k + 1, item, descend));
        }
        k = k + 1;
    }
}

/// Find the imports of a file in pre-order: for TypeScript and JavaScript, import
/// statements, `require(..)` calls and dynamic `import(..)` calls; for Python, `import`
/// and `from .. import` statements. Go and Rust files yield none. At most
/// `MAX_RESULTS` are returned.
pub fn find_imports(t: &SyntaxTree, lang: LanguageId) -> (r: Vec<AstImport>)
    ensures
        imports_view(r@) == cap(all_imports(t@, lang), MAX_RESULTS as int),
{
    t.wf();
    let mut results: Vec<AstImport> = Vec::new();
    assert(imports_view(results@) =~= Seq::<ImportView>::empty());
    match lang {
        LanguageId::Python => {
            collect_imports(t, 0, true, &mut results);
            assert(Seq::<ImportView>::empty() + walk(t@, 0, py_import_item(t@), py_import_descend(t@))
                =~= walk(t@, 0, py_import_item(t@), py_import_descend(t@)));
        },
        LanguageId::Go | LanguageId::Rust => {},
        _ => {
            collect_imports(t, 0, false, &mut results);
            assert(Seq::<ImportView>::empty() + walk(t@, 0, ts_import_item(t@), ts_import_descend(t@))
                =~= walk(t@, 0, ts_import_item(t@), ts_import_descend(t@)));
        },
    }
    results
}

// ---------------------------------------------------------------------------
// Laws
// ---------------------------------------------------------------------------

proof fn lemma_statement_names(t: Seq<SyntaxNode>, n: int, k: int, p: int)
    requires
        0 <= p < child_count_of(t, n),
        0 <= k <= child_count_of(t, n),
        forall|q: int| 0 <= q < child_count_of(t, n) && q != p ==> !kind_is(t, #[trigger] child_of(t, n, q), "import_clause"@),
        kind_is(t, child_of(t, n, p), "import_clause"@),
    ensures
        ts_statement_upto(t, n, k).1 == (if k > p {
            clause_upto(t, child_of(t, n, p), child_count_of(t, child_of(t, n, p)))
        } else {
            Seq::<AliasView>::empty()
        }),
    decreases k,
{
    if k > 0 {
        lemma_statement_names(t, n, k - 1, p);
        let x = child_of(t, n, k - 1);
        if k - 1 == p {
            reveal_strlit("import_clause");
            reveal_strlit("type");
            reveal_strlit("string");
            assert("import_clause"@.len() != "type"@.len());
            assert("import_clause"@.len() != "string"@.len());
            assert(!kind_is(t, x, "type"@) && !kind_is(t, x, "string"@));
            assert(Seq::<AliasView>::empty() + clause_upto(t, x, child_count_of(t, x)) =~= clause_upto(t, x, child_count_of(t, x)));
        } else {
            assert(!kind_is(t, x, "import_clause"@));
        }
    }
}

proof fn lemma_only_identifier(t: Seq<SyntaxNode>, s: int, k: int, q: int)
    requires
        0 <= k <= q < child_count_of(t, s),
        kind_is(t, child_of(t, s, q), "identifier"@),
        forall|j: int| 0 <= j < child_count_of(t, s) && j != q ==> !kind_is(t, #[trigger] child_of(t, s, j), "identifier"@),
    ensures
        crate::syntax::kind_child_from(t, s, k, seq!["identifier"]) == Some(child_of(t, s, q)),
    decreases q - k,
{
    let ks: Seq<&str> = seq!["identifier"];
    assert(ks[0] == "identifier");
    if k < q {
        assert(!crate::syntax::kind_in(t, child_of(t, s, k), ks)) by {
            assert(!kind_is(t, child_of(t, s, k), "identifier"@));
        }
        lemma_only_identifier(t, s, k + 1, q);
    } else {
        assert(crate::syntax::kind_in(t, child_of(t, s, k), ks));
    }
}

/// A namespace import binds the whole module to its identifier: for an import statement
/// `n` whose one import clause `c` holds just a namespace import `s` (`* as x`), with `x`
/// the identifier child of `s`, the statement's names are exactly one alias, whose
/// imported name is `*` and whose local name is `x`.
pub proof fn law_namespace_import(t: Seq<SyntaxNode>, n: int, p: int, q: int)
    requires
        0 <= p < child_count_of(t, n),
        kind_is(t, child_of(t, n, p), "import_clause"@),
        forall|j: int| 0 <= j < child_count_of(t, n) && j != p ==> !kind_is(t, #[trigger] child_of(t, n, j), "import_clause"@),
        child_count_of(t, child_of(t, n, p)) == 1,
        kind_is(t, child_of(t, child_of(t, n, p), 0), "namespace_import"@),
        0 <= q < child_count_of(t, child_of(t, child_of(t, n, p), 0)),
        kind_is(t, child_of(t, child_of(t, child_of(t, n, p), 0), q), "identifier"@),
        forall|j: int| 0 <= j < child_count_of(t, child_of(t, child_of(t, n, p), 0)) && j != q
            ==> !kind_is(t, #[trigger] child_of(t, child_of(t, child_of(t, n, p), 0), j), "identifier"@),
    ensures
        ts_import_statement(t, n).names == seq![("*"@, t[child_of(t, child_of(t, child_of(t, n, p), 0), q)].text@)],
{
    let c = child_of(t, n, p);
    let s = child_of(t, c, 0);
    let x = child_of(t, s, q);
    lemma_statement_names(t, n, child_count_of(t, n), p);
    lemma_only_identifier(t, s, 0, q);
    reveal_strlit("namespace_import");
    reveal_strlit("identifier");
    reveal_strlit("named_imports");
    assert("namespace_import"@.len() != "identifier"@.len());
    assert("namespace_import"@[4] != "named_imports"@[4]);
    assert(!kind_is(t, s, "identifier"@));
    assert(!kind_is(t, s, "named_imports"@));
    assert(namespace_alias(t, s) == seq![("*"@, t[x].text@)]);
    assert(clause_upto(t, c, 0) == Seq::<AliasView>::empty());
    assert(clause_upto(t, c, 1) == clause_upto(t, c, 0) + namespace_alias(t, s));
    assert(clause_upto(t, c, 1) =~= seq![("*"@, t[x].text@)]);
}

} // verus!
