//! Export statements of TypeScript/JavaScript files and the public definitions of Python
//! modules.
use vstd::prelude::*;

use super::imports::{strip_quotes, strip_quotes_text};
use super::{trimmed_node_text, trimmed_text};
use crate::config::defaults::{MAX_RESULTS, MAX_TEXT_BYTES};
use crate::shared::{LanguageId, Range, is_ts_js, opt_text};
use crate::syntax::{
    SyntaxNode, SyntaxTree, cap, child_by_field, child_count_of, child_of, field_child, has_kind,
    kind_is, lemma_cap_full, lemma_cap_step, lemma_walk_children_step, lemma_walk_unfold,
    node_range, node_range_spec, tree_wf, walk, walk_children,
};
use crate::text::{str_eq, string_bytes};

verus! {

/// An export found in a file.
#[derive(Debug)]
pub struct AstExport {
    pub kind: ExportKind,
    pub name: Option<String>,
    pub range: Range,
    pub is_default: bool,
    pub is_type_only: bool,
    pub re_export_source: Option<String>,
    pub source_text: Option<String>,
}

/// What an export exports.
#[derive(Debug, Clone, Copy, PartialEq, Eq, Structural)]
pub enum ExportKind {
    Function,
    Class,
    Const,
    Let,
    Var,
    Type,
    Interface,
    Enum,
    ReExport,
    Default,
    PythonPublicDefinition,
    PythonAll,
    Unknown,
}

/// An export as plain values; its source text is given by its UTF-8 bytes.
pub struct ExportView {
    pub kind: ExportKind,
    pub name: Option<Seq<char>>,
    pub range: Range,
    pub is_default: bool,
    pub is_type_only: bool,
    pub re_export_source: Option<Seq<char>>,
    pub source_bytes: Option<Seq<u8>>,
}

/// The plain-value view of an export.
pub open spec fn export_view(e: AstExport) -> ExportView {
    ExportView {
        kind: e.kind,
        name: opt_text(e.name),
        range: e.range,
        is_default: e.is_default,
        is_type_only: e.is_type_only,
        re_export_source: opt_text(e.re_export_source),
        source_bytes: match e.source_text { Some(s) => Some(string_bytes(s@)), None => None },
    }
}

/// The plain-value view of a list of exports.
pub open spec fn exports_view(v: Seq<AstExport>) -> Seq<ExportView> {
    v.map_values(|e: AstExport| export_view(e))
}

// ---------------------------------------------------------------------------
// Names
// ---------------------------------------------------------------------------

/// The name of node `n`, searched in depth: its `name` field, else the first child that
/// is an identifier or a named node with a name of its own.
pub open spec fn deep_name(t: Seq<SyntaxNode>, n: int) -> Option<Seq<char>>
    decreases t.len() - n, 1nat, 0int,
{
    if 0 <= n < t.len() {
        match field_child(t, n, "name"@) {
            Some(c) => Some(t[c].text@),
            None => deep_name_from(t, n, 0),
        }
    } else {
        None
    }
}

/// The name found among the children of node `n` from position `k` on.
pub open spec fn deep_name_from(t: Seq<SyntaxNode>, n: int, k: int) -> Option<Seq<char>>
    decreases t.len() - n, 0nat, child_count_of(t, n) - k,
{
    if 0 <= n < t.len() && 0 <= k < child_count_of(t, n) && n < child_of(t, n, k) < t.len() {
        let c = child_of(t, n, k);
        if kind_is(t, c, "identifier"@) {
            Some(t[c].text@)
        } else if t[c].named && deep_name(t, c) is Some {
            deep_name(t, c)
        } else {
            deep_name_from(t, n, k + 1)
        }
    } else {
        None
    }
}

/// The name a variable declarator `v` sets, looking from position `k` on: its first
/// identifier, or the name inside its first object or array pattern (`None` when that has
/// none, or when neither comes).
pub open spec fn declarator_name(t: Seq<SyntaxNode>, v: int, k: int) -> Option<Seq<char>>
    decreases child_count_of(t, v) - k,
{
    if 0 <= k < child_count_of(t, v) {
        let c = child_of(t, v, k);
        if kind_is(t, c, "identifier"@) {
            Some(t[c].text@)
        } else if kind_is(t, c, "object_pattern"@) || kind_is(t, c, "array_pattern"@) {
            deep_name(t, c)
        } else {
            declarator_name(t, v, k + 1)
        }
    } else {
        None
    }
}

/// Reading the first `k` children of a lexical or variable declaration `d`: the
/// declaration kind and the declared name.
pub open spec fn lexical_upto(t: Seq<SyntaxNode>, d: int, k: int) -> (ExportKind, Option<Seq<char>>)
    decreases k,
{
    if k <= 0 {
        (ExportKind::Unknown, None)
    } else {
        let st = lexical_upto(t, d, k - 1);
        let c = child_of(t, d, k - 1);
        if kind_is(t, c, "const"@) {
            (ExportKind::Const, st.1)
        } else if kind_is(t, c, "let"@) {
            (ExportKind::Let, st.1)
        } else if kind_is(t, c, "var"@) {
            (ExportKind::Var, st.1)
        } else if kind_is(t, c, "variable_declarator"@) {
            (st.0, match declarator_name(t, c, 0) { Some(x) => Some(x), None => st.1 })
        } else {
            st
        }
    }
}

/// The first identifier of the first export specifier of clause `c` that has one,
/// looking from position `k` on.
pub open spec fn first_export_spec(t: Seq<SyntaxNode>, c: int, k: int) -> Option<Seq<char>>
    decreases child_count_of(t, c) - k,
{
    if 0 <= k < child_count_of(t, c) {
        let s = child_of(t, c, k);
        if kind_is(t, s, "export_specifier"@) && crate::syntax::kind_child_from(t, s, 0, seq!["identifier"]) is Some {
            Some(t[crate::syntax::kind_child_from(t, s, 0, seq!["identifier"]).unwrap()].text@)
        } else {
            first_export_spec(t, c, k + 1)
        }
    } else {
        None
    }
}

/// The module a `from` clause `f` names: its last string child, unquoted, among the
/// first `k` children.
pub open spec fn clause_source(t: Seq<SyntaxNode>, f: int, k: int, cur: Option<Seq<char>>) -> Option<Seq<char>>
    decreases k,
{
    if k <= 0 {
        cur
    } else {
        let prev = clause_source(t, f, k - 1, cur);
        let x = child_of(t, f, k - 1);
        if kind_is(t, x, "string"@) { Some(strip_quotes(t[x].text@)) } else { prev }
    }
}

// ---------------------------------------------------------------------------
// TS/JS export statements
// ---------------------------------------------------------------------------

/// The state of reading an export statement: kind, name, default flag, type-only flag
/// and re-export source.
pub struct ExportState {
    pub kind: ExportKind,
    pub name: Option<Seq<char>>,
    pub is_default: bool,
    pub is_type_only: bool,
    pub source: Option<Seq<char>>,
}

/// Reading child `c` of an export statement in state `st`.
pub open spec fn export_step(t: Seq<SyntaxNode>, st: ExportState, c: int) -> ExportState {
    if kind_is(t, c, "default"@) {
        ExportState { is_default: true, ..st }
    } else if kind_is(t, c, "type"@) {
        ExportState { is_type_only: true, ..st }
    } else if kind_is(t, c, "function_declaration"@) || kind_is(t, c, "generator_function_declaration"@) {
        ExportState { kind: ExportKind::Function, name: deep_name(t, c), ..st }
    } else if kind_is(t, c, "class_declaration"@) {
        ExportState { kind: ExportKind::Class, name: deep_name(t, c), ..st }
    } else if kind_is(t, c, "lexical_declaration"@) || kind_is(t, c, "variable_declaration"@) {
        let info = lexical_upto(t, c, child_count_of(t, c));
        ExportState { kind: info.0, name: info.1, ..st }
    } else if kind_is(t, c, "type_alias_declaration"@) {
        ExportState { kind: ExportKind::Type, name: deep_name(t, c), ..st }
    } else if kind_is(t, c, "interface_declaration"@) {
        ExportState { kind: ExportKind::Interface, name: deep_name(t, c), ..st }
    } else if kind_is(t, c, "enum_declaration"@) {
        ExportState { kind: ExportKind::Enum, name: deep_name(t, c), ..st }
    } else if kind_is(t, c, "export_clause"@) {
        ExportState { kind: ExportKind::ReExport, name: first_export_spec(t, c, 0), ..st }
    } else if kind_is(t, c, "from_clause"@) {
        ExportState { source: clause_source(t, c, child_count_of(t, c), st.source), ..st }
    } else if kind_is(t, c, "namespace_export"@) {
        ExportState { kind: ExportKind::ReExport, name: deep_name(t, c), ..st }
    } else if (kind_is(t, c, "call_expression"@) || kind_is(t, c, "identifier"@)) && st.is_default && st.kind == ExportKind::Unknown {
        ExportState { kind: ExportKind::Default, name: Some(t[c].text@), ..st }
    } else {
        st
    }
}

/// Reading the first `k` children of export statement `n`.
pub open spec fn export_upto(t: Seq<SyntaxNode>, n: int, k: int) -> ExportState
    decreases k,
{
    if k <= 0 {
        ExportState { kind: ExportKind::Unknown, name: None, is_default: false, is_type_only: false, source: None }
    } else {
        export_step(t, export_upto(t, n, k - 1), child_of(t, n, k - 1))
    }
}

/// Whether node `n` has a `*` or `namespace_export` child.
pub open spec fn has_star(t: Seq<SyntaxNode>, n: int) -> bool {
    exists|j: int| 0 <= j < child_count_of(t, n)
        && (kind_is(t, child_of(t, n, j), "*"@) || kind_is(t, child_of(t, n, j), "namespace_export"@))
}

/// The source named by the first string child of node `n` that follows a `from` child,
/// looking from position `k` on.
pub open spec fn string_after_from(t: Seq<SyntaxNode>, n: int, k: int) -> Option<Seq<char>>
    decreases child_count_of(t, n) - k,
{
    if 0 <= k < child_count_of(t, n) {
        let c = child_of(t, n, k);
        if kind_is(t, c, "string"@) && k >= 1 && kind_is(t, child_of(t, n, k - 1), "from"@) {
            Some(strip_quotes(t[c].text@))
        } else {
            string_after_from(t, n, k + 1)
        }
    } else {
        None
    }
}

/// The export an export statement `n` gives. After its children are read: with no kind
/// yet, a `*` or namespace child makes it a re-export; a missing source is taken from the
/// `source` field, else from a string after `from`; a source makes a kindless export a
/// re-export, and a default flag makes it a default export.
pub open spec fn ts_export(t: Seq<SyntaxNode>, n: int) -> ExportView {
    let st = export_upto(t, n, child_count_of(t, n));
    let kind1 = if st.kind == ExportKind::Unknown && has_star(t, n) { ExportKind::ReExport } else { st.kind };
    let src1 = if st.source is None {
        match field_child(t, n, "source"@) { Some(s) => Some(strip_quotes(t[s].text@)), None => None }
    } else {
        st.source
    };
    let src2 = if src1 is None { string_after_from(t, n, 0) } else { src1 };
    let kind2 = if kind1 == ExportKind::Unknown && src2 is Some { ExportKind::ReExport } else { kind1 };
    let kind3 = if st.is_default && kind2 == ExportKind::Unknown { ExportKind::Default } else { kind2 };
    ExportView {
        kind: kind3,
        name: st.name,
        range: node_range_spec(t[n]),
        is_default: st.is_default,
        is_type_only: st.is_type_only,
        re_export_source: src2,
        source_bytes: Some(trimmed_text(t, n, MAX_TEXT_BYTES as int)),
    }
}

/// What TS/JS node `n` contributes: the export, for an export statement.
pub open spec fn ts_export_item(t: Seq<SyntaxNode>) -> spec_fn(int) -> Seq<ExportView> {
    |n: int| if kind_is(t, n, "export_statement"@) { seq![ts_export(t, n)] } else { Seq::empty() }
}

/// The TS/JS walk does not enter export statements.
pub open spec fn ts_export_descend(t: Seq<SyntaxNode>) -> spec_fn(int) -> bool {
    |n: int| !kind_is(t, n, "export_statement"@)
}

// ---------------------------------------------------------------------------
// Python
// ---------------------------------------------------------------------------

/// Whether a Python name is private: it starts with `_` (dunder names included).
pub open spec fn is_private_name(name: Seq<char>) -> bool {
    name.len() > 0 && name[0] == '_'
}

/// The export a Python definition `d` of the given kind gives, unless its name is
/// private.
pub open spec fn py_public_def(t: Seq<SyntaxNode>, d: int, kind: ExportKind) -> Seq<ExportView> {
    let name = deep_name(t, d);
    if name matches Some(x) && is_private_name(x) {
        Seq::empty()
    } else {
        seq![ExportView {
            kind,
            name,
            range: node_range_spec(t[d]),
            is_default: false,
            is_type_only: false,
            re_export_source: None,
            source_bytes: Some(trimmed_text(t, d, MAX_TEXT_BYTES as int)),
        }]
    }
}

/// Whether child `c` of an expression statement assigns `__all__`.
pub open spec fn assigns_all(t: Seq<SyntaxNode>, c: int) -> bool {
    kind_is(t, c, "assignment"@) && (field_child(t, c, "left"@) matches Some(l)
        && kind_is(t, l, "identifier"@) && t[l].text@ == "__all__"@)
}

/// The `__all__` export an expression statement `e` gives, if it assigns `__all__`.
pub open spec fn py_all(t: Seq<SyntaxNode>, e: int) -> Seq<ExportView> {
    if exists|j: int| 0 <= j < child_count_of(t, e) && assigns_all(t, child_of(t, e, j)) {
        seq![ExportView {
            kind: ExportKind::PythonAll,
            name: Some("__all__"@),
            range: node_range_spec(t[e]),
            is_default: false,
            is_type_only: false,
            re_export_source: None,
            source_bytes: Some(trimmed_text(t, e, MAX_TEXT_BYTES as int)),
        }]
    } else {
        Seq::empty()
    }
}

/// What top-level child `c` of a Python module contributes.
pub open spec fn py_module_child(t: Seq<SyntaxNode>, c: int) -> Seq<ExportView> {
    if !t[c].named {
        Seq::empty()
    } else if kind_is(t, c, "expression_statement"@) {
        py_all(t, c)
    } else if kind_is(t, c, "function_definition"@) {
        py_public_def(t, c, ExportKind::Function)
    } else if kind_is(t, c, "class_definition"@) {
        py_public_def(t, c, ExportKind::Class)
    } else if kind_is(t, c, "decorated_definition"@) {
        match field_child(t, c, "definition"@) {
            Some(d) => if kind_is(t, d, "function_definition"@) {
                py_public_def(t, d, ExportKind::Function)
            } else if kind_is(t, d, "class_definition"@) {
                py_public_def(t, d, ExportKind::Class)
            } else {
                Seq::empty()
            },
            None => Seq::empty(),
        }
    } else {
        Seq::empty()
    }
}

/// The exports among the first `k` children of module `m`.
pub open spec fn py_module_upto(t: Seq<SyntaxNode>, m: int, k: int) -> Seq<ExportView>
    decreases k,
{
    if k <= 0 { Seq::empty() } else { py_module_upto(t, m, k - 1) + py_module_child(t, child_of(t, m, k - 1)) }
}

/// What Python node `n` contributes: the exports of a module's top level.
pub open spec fn py_export_item(t: Seq<SyntaxNode>) -> spec_fn(int) -> Seq<ExportView> {
    |n: int| if kind_is(t, n, "module"@) { py_module_upto(t, n, child_count_of(t, n)) } else { Seq::empty() }
}

/// The Python walk does not enter modules' children except through their top level.
pub open spec fn py_export_descend(t: Seq<SyntaxNode>) -> spec_fn(int) -> bool {
    |n: int| !kind_is(t, n, "module"@)
}

/// The exports of a file in the given language, before the result limit; Python exports
/// are reported only when best-effort Python exports are asked for.
pub open spec fn all_exports(t: Seq<SyntaxNode>, lang: LanguageId, python_best_effort: bool) -> Seq<ExportView> {
    if is_ts_js(lang) {
        walk(t, 0, ts_export_item(t), ts_export_descend(t))
    } else if lang == LanguageId::Python && python_best_effort {
        walk(t, 0, py_export_item(t), py_export_descend(t))
    } else {
        Seq::empty()
    }
}

// ---------------------------------------------------------------------------
// Executable parts
// ---------------------------------------------------------------------------

fn deep_name_exec(t: &SyntaxTree, n: usize) -> (r: Option<String>)
    requires
        n < t@.len(),
    ensures
        opt_text(r) == deep_name(t@, n as int),
    decreases t@.len() - n,
{
    t.wf();
    if let Some(c) = child_by_field(t, n, "name") {
        return Some(t.node(c).text.clone());
    }
    let node = t.node(n);
    let m = node.children.len();
    let mut k: usize = 0;
    while k < m
        invariant
            tree_wf(t@),
            n < t@.len(),
            node == t@[n as int],
            m == child_count_of(t@, n as int),
            k <= m,
            deep_name(t@, n as int) == deep_name_from(t@, n as int, k as int),
        decreases m - k,
    {
        let c = node.children[k];
        assert(c as int == child_of(t@, n as int, k as int));
        if has_kind(t, c, "identifier") {
            return Some(t.node(c).text.clone());
        }
        if t.node(c).named {
            let found = deep_name_exec(t, c);
            if found.is_some() {
                return found;
            }
        }
        k = k + 1;
    }
    None
}

fn declarator_name_exec(t: &SyntaxTree, v: usize) -> (r: Option<String>)
    requires
        v < t@.len(),
    ensures
        opt_text(r) == declarator_name(t@, v as int, 0),
{
    t.wf();
    let node = t.node(v);
    let m = node.children.len();
    let mut k: usize = 0;
    while k < m
        invariant
            tree_wf(t@),
            v < t@.len(),
            node == t@[v as int],
            m == child_count_of(t@, v as int),
            k <= m,
            declarator_name(t@, v as int, 0) == declarator_name(t@, v as int, k as int),
        decreases m - k,
    {
        let c = node.children[k];
        assert(c as int == child_of(t@, v as int, k as int));
        if has_kind(t, c, "identifier") {
            return Some(t.node(c).text.clone());
        }
        if has_kind(t, c, "object_pattern") || has_kind(t, c, "array_pattern") {
            return deep_name_exec(t, c);
        }
        k = k + 1;
    }
    None
}

fn extract_lexical_info(t: &SyntaxTree, d: usize) -> (r: (ExportKind, Option<String>))
    requires
        d < t@.len(),
    ensures
        (r.0, opt_text(r.1)) == lexical_upto(t@, d as int, child_count_of(t@, d as int)),
{
    t.wf();
    let node = t.node(d);
    let m = node.children.len();
    let mut kind = ExportKind::Unknown;
    let mut name: Option<String> = None;
    let mut k: usize = 0;
    while k < m
        invariant
            tree_wf(t@),
            d < t@.len(),
            node == t@[d as int],
            m == child_count_of(t@, d as int),
            k <= m,
            (kind, opt_text(name)) == lexical_upto(t@, d as int, k as int),
        decreases m - k,
    {
        let c = node.children[k];
        assert(c as int == child_of(t@, d as int, k as int));
        if has_kind(t, c, "const") {
            kind = ExportKind::Const;
        } else if has_kind(t, c, "let") {
            kind = ExportKind::Let;
        } else if has_kind(t, c, "var") {
            kind = ExportKind::Var;
        } else if has_kind(t, c, "variable_declarator") {
            if let Some(x) = declarator_name_exec(t, c) {
                name = Some(x);
            }
        }
        k = k + 1;
    }
    (kind, name)
}

fn extract_first_export_spec(t: &SyntaxTree, c: usize) -> (r: Option<String>)
    requires
        c < t@.len(),
    ensures
        opt_text(r) == first_export_spec(t@, c as int, 0),
{
    t.wf();
    let node = t.node(c);
    let m = node.children.len();
    let ks: &[&str] = &["identifier"];
    assert(ks@ =~= seq!["identifier"]);
    let mut k: usize = 0;
    while k < m
        invariant
            tree_wf(t@),
            c < t@.len(),
            node == t@[c as int],
            m == child_count_of(t@, c as int),
            k <= m,
            ks@ == seq!["identifier"],
            first_export_spec(t@, c as int, 0) == first_export_spec(t@, c as int, k as int),
        decreases m - k,
    {
        let s = node.children[k];
        assert(s as int == child_of(t@, c as int, k as int));
        if has_kind(t, s, "export_specifier") {
            if let Some(x) = crate::syntax::child_with_kind_in(t, s, ks) {
                return Some(t.node(x).text.clone());
            }
        }
        k = k + 1;
    }
    None
}

fn clause_source_exec(t: &SyntaxTree, f: usize, cur: Option<String>) -> (r: Option<String>)
    requires
        f < t@.len(),
    ensures
        opt_text(r) == clause_source(t@, f as int, child_count_of(t@, f as int), opt_text(cur)),
{
    t.wf();
    let ghost c0 = opt_text(cur);
    let node = t.node(f);
    let m = node.children.len();
    let mut src = cur;
    let mut k: usize = 0;
    while k < m
        invariant
            tree_wf(t@),
            f < t@.len(),
            node == t@[f as int],
            m == child_count_of(t@, f as int),
            k <= m,
            opt_text(src) == clause_source(t@, f as int, k as int, c0),
        decreases m - k,
    {
        let x = node.children[k];
        assert(x as int == child_of(t@, f as int, k as int));
        if has_kind(t, x, "string") {
            src = Some(strip_quotes_text(t.node(x).text.as_str()));
        }
        k = k + 1;
    }
    src
}

fn has_star_exec(t: &SyntaxTree, n: usize) -> (r: bool)
    requires
        n < t@.len(),
    ensures
        r == has_star(t@, n as int),
{
    t.wf();
    let node = t.node(n);
    let m = node.children.len();
    let mut k: usize = 0;
    while k < m
        invariant
            tree_wf(t@),
            n < t@.len(),
            node == t@[n as int],
            m == child_count_of(t@, n as int),
            k <= m,
            forall|j: int| 0 <= j < k ==> !(kind_is(t@, child_of(t@, n as int, j), "*"@)
                || kind_is(t@, child_of(t@, n as int, j), "namespace_export"@)),
        decreases m - k,
    {
        let c = node.children[k];
        assert(c as int == child_of(t@, n as int, k as int));
        if has_kind(t, c, "*") || has_kind(t, c, "namespace_export") {
            return true;
        }
        k = k + 1;
    }
    false
}

fn string_after_from_exec(t: &SyntaxTree, n: usize) -> (r: Option<String>)
    requires
        n < t@.len(),
    ensures
        opt_text(r) == string_after_from(t@, n as int, 0),
{
    t.wf();
    let node = t.node(n);
    let m = node.children.len();
    let mut k: usize = 0;
    while k < m
        invariant
            tree_wf(t@),
            n < t@.len(),
            node == t@[n as int],
            m == child_count_of(t@, n as int),
            k <= m,
            string_after_from(t@, n as int, 0) == string_after_from(t@, n as int, k as int),
        decreases m - k,
    {
        let c = node.children[k];
        assert(c as int == child_of(t@, n as int, k as int));
        if has_kind(t, c, "string") && k >= 1 {
            let prev = node.children[k - 1];
            assert(prev as int == child_of(t@, n as int, k - 1));
            if has_kind(t, prev, "from") {
                return Some(strip_quotes_text(t.node(c).text.as_str()));
            }
        }
        k = k + 1;
    }
    None
}

fn extract_ts_js_export(t: &SyntaxTree, n: usize) -> (r: AstExport)
    requires
        n < t@.len(),
    ensures
        export_view(r) == ts_export(t@, n as int),
{
    t.wf();
    let node = t.node(n);
    let m = node.children.len();
    let mut kind = ExportKind::Unknown;
    let mut name: Option<String> = None;
    let mut is_default = false;
    let mut is_type_only = false;
    let mut re_export_source: Option<String> = None;
    let mut k: usize = 0;
    while k < m
        invariant
            tree_wf(t@),
            n < t@.len(),
            node == t@[n as int],
            m == child_count_of(t@, n as int),
            k <= m,
            (ExportState { kind, name: opt_text(name), is_default, is_type_only, source: opt_text(re_export_source) })
                == export_upto(t@, n as int, k as int),
        decreases m - k,
    {
        let c = node.children[k];
        assert(c as int == child_of(t@, n as int, k as int));
        if has_kind(t, c, "default") {
            is_default = true;
        } else if has_kind(t, c, "type") {
            is_type_only = true;
        } else if has_kind(t, c, "function_declaration") || has_kind(t, c, "generator_function_declaration") {
            kind = ExportKind::Function;
            name = deep_name_exec(t, c);
        } else if has_kind(t, c, "class_declaration") {
            kind = ExportKind::Class;
            name = deep_name_exec(t, c);
        } else if has_kind(t, c, "lexical_declaration") || has_kind(t, c, "variable_declaration") {
            let (dk, dn) = extract_lexical_info(t, c);
            kind = dk;
            name = dn;
        } else if has_kind(t, c, "type_alias_declaration") {
            kind = ExportKind::Type;
            name = deep_name_exec(t, c);
        } else if has_kind(t, c, "interface_declaration") {
            kind = ExportKind::Interface;
            name = deep_name_exec(t, c);
        } else if has_kind(t, c, "enum_declaration") {
            kind = ExportKind::Enum;
            name = deep_name_exec(t, c);
        } else if has_kind(t, c, "export_clause") {
            kind = ExportKind::ReExport;
            name = extract_first_export_spec(t, c);
        } else if has_kind(t, c, "from_clause") {
            re_export_source = clause_source_exec(t, c, re_export_source);
        } else if has_kind(t, c, "namespace_export") {
            kind = ExportKind::ReExport;
            name = deep_name_exec(t, c);
        } else if (has_kind(t, c, "call_expression") || has_kind(t, c, "identifier")) && is_default && kind == ExportKind::Unknown {
            kind = ExportKind::Default;
            name = Some(t.node(c).text.clone());
        }
        k = k + 1;
    }
    let ghost st = export_upto(t@, n as int, m as int);
    if kind == ExportKind::Unknown && has_star_exec(t, n) {
        kind = ExportKind::ReExport;
    }
    if re_export_source.is_none() {
        if let Some(s) = child_by_field(t, n, "source") {
            re_export_source = Some(strip_quotes_text(t.node(s).text.as_str()));
        }
    }
    if re_export_source.is_none() {
        re_export_source = string_after_from_exec(t, n);
    }
    if kind == ExportKind::Unknown && re_export_source.is_some() {
        kind = ExportKind::ReExport;
    }
    if is_default && kind == ExportKind::Unknown {
        kind = ExportKind::Default;
    }
    AstExport {
        kind,
        name,
        range: node_range(node),
        is_default,
        is_type_only,
        re_export_source,
        source_text: Some(trimmed_node_text(t, n, MAX_TEXT_BYTES)),
    }
}

fn extract_py_public_def(t: &SyntaxTree, d: usize, kind: ExportKind, results: &mut Vec<AstExport>)
    requires
        d < t@.len(),
        old(results)@.len() <= MAX_RESULTS,
    ensures
        final(results)@.len() <= MAX_RESULTS,
        exports_view(final(results)@) == cap(exports_view(old(results)@) + py_public_def(t@, d as int, kind), MAX_RESULTS as int),
{
    let ghost base = exports_view(results@);
    let ghost item = py_public_def(t@, d as int, kind);
    if results.len() >= MAX_RESULTS {
        proof { lemma_cap_full(base, item, MAX_RESULTS as int); }
        return;
    }
    let name = deep_name_exec(t, d);
    if let Some(x) = &name {
        let chars = crate::text::chars_of(x.as_str());
        if chars.len() > 0 && chars[0] == '_' {
            assert(base + item =~= base);
            return;
        }
    }
    results.push(AstExport {
        kind,
        name,
        range: node_range(t.node(d)),
        is_default: false,
        is_type_only: false,
        re_export_source: None,
        source_text: Some(trimmed_node_text(t, d, MAX_TEXT_BYTES)),
    });
    assert(exports_view(results@) =~= base + item);
}

fn extract_py_all_assignment(t: &SyntaxTree, e: usize, results: &mut Vec<AstExport>)
    requires
        e < t@.len(),
        old(results)@.len() <= MAX_RESULTS,
    ensures
        final(results)@.len() <= MAX_RESULTS,
        exports_view(final(results)@) == cap(exports_view(old(results)@) + py_all(t@, e as int), MAX_RESULTS as int),
{
    t.wf();
    let ghost base = exports_view(results@);
    let ghost item = py_all(t@, e as int);
    if results.len() >= MAX_RESULTS {
        proof { lemma_cap_full(base, item, MAX_RESULTS as int); }
        return;
    }
    let node = t.node(e);
    let m = node.children.len();
    let mut k: usize = 0;
    while k < m
        invariant
            tree_wf(t@),
            e < t@.len(),
            node == t@[e as int],
            m == child_count_of(t@, e as int),
            k <= m,
            results@ == old(results)@,
            results@.len() < MAX_RESULTS,
            base == exports_view(results@),
            item == py_all(t@, e as int),
            forall|j: int| 0 <= j < k ==> !assigns_all(t@, child_of(t@, e as int, j)),
        decreases m - k,
    {
        let c = node.children[k];
        assert(c as int == child_of(t@, e as int, k as int));
        if has_kind(t, c, "assignment") {
            if let Some(l) = child_by_field(t, c, "left") {
                if has_kind(t, l, "identifier") && str_eq(t.node(l).text.as_str(), "__all__") {
                    assert(assigns_all(t@, child_of(t@, e as int, k as int)));
                    results.push(AstExport {
                        kind: ExportKind::PythonAll,
                        name: Some("__all__".to_owned()),
                        range: node_range(node),
                        is_default: false,
                        is_type_only: false,
                        re_export_source: None,
                        source_text: Some(trimmed_node_text(t, e, MAX_TEXT_BYTES)),
                    });
                    assert(exports_view(results@) =~= base + item);
                    return;
                }
            }
        }
        k = k + 1;
    }
    assert(base + item =~= base);
}

fn collect_exports_python(t: &SyntaxTree, md: usize, results: &mut Vec<AstExport>)
    requires
        md < t@.len(),
        old(results)@.len() <= MAX_RESULTS,
    ensures
        final(results)@.len() <= MAX_RESULTS,
        exports_view(final(results)@) == cap(exports_view(old(results)@)
            + py_module_upto(t@, md as int, child_count_of(t@, md as int)), MAX_RESULTS as int),
{
    t.wf();
    let ghost base = exports_view(results@);
    let node = t.node(md);
    let m = node.children.len();
    let mut k: usize = 0;
    assert(base + py_module_upto(t@, md as int, 0) =~= base);
    while k < m
        invariant
            tree_wf(t@),
            md < t@.len(),
            node == t@[md as int],
            m == child_count_of(t@, md as int),
            k <= m,
            results@.len() <= MAX_RESULTS,
            exports_view(results@) == cap(base + py_module_upto(t@, md as int, k as int), MAX_RESULTS as int),
        decreases m - k,
    {
        let c = node.children[k];
        assert(c as int == child_of(t@, md as int, k as int));
        let ghost prev = py_module_upto(t@, md as int, k as int);
        let ghost item = py_module_child(t@, c as int);
        if !t.node(c).named {
            assert(exports_view(results@) + item =~= exports_view(results@));
        } else if has_kind(t, c, "expression_statement") {
            extract_py_all_assignment(t, c, results);
        } else if has_kind(t, c, "function_definition") {
            extract_py_public_def(t, c, ExportKind::Function, results);
        } else if has_kind(t, c, "class_definition") {
            extract_py_public_def(t, c, ExportKind::Class, results);
        } else if has_kind(t, c, "decorated_definition") {
            match child_by_field(t, c, "definition") {
                Some(d) => {
                    if has_kind(t, d, "function_definition") {
                        extract_py_public_def(t, d, ExportKind::Function, results);
                    } else if has_kind(t, d, "class_definition") {
                        extract_py_public_def(t, d, ExportKind::Class, results);
                    } else {
                        assert(exports_view(results@) + item =~= exports_view(results@));
                    }
                },
                None => {
                    assert(exports_view(results@) + item =~= exports_view(results@));
                },
            }
        } else {
            assert(exports_view(results@) + item =~= exports_view(results@));
        }
        proof {
            lemma_cap_step(base, prev, item, MAX_RESULTS as int);
        }
        k = k + 1;
    }
}

fn collect_exports(t: &SyntaxTree, i: usize, python: bool, results: &mut Vec<AstExport>)
    requires
        i < t@.len(),
        old(results)@.len() <= MAX_RESULTS,
    ensures
        final(results)@.len() <= MAX_RESULTS,
        exports_view(final(results)@) == cap(exports_view(old(results)@) + (if python {
            walk(t@, i as int, py_export_item(t@), py_export_descend(t@))
        } else {
            walk(t@, i as int, ts_export_item(t@), ts_export_descend(t@))
        }), MAX_RESULTS as int),
    decreases t@.len() - i,
{
    t.wf();
    let ghost item = if python { py_export_item(t@) } else { ts_export_item(t@) };
    let ghost descend = if python { py_export_descend(t@) } else { ts_export_descend(t@) };
    let ghost base = exports_view(results@);
    let ghost whole = walk(t@, i as int, item, descend);
    if results.len() >= MAX_RESULTS {
        proof { lemma_cap_full(base, whole, MAX_RESULTS as int); }
        return;
    }
    proof { lemma_walk_unfold(t@, i as int, item, descend); }
    if python {
        if has_kind(t, i, "module") {
            collect_exports_python(t, i, results);
            return;
        }
    } else {
        if has_kind(t, i, "export_statement") {
            let e = extract_ts_js_export(t, i);
            results.push(e);
            assert(exports_view(results@) =~= base + item(i as int));
            return;
        }
    }
    assert(base + item(i as int) =~= base);
    let node = t.node(i);
    let m = node.children.len();
    let mut k: usize = 0;
    while k < m
        invariant
            tree_wf(t@),
            i < t@.len(),
            node == t@[i as int],
            m == child_count_of(t@, i as int),
            k <= m,
            item == (if python { py_export_item(t@) } else { ts_export_item(t@) }),
            descend == (if python { py_export_descend(t@) } else { ts_export_descend(t@) }),
            results@.len() <= MAX_RESULTS,
            exports_view(results@) == cap(base + (item(i as int) + walk_children(t@, i as int, k as int, item, descend)), MAX_RESULTS as int),
        decreases m - k,
    {
        let c = node.children[k];
        proof { lemma_walk_children_step(t@, i as int, k as int, item, descend); }
        collect_exports(t, c, python, results);
        proof {
            lemma_cap_step(base, item(i as int) + walk_children(t@, i as int, k as int, item, descend),
                walk(t@, c as int, item, descend), MAX_RESULTS as int);
            assert(item(i as int) + walk_children(t@, i as int, k as int, item, descend) + walk(t@, c as int, item, descend)
                =~= item(i as int) + walk_children(t@, i as int, k + 1, item, descend));
        }
        k = k + 1;
    }
}

/// Find the exports of a file: for TypeScript and JavaScript, every export statement
/// outside other export statements, in pre-order; for Python (only when best-effort
/// Python exports are asked for), the `__all__` assignments and the functions and classes
/// at the top level of each module whose names do not start with `_`. Go and Rust files yield none. At most
/// `MAX_RESULTS` are returned.
pub fn find_exports(t: &SyntaxTree, lang: LanguageId, include_best_effort_python: bool) -> (r: Vec<AstExport>)
    ensures
        exports_view(r@) == cap(all_exports(t@, lang, include_best_effort_python), MAX_RESULTS as int),
{
    t.wf();
    let mut results: Vec<AstExport> = Vec::new();
    assert(exports_view(results@) =~= Seq::<ExportView>::empty());
    match lang {
        LanguageId::Python => {
            if include_best_effort_python {
                collect_exports(t, 0, true, &mut results);
                assert(Seq::<ExportView>::empty() + walk(t@, 0, py_export_item(t@), py_export_descend(t@))
                    =~= walk(t@, 0, py_export_item(t@), py_export_descend(t@)));
            }
        },
        LanguageId::Go | LanguageId::Rust => {},
        _ => {
            collect_exports(t, 0, false, &mut results);
            assert(Seq::<ExportView>::empty() + walk(t@, 0, ts_export_item(t@), ts_export_descend(t@))
                =~= walk(t@, 0, ts_export_item(t@), ts_export_descend(t@)));
        },
    }
    results
}

// ---------------------------------------------------------------------------
// Laws
// ---------------------------------------------------------------------------

/// Whether a child of an export statement is one of its keywords (`export`, `default`)
/// or the closing `;`.
pub open spec fn export_keyword(t: Seq<SyntaxNode>, x: int) -> bool {
    t[x].kind@ == "export"@ || t[x].kind@ == "default"@ || t[x].kind@ == ";"@
}

/// The export kind a declaration child gives: `Class` for a class declaration,
/// `Function` for a function declaration.
pub open spec fn declared_kind(k: Seq<char>) -> ExportKind {
    if k == "class_declaration"@ { ExportKind::Class } else { ExportKind::Function }
}

proof fn lemma_keyword_kinds(k: Seq<char>)
    requires
        k == "export"@ || k == "default"@ || k == ";"@,
    ensures
        k != "type"@,
        k != "function_declaration"@,
        k != "generator_function_declaration"@,
        k != "class_declaration"@,
        k != "lexical_declaration"@,
        k != "variable_declaration"@,
        k != "type_alias_declaration"@,
        k != "interface_declaration"@,
        k != "enum_declaration"@,
        k != "export_clause"@,
        k != "from_clause"@,
        k != "namespace_export"@,
        k != "call_expression"@,
        k != "identifier"@,
{
    reveal_strlit("export");
    reveal_strlit("default");
    reveal_strlit(";");
    reveal_strlit("type");
    reveal_strlit("function_declaration");
    reveal_strlit("generator_function_declaration");
    reveal_strlit("class_declaration");
    reveal_strlit("lexical_declaration");
    reveal_strlit("variable_declaration");
    reveal_strlit("type_alias_declaration");
    reveal_strlit("interface_declaration");
    reveal_strlit("enum_declaration");
    reveal_strlit("export_clause");
    reveal_strlit("from_clause");
    reveal_strlit("namespace_export");
    reveal_strlit("call_expression");
    reveal_strlit("identifier");
    assert("export"@.len() == 6);
    assert("default"@.len() == 7);
    assert(";"@.len() == 1);
    assert("type"@.len() == 4);
    assert("function_declaration"@.len() == 20);
    assert("generator_function_declaration"@.len() == 30);
    assert("class_declaration"@.len() == 17);
    assert("lexical_declaration"@.len() == 19);
    assert("variable_declaration"@.len() == 20);
    assert("type_alias_declaration"@.len() == 22);
    assert("interface_declaration"@.len() == 21);
    assert("enum_declaration"@.len() == 16);
    assert("export_clause"@.len() == 13);
    assert("from_clause"@.len() == 11);
    assert("namespace_export"@.len() == 16);
    assert("call_expression"@.len() == 15);
    assert("identifier"@.len() == 10);
}

proof fn lemma_declaration_kinds(k: Seq<char>)
    requires
        k == "class_declaration"@ || k == "function_declaration"@,
    ensures
        k != "default"@,
        k != "type"@,
        k != "generator_function_declaration"@,
        "class_declaration"@ != "function_declaration"@,
{
    reveal_strlit("class_declaration");
    reveal_strlit("function_declaration");
    reveal_strlit("default");
    reveal_strlit("type");
    reveal_strlit("generator_function_declaration");
    assert("class_declaration"@.len() == 17);
    assert("function_declaration"@.len() == 20);
    assert("default"@.len() == 7);
    assert("type"@.len() == 4);
    assert("generator_function_declaration"@.len() == 30);
}

proof fn lemma_declaration_export_upto(t: Seq<SyntaxNode>, n: int, k: int, p: int)
    requires
        0 <= p < child_count_of(t, n),
        0 <= k <= child_count_of(t, n),
        kind_is(t, child_of(t, n, p), "class_declaration"@) || kind_is(t, child_of(t, n, p), "function_declaration"@),
        forall|j: int| 0 <= j < child_count_of(t, n) && j != p ==> export_keyword(t, #[trigger] child_of(t, n, j)),
    ensures
        export_upto(t, n, k).kind == (if k > p { declared_kind(t[child_of(t, n, p)].kind@) } else { ExportKind::Unknown }),
        export_upto(t, n, k).name == (if k > p { deep_name(t, child_of(t, n, p)) } else { None }),
    decreases k,
{
    if k > 0 {
        lemma_declaration_export_upto(t, n, k - 1, p);
        let x = child_of(t, n, k - 1);
        let st = export_upto(t, n, k - 1);
        if k - 1 != p {
            assert(export_keyword(t, x));
            lemma_keyword_kinds(t[x].kind@);
            assert(!kind_is(t, x, "type"@));
            assert(!kind_is(t, x, "function_declaration"@));
            assert(!kind_is(t, x, "class_declaration"@));
            assert(!kind_is(t, x, "call_expression"@) && !kind_is(t, x, "identifier"@));
            assert(export_step(t, st, x).kind == st.kind);
        } else {
            lemma_declaration_kinds(t[x].kind@);
            assert(!kind_is(t, x, "default"@));
            assert(!kind_is(t, x, "type"@));
            assert(export_step(t, st, x).kind == declared_kind(t[x].kind@));
        }
    }
}

/// An export statement made of `export` (and `default`) around one class declaration is
/// a `Class` export, and around one function declaration a `Function` export, named by
/// the declaration: for any export statement whose other children are only the
/// keywords `export`, `default` and a closing `;`.
pub proof fn law_declaration_export_kind(t: Seq<SyntaxNode>, n: int, p: int)
    requires
        0 <= p < child_count_of(t, n),
        kind_is(t, child_of(t, n, p), "class_declaration"@) || kind_is(t, child_of(t, n, p), "function_declaration"@),
        forall|j: int| 0 <= j < child_count_of(t, n) && j != p ==> export_keyword(t, #[trigger] child_of(t, n, j)),
    ensures
        ts_export(t, n).kind == (if kind_is(t, child_of(t, n, p), "class_declaration"@) { ExportKind::Class } else { ExportKind::Function }),
        ts_export(t, n).name == deep_name(t, child_of(t, n, p)),
{
    lemma_declaration_export_upto(t, n, child_count_of(t, n), p);
}

} // verus!
