//! Class definitions at the top level of TypeScript/JavaScript and Python files.
use vstd::prelude::*;

use super::{
    extract_identifier_name, has_anonymous_child, has_child_kind, identifier_name,
    trimmed_node_text, trimmed_text,
};
use crate::config::defaults::{MAX_RESULTS, MAX_TEXT_BYTES};
use crate::shared::{LanguageId, Range, is_ts_js, opt_text, texts};
use crate::syntax::{
    SyntaxNode, SyntaxTree, cap, child_by_field, child_count_of, child_of, field_child,
    first_named_child, has_kind, kind_is, lemma_cap_full, lemma_cap_step, named_child_from,
    node_range, node_range_spec, tree_wf,
};
use crate::text::{str_eq, string_bytes};

verus! {

/// A class found in a file.
#[derive(Debug)]
pub struct AstClass {
    pub name: Option<String>,
    pub extends_text: Option<String>,
    pub implements_text: Option<String>,
    pub decorators_text: Option<Vec<String>>,
    pub methods: Option<Vec<AstClassMethod>>,
    pub range: Range,
    pub is_default_export: bool,
    pub is_abstract: bool,
    pub source_text: Option<String>,
}

/// The kind of a class member.
#[derive(Debug, Clone, Copy, PartialEq, Eq, Structural)]
pub enum ClassMethodKind {
    Method,
    Constructor,
    Getter,
    Setter,
    Static,
    Abstract,
    Unknown,
}

/// A member of a class.
#[derive(Debug)]
pub struct AstClassMethod {
    pub name: String,
    pub kind: ClassMethodKind,
    pub range: Range,
}

/// Options of a class search.
#[derive(Debug, Clone, Copy)]
pub struct ClassOptions {
    pub max_results: usize,
    pub include_methods: bool,
    pub include_extends: bool,
    pub include_implements: bool,
    pub include_decorators: bool,
}

impl Default for ClassOptions {
    fn default() -> (r: Self)
        ensures
            r.max_results == MAX_RESULTS,
            r.include_methods && r.include_extends && r.include_implements && r.include_decorators,
    {
        ClassOptions {
            max_results: MAX_RESULTS,
            include_methods: true,
            include_extends: true,
            include_implements: true,
            include_decorators: true,
        }
    }
}

/// A class member as plain values.
pub type MethodView = (Seq<char>, ClassMethodKind, Range);

/// A class as plain values; its source text is given by its UTF-8 bytes.
pub struct ClassView {
    pub name: Option<Seq<char>>,
    pub extends_text: Option<Seq<char>>,
    pub implements_text: Option<Seq<char>>,
    pub decorators_text: Option<Seq<Seq<char>>>,
    pub methods: Option<Seq<MethodView>>,
    pub range: Range,
    pub is_default_export: bool,
    pub is_abstract: bool,
    pub source_bytes: Option<Seq<u8>>,
}

/// The plain-value view of a class member.
pub open spec fn method_view(m: AstClassMethod) -> MethodView {
    (m.name@, m.kind, m.range)
}

/// The plain-value view of a list of class members.
pub open spec fn methods_view(v: Seq<AstClassMethod>) -> Seq<MethodView> {
    v.map_values(|m: AstClassMethod| method_view(m))
}

/// The plain-value view of a class.
pub open spec fn class_view(c: AstClass) -> ClassView {
    ClassView {
        name: opt_text(c.name),
        extends_text: opt_text(c.extends_text),
        implements_text: opt_text(c.implements_text),
        decorators_text: match c.decorators_text { Some(d) => Some(texts(d@)), None => None },
        methods: match c.methods { Some(m) => Some(methods_view(m@)), None => None },
        range: c.range,
        is_default_export: c.is_default_export,
        is_abstract: c.is_abstract,
        source_bytes: match c.source_text { Some(s) => Some(string_bytes(s@)), None => None },
    }
}

/// The plain-value view of a list of classes.
pub open spec fn classes_view(v: Seq<AstClass>) -> Seq<ClassView> {
    v.map_values(|c: AstClass| class_view(c))
}

/// A list reported only when it is not empty.
pub open spec fn nonempty<A>(s: Seq<A>) -> Option<Seq<A>> {
    if s.len() == 0 { None } else { Some(s) }
}

/// A missing member name.
pub open spec fn anonymous_name() -> Seq<char> {
    "<anonymous>"@
}

// ---------------------------------------------------------------------------
// Heritage
// ---------------------------------------------------------------------------

/// The text of the first named child of node `x`.
pub open spec fn first_named_text(t: Seq<SyntaxNode>, x: int) -> Option<Seq<char>> {
    match named_child_from(t, x, 0) {
        Some(c) => Some(t[c].text@),
        None => None,
    }
}

/// Among the children of node `h` from position `k` on, the first of kind `clause` that
/// has a named child: that child's text.
pub open spec fn clause_text_from(t: Seq<SyntaxNode>, h: int, k: int, clause: Seq<char>) -> Option<Seq<char>>
    decreases child_count_of(t, h) - k,
{
    if 0 <= k < child_count_of(t, h) {
        let x = child_of(t, h, k);
        if t[x].kind@ == clause && first_named_text(t, x) is Some {
            first_named_text(t, x)
        } else {
            clause_text_from(t, h, k + 1, clause)
        }
    } else {
        None
    }
}

/// The extended class of TS/JS class node `n`: the first `class_heritage` child that holds
/// an `extends_clause` with a named child gives that child's text.
pub open spec fn ts_extends_from(t: Seq<SyntaxNode>, n: int, k: int) -> Option<Seq<char>>
    decreases child_count_of(t, n) - k,
{
    if 0 <= k < child_count_of(t, n) {
        let h = child_of(t, n, k);
        if kind_is(t, h, "class_heritage"@) && clause_text_from(t, h, 0, "extends_clause"@) is Some {
            clause_text_from(t, h, 0, "extends_clause"@)
        } else {
            ts_extends_from(t, n, k + 1)
        }
    } else {
        None
    }
}

/// The implemented interface of TS/JS class node `n`, from its `heritage` field.
pub open spec fn ts_implements(t: Seq<SyntaxNode>, n: int) -> Option<Seq<char>> {
    match field_child(t, n, "heritage"@) {
        Some(h) => clause_text_from(t, h, 0, "implements_clause"@),
        None => None,
    }
}

/// The texts of the `decorator` children among the first `k` children of node `n`.
pub open spec fn decorators_upto(t: Seq<SyntaxNode>, n: int, k: int) -> Seq<Seq<char>>
    decreases k,
{
    if k <= 0 {
        Seq::empty()
    } else {
        let x = child_of(t, n, k - 1);
        decorators_upto(t, n, k - 1) + (if kind_is(t, x, "decorator"@) { seq![t[x].text@] } else { Seq::empty() })
    }
}

/// The base-class list of Python class node `n`: the first `argument_list` child after an
/// `identifier` child, looking from position `k` on.
pub open spec fn py_bases_from(t: Seq<SyntaxNode>, n: int, k: int, past_name: bool) -> Option<Seq<char>>
    decreases child_count_of(t, n) - k,
{
    if 0 <= k < child_count_of(t, n) {
        let x = child_of(t, n, k);
        if kind_is(t, x, "identifier"@) {
            py_bases_from(t, n, k + 1, true)
        } else if past_name && kind_is(t, x, "argument_list"@) {
            Some(t[x].text@)
        } else {
            py_bases_from(t, n, k + 1, past_name)
        }
    } else {
        None
    }
}

// ---------------------------------------------------------------------------
// Members
// ---------------------------------------------------------------------------

/// The kind of TS/JS method `m` named `name`.
pub open spec fn ts_method_kind(t: Seq<SyntaxNode>, m: int, name: Seq<char>) -> ClassMethodKind {
    if name == "constructor"@ {
        ClassMethodKind::Constructor
    } else if has_child_kind(t, m, "get"@) {
        ClassMethodKind::Getter
    } else if has_child_kind(t, m, "set"@) {
        ClassMethodKind::Setter
    } else if has_child_kind(t, m, "static"@) {
        ClassMethodKind::Static
    } else if has_child_kind(t, m, "abstract"@) {
        ClassMethodKind::Abstract
    } else {
        ClassMethodKind::Method
    }
}

/// A name, or `<anonymous>`.
pub open spec fn name_or_anonymous(n: Option<Seq<char>>) -> Seq<char> {
    match n { Some(x) => x, None => anonymous_name() }
}

/// The member child `c` of a TS/JS class body contributes.
pub open spec fn ts_member(t: Seq<SyntaxNode>, c: int) -> Seq<MethodView> {
    if !t[c].named {
        Seq::empty()
    } else if kind_is(t, c, "method_definition"@) {
        let name = name_or_anonymous(identifier_name(t, c));
        seq![(name, ts_method_kind(t, c, name), node_range_spec(t[c]))]
    } else if kind_is(t, c, "public_field_definition"@) || kind_is(t, c, "field_definition"@) {
        match identifier_name(t, c) {
            Some(name) => seq![(name, ClassMethodKind::Unknown, node_range_spec(t[c]))],
            None => Seq::empty(),
        }
    } else {
        Seq::empty()
    }
}

/// The method a Python function node `f` gives.
pub open spec fn py_method(t: Seq<SyntaxNode>, f: int) -> MethodView {
    let name = name_or_anonymous(identifier_name(t, f));
    (name, if name == "__init__"@ { ClassMethodKind::Constructor } else { ClassMethodKind::Method }, node_range_spec(t[f]))
}

/// The member child `c` of a Python class body contributes.
pub open spec fn py_member(t: Seq<SyntaxNode>, c: int) -> Seq<MethodView> {
    if !t[c].named {
        Seq::empty()
    } else if kind_is(t, c, "function_definition"@) {
        seq![py_method(t, c)]
    } else if kind_is(t, c, "decorated_definition"@) {
        match field_child(t, c, "definition"@) {
            Some(d) => if kind_is(t, d, "function_definition"@) { seq![py_method(t, d)] } else { Seq::empty() },
            None => Seq::empty(),
        }
    } else {
        Seq::empty()
    }
}

/// The members among the first `k` children of class body `b`.
pub open spec fn members_upto(t: Seq<SyntaxNode>, b: int, k: int, python: bool) -> Seq<MethodView>
    decreases k,
{
    if k <= 0 {
        Seq::empty()
    } else {
        let c = child_of(t, b, k - 1);
        members_upto(t, b, k - 1, python) + (if python { py_member(t, c) } else { ts_member(t, c) })
    }
}

/// The members of class node `n`, from its `body` field.
pub open spec fn class_members(t: Seq<SyntaxNode>, n: int, python: bool) -> Seq<MethodView> {
    match field_child(t, n, "body"@) {
        Some(b) => members_upto(t, b, child_count_of(t, b), python),
        None => Seq::empty(),
    }
}

// ---------------------------------------------------------------------------
// Classes
// ---------------------------------------------------------------------------

/// The class reported for TS/JS class node `n`.
pub open spec fn ts_class(t: Seq<SyntaxNode>, n: int, is_default_export: bool, is_abstract: bool, opts: ClassOptions) -> ClassView {
    ClassView {
        name: identifier_name(t, n),
        extends_text: if opts.include_extends { ts_extends_from(t, n, 0) } else { None },
        implements_text: if opts.include_implements { ts_implements(t, n) } else { None },
        decorators_text: if opts.include_decorators { nonempty(decorators_upto(t, n, child_count_of(t, n))) } else { None },
        methods: if opts.include_methods { nonempty(class_members(t, n, false)) } else { None },
        range: node_range_spec(t[n]),
        is_default_export,
        is_abstract,
        source_bytes: Some(trimmed_text(t, n, MAX_TEXT_BYTES as int)),
    }
}

/// The class reported for Python class node `n`.
pub open spec fn py_class(t: Seq<SyntaxNode>, n: int, opts: ClassOptions) -> ClassView {
    ClassView {
        name: identifier_name(t, n),
        extends_text: if opts.include_extends { py_bases_from(t, n, 0, false) } else { None },
        implements_text: None,
        decorators_text: None,
        methods: if opts.include_methods { nonempty(class_members(t, n, true)) } else { None },
        range: node_range_spec(t[n]),
        is_default_export: false,
        is_abstract: false,
        source_bytes: Some(trimmed_text(t, n, MAX_TEXT_BYTES as int)),
    }
}

/// The class an export statement's child `x` declares, if it declares one.
pub open spec fn ts_exported_class(t: Seq<SyntaxNode>, x: int, opts: ClassOptions) -> Seq<ClassView> {
    if kind_is(t, x, "class_declaration"@) || kind_is(t, x, "class_expression"@) {
        seq![ts_class(t, x, true, false, opts)]
    } else if kind_is(t, x, "abstract_class_declaration"@) {
        seq![ts_class(t, x, true, true, opts)]
    } else {
        Seq::empty()
    }
}

/// The classes among the first `k` children of export statement `e`.
pub open spec fn exported_classes_upto(t: Seq<SyntaxNode>, e: int, k: int, opts: ClassOptions) -> Seq<ClassView>
    decreases k,
{
    if k <= 0 { Seq::empty() } else { exported_classes_upto(t, e, k - 1, opts) + ts_exported_class(t, child_of(t, e, k - 1), opts) }
}

/// The classes top-level child `c` of a TS/JS file contributes.
pub open spec fn ts_top_class(t: Seq<SyntaxNode>, c: int, opts: ClassOptions) -> Seq<ClassView> {
    if !t[c].named {
        Seq::empty()
    } else if kind_is(t, c, "class_declaration"@) || kind_is(t, c, "class_expression"@) {
        seq![ts_class(t, c, false, false, opts)]
    } else if kind_is(t, c, "abstract_class_declaration"@) {
        seq![ts_class(t, c, false, true, opts)]
    } else if kind_is(t, c, "export_statement"@) {
        exported_classes_upto(t, c, child_count_of(t, c), opts)
    } else {
        Seq::empty()
    }
}

/// The classes top-level child `c` of a Python file contributes.
pub open spec fn py_top_class(t: Seq<SyntaxNode>, c: int, opts: ClassOptions) -> Seq<ClassView> {
    if !t[c].named {
        Seq::empty()
    } else if kind_is(t, c, "class_definition"@) {
        seq![py_class(t, c, opts)]
    } else if kind_is(t, c, "decorated_definition"@) {
        match field_child(t, c, "definition"@) {
            Some(d) => if kind_is(t, d, "class_definition"@) { seq![py_class(t, d, opts)] } else { Seq::empty() },
            None => Seq::empty(),
        }
    } else {
        Seq::empty()
    }
}

/// The classes among the first `k` children of the root.
pub open spec fn top_classes_upto(t: Seq<SyntaxNode>, k: int, python: bool, opts: ClassOptions) -> Seq<ClassView>
    decreases k,
{
    if k <= 0 {
        Seq::empty()
    } else {
        let c = child_of(t, 0, k - 1);
        top_classes_upto(t, k - 1, python, opts) + (if python { py_top_class(t, c, opts) } else { ts_top_class(t, c, opts) })
    }
}

/// The classes of a file in the given language, before the result limit.
pub open spec fn all_classes(t: Seq<SyntaxNode>, lang: LanguageId, opts: ClassOptions) -> Seq<ClassView> {
    if is_ts_js(lang) {
        top_classes_upto(t, child_count_of(t, 0), false, opts)
    } else if lang == LanguageId::Python {
        top_classes_upto(t, child_count_of(t, 0), true, opts)
    } else {
        Seq::empty()
    }
}

// ---------------------------------------------------------------------------
// Executable parts
// ---------------------------------------------------------------------------

fn first_named_text_exec(t: &SyntaxTree, x: usize) -> (r: Option<String>)
    requires
        x < t@.len(),
    ensures
        opt_text(r) == first_named_text(t@, x as int),
{
    match first_named_child(t, x) {
        Some(c) => Some(t.node(c).text.clone()),
        None => None,
    }
}

fn clause_text(t: &SyntaxTree, h: usize, clause: &str) -> (r: Option<String>)
    requires
        h < t@.len(),
    ensures
        opt_text(r) == clause_text_from(t@, h as int, 0, clause@),
{
    t.wf();
    let node = t.node(h);
    let m = node.children.len();
    let mut k: usize = 0;
    while k < m
        invariant
            tree_wf(t@),
            h < t@.len(),
            node == t@[h as int],
            m == child_count_of(t@, h as int),
            k <= m,
            clause_text_from(t@, h as int, 0, clause@) == clause_text_from(t@, h as int, k as int, clause@),
        decreases m - k,
    {
        let x = node.children[k];
        assert(x as int == child_of(t@, h as int, k as int));
        if has_kind(t, x, clause) {
            let r = first_named_text_exec(t, x);
            if r.is_some() {
                return r;
            }
        }
        k = k + 1;
    }
    None
}

fn extract_ts_js_extends(t: &SyntaxTree, n: usize) -> (r: Option<String>)
    requires
        n < t@.len(),
    ensures
        opt_text(r) == ts_extends_from(t@, n as int, 0),
{
    t.wf();
    let node = t.node(n);
    let m = node.children.len();
    let mut k: usize = 0;
    while k < m
        invariant
            tree_wf(t@),
            n < t@.len(),
            node == t@[n as int],
            m == child_count_of(t@, n as int),
            k <= m,
            ts_extends_from(t@, n as int, 0) == ts_extends_from(t@, n as int, k as int),
        decreases m - k,
    {
        let h = node.children[k];
        assert(h as int == child_of(t@, n as int, k as int));
        if has_kind(t, h, "class_heritage") {
            let r = clause_text(t, h, "extends_clause");
            if r.is_some() {
                return r;
            }
        }
        k = k + 1;
    }
    None
}

fn extract_ts_js_implements(t: &SyntaxTree, n: usize) -> (r: Option<String>)
    requires
        n < t@.len(),
    ensures
        opt_text(r) == ts_implements(t@, n as int),
{
    match child_by_field(t, n, "heritage") {
        Some(h) => clause_text(t, h, "implements_clause"),
        None => None,
    }
}

fn extract_ts_js_decorators(t: &SyntaxTree, n: usize) -> (r: Vec<String>)
    requires
        n < t@.len(),
    ensures
        texts(r@) == decorators_upto(t@, n as int, child_count_of(t@, n as int)),
{
    t.wf();
    let node = t.node(n);
    let m = node.children.len();
    let mut out: Vec<String> = Vec::new();
    let mut k: usize = 0;
    assert(texts(out@) =~= decorators_upto(t@, n as int, 0));
    while k < m
        invariant
            tree_wf(t@),
            n < t@.len(),
            node == t@[n as int],
            m == child_count_of(t@, n as int),
            k <= m,
            texts(out@) == decorators_upto(t@, n as int, k as int),
        decreases m - k,
    {
        let x = node.children[k];
        assert(x as int == child_of(t@, n as int, k as int));
        let ghost before = texts(out@);
        if has_kind(t, x, "decorator") {
            out.push(t.node(x).text.clone());
        }
        assert(texts(out@) =~= decorators_upto(t@, n as int, k + 1));
        k = k + 1;
    }
    out
}

fn extract_py_bases(t: &SyntaxTree, n: usize) -> (r: Option<String>)
    requires
        n < t@.len(),
    ensures
        opt_text(r) == py_bases_from(t@, n as int, 0, false),
{
    t.wf();
    let node = t.node(n);
    let m = node.children.len();
    let mut past_name = false;
    let mut k: usize = 0;
    while k < m
        invariant
            tree_wf(t@),
            n < t@.len(),
            node == t@[n as int],
            m == child_count_of(t@, n as int),
            k <= m,
            py_bases_from(t@, n as int, 0, false) == py_bases_from(t@, n as int, k as int, past_name),
        decreases m - k,
    {
        let x = node.children[k];
        assert(x as int == child_of(t@, n as int, k as int));
        if has_kind(t, x, "identifier") {
            past_name = true;
        } else if past_name && has_kind(t, x, "argument_list") {
            return Some(t.node(x).text.clone());
        }
        k = k + 1;
    }
    None
}

fn ts_method_kind_exec(t: &SyntaxTree, m: usize, name: &String) -> (r: ClassMethodKind)
    requires
        m < t@.len(),
    ensures
        r == ts_method_kind(t@, m as int, name@),
{
    if str_eq(name.as_str(), "constructor") {
        ClassMethodKind::Constructor
    } else if has_anonymous_child(t, m, "get") {
        ClassMethodKind::Getter
    } else if has_anonymous_child(t, m, "set") {
        ClassMethodKind::Setter
    } else if has_anonymous_child(t, m, "static") {
        ClassMethodKind::Static
    } else if has_anonymous_child(t, m, "abstract") {
        ClassMethodKind::Abstract
    } else {
        ClassMethodKind::Method
    }
}

fn name_or_anonymous_exec(n: Option<String>) -> (r: String)
    ensures
        r@ == name_or_anonymous(opt_text(n)),
{
    match n {
        Some(x) => x,
        None => "<anonymous>".to_owned(),
    }
}

fn py_method_exec(t: &SyntaxTree, f: usize) -> (r: AstClassMethod)
    requires
        f < t@.len(),
    ensures
        method_view(r) == py_method(t@, f as int),
{
    let name = name_or_anonymous_exec(extract_identifier_name(t, f));
    let kind = if str_eq(name.as_str(), "__init__") { ClassMethodKind::Constructor } else { ClassMethodKind::Method };
    AstClassMethod { name, kind, range: node_range(t.node(f)) }
}

fn extract_members(t: &SyntaxTree, n: usize, python: bool) -> (r: Vec<AstClassMethod>)
    requires
        n < t@.len(),
    ensures
        methods_view(r@) == class_members(t@, n as int, python),
{
    t.wf();
    let b = match child_by_field(t, n, "body") {
        Some(b) => b,
        None => {
            let v: Vec<AstClassMethod> = Vec::new();
            assert(methods_view(v@) =~= Seq::<MethodView>::empty());
            return v;
        },
    };
    let node = t.node(b);
    let m = node.children.len();
    let mut out: Vec<AstClassMethod> = Vec::new();
    let mut k: usize = 0;
    assert(methods_view(out@) =~= members_upto(t@, b as int, 0, python));
    while k < m
        invariant
            tree_wf(t@),
            b < t@.len(),
            node == t@[b as int],
            m == child_count_of(t@, b as int),
            k <= m,
            methods_view(out@) == members_upto(t@, b as int, k as int, python),
        decreases m - k,
    {
        let c = node.children[k];
        assert(c as int == child_of(t@, b as int, k as int));
        let ghost before = methods_view(out@);
        let cn = t.node(c);
        if cn.named {
            if python {
                if has_kind(t, c, "function_definition") {
                    out.push(py_method_exec(t, c));
                } else if has_kind(t, c, "decorated_definition") {
                    if let Some(d) = child_by_field(t, c, "definition") {
                        if has_kind(t, d, "function_definition") {
                            out.push(py_method_exec(t, d));
                        }
                    }
                }
            } else {
                if has_kind(t, c, "method_definition") {
                    let name = name_or_anonymous_exec(extract_identifier_name(t, c));
                    let kind = ts_method_kind_exec(t, c, &name);
                    out.push(AstClassMethod { name, kind, range: node_range(cn) });
                } else if has_kind(t, c, "public_field_definition") || has_kind(t, c, "field_definition") {
                    if let Some(name) = extract_identifier_name(t, c) {
                        out.push(AstClassMethod { name, kind: ClassMethodKind::Unknown, range: node_range(cn) });
                    }
                }
            }
        }
        assert(methods_view(out@) =~= before + (if python { py_member(t@, c as int) } else { ts_member(t@, c as int) }));
        k = k + 1;
    }
    out
}

fn build_class(t: &SyntaxTree, n: usize, python: bool, is_default_export: bool, is_abstract: bool, opts: &ClassOptions) -> (r: AstClass)
    requires
        n < t@.len(),
        python ==> !is_default_export && !is_abstract,
    ensures
        class_view(r) == (if python { py_class(t@, n as int, *opts) } else { ts_class(t@, n as int, is_default_export, is_abstract, *opts) }),
{
    let name = extract_identifier_name(t, n);
    let extends_text = if !opts.include_extends {
        None
    } else if python {
        extract_py_bases(t, n)
    } else {
        extract_ts_js_extends(t, n)
    };
    let implements_text = if !python && opts.include_implements { extract_ts_js_implements(t, n) } else { None };
    let decorators_text = if !python && opts.include_decorators {
        let decs = extract_ts_js_decorators(t, n);
        if decs.len() == 0 { None } else { Some(decs) }
    } else {
        None
    };
    let methods = if opts.include_methods {
        let ms = extract_members(t, n, python);
        if ms.len() == 0 { None } else { Some(ms) }
    } else {
        None
    };
    let source_text = trimmed_node_text(t, n, MAX_TEXT_BYTES);
    let r = AstClass {
        name,
        extends_text,
        implements_text,
        decorators_text,
        methods,
        range: node_range(t.node(n)),
        is_default_export,
        is_abstract,
        source_text: Some(source_text),
    };
    assert(class_view(r) == (if python { py_class(t@, n as int, *opts) } else { ts_class(t@, n as int, is_default_export, is_abstract, *opts) }));
    r
}

fn push_class(t: &SyntaxTree, n: usize, python: bool, is_default_export: bool, is_abstract: bool, opts: &ClassOptions, results: &mut Vec<AstClass>)
    requires
        n < t@.len(),
        python ==> !is_default_export && !is_abstract,
        old(results)@.len() <= opts.max_results,
    ensures
        final(results)@.len() <= opts.max_results,
        classes_view(final(results)@) == cap(classes_view(old(results)@)
            + seq![if python { py_class(t@, n as int, *opts) } else { ts_class(t@, n as int, is_default_export, is_abstract, *opts) }],
            opts.max_results as int),
{
    let ghost base = classes_view(results@);
    let ghost item = seq![if python { py_class(t@, n as int, *opts) } else { ts_class(t@, n as int, is_default_export, is_abstract, *opts) }];
    if results.len() >= opts.max_results {
        proof { lemma_cap_full(base, item, opts.max_results as int); }
        return;
    }
    let c = build_class(t, n, python, is_default_export, is_abstract, opts);
    results.push(c);
    assert(classes_view(results@) =~= base + item);
}

/// A list no longer than the cap is its own capping.
proof fn lemma_cap_same(s: Seq<ClassView>, m: int)
    requires
        s.len() <= m,
    ensures
        cap(s, m) == s,
{
}

fn collect_exported_classes(t: &SyntaxTree, e: usize, opts: &ClassOptions, results: &mut Vec<AstClass>)
    requires
        e < t@.len(),
        old(results)@.len() <= opts.max_results,
    ensures
        final(results)@.len() <= opts.max_results,
        classes_view(final(results)@) == cap(classes_view(old(results)@)
            + exported_classes_upto(t@, e as int, child_count_of(t@, e as int), *opts), opts.max_results as int),
{
    t.wf();
    let ghost base = classes_view(results@);
    let node = t.node(e);
    let m = node.children.len();
    let mut k: usize = 0;
    assert(base + exported_classes_upto(t@, e as int, 0, *opts) =~= base);
    while k < m
        invariant
            tree_wf(t@),
            e < t@.len(),
            node == t@[e as int],
            m == child_count_of(t@, e as int),
            k <= m,
            results@.len() <= opts.max_results,
            classes_view(results@) == cap(base + exported_classes_upto(t@, e as int, k as int, *opts), opts.max_results as int),
        decreases m - k,
    {
        let x = node.children[k];
        assert(x as int == child_of(t@, e as int, k as int));
        let ghost prev = exported_classes_upto(t@, e as int, k as int, *opts);
        if has_kind(t, x, "class_declaration") || has_kind(t, x, "class_expression") {
            push_class(t, x, false, true, false, opts, results);
        } else if has_kind(t, x, "abstract_class_declaration") {
            push_class(t, x, false, true, true, opts, results);
        } else {
            assert(base + prev + Seq::<ClassView>::empty() =~= base + prev);
            proof { lemma_cap_same(classes_view(results@), opts.max_results as int); }
        }
        proof {
            lemma_cap_step(base, prev, ts_exported_class(t@, x as int, *opts), opts.max_results as int);
        }
        k = k + 1;
    }
}

/// Find the classes at the top level of a file: for TypeScript and JavaScript, class and
/// abstract class declarations and expressions, directly or in export statements (those
/// flagged as default exports); for Python, class definitions, decorated or not. Go and
/// Rust files yield none. At most `max_results` are returned, in source order.
pub fn find_classes(t: &SyntaxTree, lang: LanguageId, opts: &ClassOptions) -> (r: Vec<AstClass>)
    ensures
        classes_view(r@) == cap(all_classes(t@, lang, *opts), opts.max_results as int),
{
    t.wf();
    let mut results: Vec<AstClass> = Vec::new();
    let python = match lang {
        LanguageId::Python => true,
        LanguageId::Go | LanguageId::Rust => {
            assert(classes_view(results@) =~= Seq::<ClassView>::empty());
            return results;
        },
        _ => false,
    };
    let ghost base = classes_view(results@);
    let node = t.node(0);
    let m = node.children.len();
    let mut k: usize = 0;
    assert(base + top_classes_upto(t@, 0, python, *opts) =~= Seq::<ClassView>::empty());
    while k < m
        invariant
            tree_wf(t@),
            node == t@[0],
            m == child_count_of(t@, 0),
            k <= m,
            base == Seq::<ClassView>::empty(),
            python == (lang == LanguageId::Python),
            results@.len() <= opts.max_results,
            classes_view(results@) == cap(base + top_classes_upto(t@, k as int, python, *opts), opts.max_results as int),
        decreases m - k,
    {
        let c = node.children[k];
        assert(c as int == child_of(t@, 0, k as int));
        let ghost prev = top_classes_upto(t@, k as int, python, *opts);
        let ghost item = if python { py_top_class(t@, c as int, *opts) } else { ts_top_class(t@, c as int, *opts) };
        if results.len() >= opts.max_results {
            proof { lemma_cap_full(classes_view(results@), item, opts.max_results as int); }
        } else if !t.node(c).named {
            assert(base + prev + item =~= base + prev);
        } else if python {
            if has_kind(t, c, "class_definition") {
                push_class(t, c, true, false, false, opts, &mut results);
            } else if has_kind(t, c, "decorated_definition") {
                match child_by_field(t, c, "definition") {
                    Some(d) => {
                        if has_kind(t, d, "class_definition") {
                            push_class(t, d, true, false, false, opts, &mut results);
                        } else {
                            assert(base + prev + item =~= base + prev);
                        }
                    },
                    None => {
                        assert(base + prev + item =~= base + prev);
                    },
                }
            } else {
                assert(base + prev + item =~= base + prev);
            }
        } else {
            if has_kind(t, c, "class_declaration") || has_kind(t, c, "class_expression") {
                push_class(t, c, false, false, false, opts, &mut results);
            } else if has_kind(t, c, "abstract_class_declaration") {
                push_class(t, c, false, false, true, opts, &mut results);
            } else if has_kind(t, c, "export_statement") {
                collect_exported_classes(t, c, opts, &mut results);
            } else {
                assert(base + prev + item =~= base + prev);
            }
        }
        proof {
            lemma_cap_step(base, prev, item, opts.max_results as int);
            assert(base + prev + item =~= base + (prev + item));
        }
        k = k + 1;
    }
    proof {
        assert(base + top_classes_upto(t@, m as int, python, *opts) =~= all_classes(t@, lang, *opts));
    }
    results
}

// ---------------------------------------------------------------------------
// Laws
// ---------------------------------------------------------------------------

/// Every member in `ms` is a constructor when it is named `__init__` and an ordinary
/// method otherwise.
pub open spec fn init_is_constructor(ms: Seq<MethodView>) -> bool {
    forall|j: int| 0 <= j < ms.len() ==> (#[trigger] ms[j]).1 == (if ms[j].0 == "__init__"@ {
        ClassMethodKind::Constructor
    } else {
        ClassMethodKind::Method
    })
}

/// Node `d` is a function definition that member `m` stands for: `m` spans it and
/// carries its name.
pub open spec fn definition_of(t: Seq<SyntaxNode>, d: int, m: MethodView) -> bool {
    kind_is(t, d, "function_definition"@) && node_range_spec(t[d]) == m.2
        && name_or_anonymous(identifier_name(t, d)) == m.0
}

/// Member `m` stands for a function definition of the tree.
pub open spec fn member_is_definition(t: Seq<SyntaxNode>, m: MethodView) -> bool {
    exists|d: int| #[trigger] definition_of(t, d, m)
}

/// Every member in `ms` stands for a function definition of the tree.
pub open spec fn members_are_definitions(t: Seq<SyntaxNode>, ms: Seq<MethodView>) -> bool {
    forall|j: int| 0 <= j < ms.len() ==> member_is_definition(t, #[trigger] ms[j])
}

/// Every class in `cs` that lists members lists function definitions of the tree, a
/// constructor exactly for `__init__`.
pub open spec fn classes_init_is_constructor(t: Seq<SyntaxNode>, cs: Seq<ClassView>) -> bool {
    forall|i: int| 0 <= i < cs.len() ==> match (#[trigger] cs[i]).methods {
        Some(ms) => init_is_constructor(ms) && members_are_definitions(t, ms),
        None => true,
    }
}

proof fn lemma_py_members_kinds(t: Seq<SyntaxNode>, b: int, k: int)
    ensures
        init_is_constructor(members_upto(t, b, k, true)),
        members_are_definitions(t, members_upto(t, b, k, true)),
    decreases k,
{
    if k > 0 {
        lemma_py_members_kinds(t, b, k - 1);
        let a = members_upto(t, b, k - 1, true);
        let x = child_of(t, b, k - 1);
        let c = py_member(t, x);
        assert(init_is_constructor(c));
        assert(members_are_definitions(t, c)) by {
            assert forall|j: int| 0 <= j < c.len() implies member_is_definition(t, #[trigger] c[j]) by {
                if kind_is(t, x, "function_definition"@) {
                    assert(definition_of(t, x, c[j]));
                } else {
                    let d = field_child(t, x, "definition"@).unwrap();
                    assert(definition_of(t, d, c[j]));
                }
            }
        }
        let s = members_upto(t, b, k, true);
        assert(s == a + c);
        assert forall|j: int| 0 <= j < s.len() implies (#[trigger] s[j]).1 == (if s[j].0 == "__init__"@ {
            ClassMethodKind::Constructor
        } else {
            ClassMethodKind::Method
        }) by {
            if j < a.len() {
                assert(s[j] == a[j]);
            } else {
                assert(s[j] == c[j - a.len()]);
            }
        }
        assert forall|j: int| 0 <= j < s.len() implies member_is_definition(t, #[trigger] s[j]) by {
            if j < a.len() {
                assert(s[j] == a[j]);
            } else {
                assert(s[j] == c[j - a.len()]);
            }
        }
    }
}

proof fn lemma_py_top_kinds(t: Seq<SyntaxNode>, k: int, opts: ClassOptions)
    ensures
        classes_init_is_constructor(t, top_classes_upto(t, k, true, opts)),
    decreases k,
{
    if k > 0 {
        lemma_py_top_kinds(t, k - 1, opts);
        let a = top_classes_upto(t, k - 1, true, opts);
        let c = py_top_class(t, child_of(t, 0, k - 1), opts);
        assert(classes_init_is_constructor(t, c)) by {
            assert forall|i: int| 0 <= i < c.len() implies match (#[trigger] c[i]).methods {
                Some(ms) => init_is_constructor(ms) && members_are_definitions(t, ms),
                None => true,
            } by {
                let n = if kind_is(t, child_of(t, 0, k - 1), "class_definition"@) {
                    child_of(t, 0, k - 1)
                } else {
                    field_child(t, child_of(t, 0, k - 1), "definition"@).unwrap()
                };
                assert(c[i] == py_class(t, n, opts));
                match field_child(t, n, "body"@) {
                    Some(b) => lemma_py_members_kinds(t, b, child_count_of(t, b)),
                    None => {},
                }
            }
        }
        let s = top_classes_upto(t, k, true, opts);
        assert(s == a + c);
        assert forall|i: int| 0 <= i < s.len() implies match (#[trigger] s[i]).methods {
            Some(ms) => init_is_constructor(ms) && members_are_definitions(t, ms),
            None => true,
        } by {
            if i < a.len() {
                assert(s[i] == a[i]);
            } else {
                assert(s[i] == c[i - a.len()]);
            }
        }
    }
}

/// In a Python file, every member `find_classes` reports for a class stands for a
/// function definition of the tree (spans it and carries its name), and is a constructor
/// exactly when it is named `__init__`, an ordinary method otherwise: for any tree and
/// any options.
pub proof fn law_python_init_is_constructor(t: Seq<SyntaxNode>, opts: ClassOptions)
    ensures
        classes_init_is_constructor(t, cap(all_classes(t, LanguageId::Python, opts), opts.max_results as int)),
{
    let all = all_classes(t, LanguageId::Python, opts);
    lemma_py_top_kinds(t, child_count_of(t, 0), opts);
    assert(all == top_classes_upto(t, child_count_of(t, 0), true, opts));
    let r = cap(all, opts.max_results as int);
    assert forall|i: int| 0 <= i < r.len() implies match (#[trigger] r[i]).methods {
        Some(ms) => init_is_constructor(ms) && members_are_definitions(t, ms),
        None => true,
    } by {
        assert(r[i] == all[i]);
    }
}

} // verus!
