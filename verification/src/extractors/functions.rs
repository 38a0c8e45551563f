//! Function definitions in TypeScript/JavaScript and Python syntax trees.
use vstd::prelude::*;

use super::{
    extract_field_text, extract_identifier_name, field_text, has_anonymous_child, has_child_kind,
    identifier_name, trimmed_node_text, trimmed_text,
};
use crate::config::defaults::{MAX_RESULTS, MAX_TEXT_BYTES};
use crate::shared::{LanguageId, Range, is_ts_js, opt_text};
use crate::syntax::{
    SyntaxNode, SyntaxTree, cap, child_by_field, child_count_of, child_of, field_child, has_kind,
    kind_child_from, kind_is, lemma_cap_full, lemma_cap_step, node_range, node_range_spec, text_in,
    tree_wf,
};
use crate::text::{str_eq, string_bytes};

verus! {

/// A function definition found in a file.
#[derive(Debug)]
pub struct AstFunction {
    pub name: Option<String>,
    pub kind: FunctionKind,
    pub parameters: Option<Vec<AstParameter>>,
    pub return_type_text: Option<String>,
    pub range: Range,
    pub async_: bool,
    pub exported: bool,
    pub parent_name: Option<String>,
    pub signature_text: Option<String>,
}

/// The kind of a function.
#[derive(Debug, Clone, Copy, PartialEq, Eq, Structural)]
pub enum FunctionKind {
    Function,
    Generator,
    Arrow,
    Method,
    Lambda,
    Unknown,
}

/// One parameter of a function.
#[derive(Debug)]
pub struct AstParameter {
    pub name: String,
    pub type_text: Option<String>,
    pub optional: bool,
    pub default_value_text: Option<String>,
}

/// Options of a function search.
#[derive(Debug, Clone, Copy)]
pub struct FunctionOptions {
    pub max_results: usize,
    pub include_anonymous: bool,
    pub include_parameters: bool,
    pub include_return_type: bool,
    pub include_signature: bool,
}

impl Default for FunctionOptions {
    fn default() -> (r: Self)
        ensures
            r.max_results == MAX_RESULTS,
            r.include_anonymous && r.include_parameters && r.include_return_type && r.include_signature,
    {
        FunctionOptions {
            max_results: MAX_RESULTS,
            include_anonymous: true,
            include_parameters: true,
            include_return_type: true,
            include_signature: true,
        }
    }
}

/// A parameter as plain values.
pub struct ParamView {
    pub name: Seq<char>,
    pub type_text: Option<Seq<char>>,
    pub optional: bool,
    pub default_value_text: Option<Seq<char>>,
}

/// A function as plain values; the signature is given by its UTF-8 bytes.
pub struct FunctionView {
    pub name: Option<Seq<char>>,
    pub kind: FunctionKind,
    pub parameters: Option<Seq<ParamView>>,
    pub return_type_text: Option<Seq<char>>,
    pub range: Range,
    pub async_: bool,
    pub exported: bool,
    pub parent_name: Option<Seq<char>>,
    pub signature_bytes: Option<Seq<u8>>,
}

/// The plain-value view of a parameter.
pub open spec fn param_view(p: AstParameter) -> ParamView {
    ParamView { name: p.name@, type_text: opt_text(p.type_text), optional: p.optional, default_value_text: opt_text(p.default_value_text) }
}

/// The plain-value view of a list of parameters.
pub open spec fn params_view(v: Seq<AstParameter>) -> Seq<ParamView> {
    v.map_values(|p: AstParameter| param_view(p))
}

/// The plain-value view of a function.
pub open spec fn function_view(f: AstFunction) -> FunctionView {
    FunctionView {
        name: opt_text(f.name),
        kind: f.kind,
        parameters: match f.parameters { Some(ps) => Some(params_view(ps@)), None => None },
        return_type_text: opt_text(f.return_type_text),
        range: f.range,
        async_: f.async_,
        exported: f.exported,
        parent_name: opt_text(f.parent_name),
        signature_bytes: match f.signature_text { Some(s) => Some(string_bytes(s@)), None => None },
    }
}

/// The plain-value view of a list of functions.
pub open spec fn functions_view(v: Seq<AstFunction>) -> Seq<FunctionView> {
    v.map_values(|f: AstFunction| function_view(f))
}

/// A missing parameter name.
pub open spec fn unknown_name() -> Seq<char> {
    "<unknown>"@
}

// ---------------------------------------------------------------------------
// What a function node contributes
// ---------------------------------------------------------------------------

/// The parameter list reported when parameters are wanted: `None` when it is empty.
pub open spec fn params_option(ps: Seq<ParamView>) -> Option<Seq<ParamView>> {
    if ps.len() == 0 { None } else { Some(ps) }
}

/// The function reported for node `n`, or nothing when it is anonymous and anonymous
/// functions are not wanted. `params` and `is_async` are its language's parameters and
/// `async` flag.
pub open spec fn function_item(
    t: Seq<SyntaxNode>,
    n: int,
    kind: FunctionKind,
    is_async: bool,
    exported: bool,
    parent: Option<Seq<char>>,
    params: Seq<ParamView>,
    opts: FunctionOptions,
) -> Seq<FunctionView> {
    let name = identifier_name(t, n);
    if name is None && !opts.include_anonymous {
        Seq::empty()
    } else {
        seq![FunctionView {
            name,
            kind,
            parameters: if opts.include_parameters { params_option(params) } else { None },
            return_type_text: if opts.include_return_type { field_text(t, n, "return_type"@) } else { None },
            range: node_range_spec(t[n]),
            async_: is_async,
            exported,
            parent_name: parent,
            signature_bytes: if opts.include_signature { Some(trimmed_text(t, n, MAX_TEXT_BYTES as int)) } else { None },
        }]
    }
}

// ---------------------------------------------------------------------------
// TS/JS parameters
// ---------------------------------------------------------------------------

/// The name of a TS/JS parameter node: the name of its `pattern` field, else its first
/// `identifier` child, else `<unknown>`.
pub open spec fn ts_param_name(t: Seq<SyntaxNode>, c: int) -> Seq<char> {
    match field_child(t, c, "pattern"@) {
        Some(p) => match identifier_name(t, p) { Some(x) => x, None => unknown_name() },
        None => match kind_child_from(t, c, 0, seq!["identifier"]) {
            Some(x) => t[x].text@,
            None => unknown_name(),
        },
    }
}

/// The parameter for child `c` of a TS/JS parameter list, if it is one.
pub open spec fn ts_param(t: Seq<SyntaxNode>, c: int) -> Seq<ParamView> {
    if kind_is(t, c, "required_parameter"@) || kind_is(t, c, "optional_parameter"@) {
        seq![ParamView {
            name: ts_param_name(t, c),
            type_text: field_text(t, c, "type"@),
            optional: kind_is(t, c, "optional_parameter"@),
            default_value_text: field_text(t, c, "value"@),
        }]
    } else {
        Seq::empty()
    }
}

/// The parameters among the first `k` children of parameter list `p`.
pub open spec fn ts_params_upto(t: Seq<SyntaxNode>, p: int, k: int) -> Seq<ParamView>
    decreases k,
{
    if k <= 0 { Seq::empty() } else { ts_params_upto(t, p, k - 1) + ts_param(t, child_of(t, p, k - 1)) }
}

/// The parameters of TS/JS function node `n`.
pub open spec fn ts_params(t: Seq<SyntaxNode>, n: int) -> Seq<ParamView> {
    match field_child(t, n, "parameters"@) {
        Some(p) => ts_params_upto(t, p, child_count_of(t, p)),
        None => Seq::empty(),
    }
}

// ---------------------------------------------------------------------------
// Python parameters
// ---------------------------------------------------------------------------

/// The text of the first named child of node `c` after its first child of kind
/// `marker`, looking from position `k` on (`seen` once the marker has been passed).
pub open spec fn named_after(t: Seq<SyntaxNode>, c: int, k: int, seen: bool, marker: Seq<char>) -> Option<Seq<char>>
    decreases child_count_of(t, c) - k,
{
    if 0 <= k < child_count_of(t, c) {
        let x = child_of(t, c, k);
        if t[x].kind@ == marker {
            named_after(t, c, k + 1, true, marker)
        } else if seen && t[x].named {
            Some(t[x].text@)
        } else {
            named_after(t, c, k + 1, seen, marker)
        }
    } else {
        None
    }
}

/// The name of a Python parameter node: its first `identifier` child, else `<unknown>`.
pub open spec fn py_param_name(t: Seq<SyntaxNode>, c: int) -> Seq<char> {
    match kind_child_from(t, c, 0, seq!["identifier"]) {
        Some(x) => t[x].text@,
        None => unknown_name(),
    }
}

/// The parameter for child `c` of a Python parameter list, if it is one.
pub open spec fn py_param(t: Seq<SyntaxNode>, c: int) -> Seq<ParamView> {
    if kind_is(t, c, "identifier"@) {
        seq![ParamView { name: t[c].text@, type_text: None, optional: false, default_value_text: None }]
    } else if kind_is(t, c, "default_parameter"@) {
        seq![ParamView { name: py_param_name(t, c), type_text: None, optional: true,
            default_value_text: named_after(t, c, 0, false, "="@) }]
    } else if kind_is(t, c, "typed_parameter"@) {
        seq![ParamView { name: py_param_name(t, c), type_text: named_after(t, c, 0, false, ":"@),
            optional: false, default_value_text: None }]
    } else if kind_is(t, c, "typed_default_parameter"@) {
        seq![ParamView { name: py_param_name(t, c), type_text: named_after(t, c, 0, false, ":"@),
            optional: true, default_value_text: named_after(t, c, 0, false, "="@) }]
    } else {
        Seq::empty()
    }
}

/// The parameters among the first `k` children of Python parameter list `p`.
pub open spec fn py_params_upto(t: Seq<SyntaxNode>, p: int, k: int) -> Seq<ParamView>
    decreases k,
{
    if k <= 0 { Seq::empty() } else { py_params_upto(t, p, k - 1) + py_param(t, child_of(t, p, k - 1)) }
}

/// The parameters of Python function node `n`.
pub open spec fn py_params(t: Seq<SyntaxNode>, n: int) -> Seq<ParamView> {
    match field_child(t, n, "parameters"@) {
        Some(p) => py_params_upto(t, p, child_count_of(t, p)),
        None => Seq::empty(),
    }
}

// ---------------------------------------------------------------------------
// The TS/JS walk
// ---------------------------------------------------------------------------

/// Node kinds whose children the TS/JS walk enters looking for nested functions.
pub open spec fn ts_recurse_kinds() -> Seq<&'static str> {
    seq![
        "statement_block", "lexical_declaration", "variable_declaration", "if_statement",
        "for_statement", "for_in_statement", "while_statement", "switch_statement",
        "try_statement", "catch_clause", "block", "program", "module"
    ]
}

/// Whether the TS/JS walk enters a node of this kind looking for nested functions.
pub fn should_recurse_ts_js(kind: &str) -> (r: bool)
    ensures
        r == text_in(kind@, ts_recurse_kinds()),
{
    let ks: &[&str] = &[
        "statement_block", "lexical_declaration", "variable_declaration", "if_statement",
        "for_statement", "for_in_statement", "while_statement", "switch_statement",
        "try_statement", "catch_clause", "block", "program", "module",
    ];
    assert(ks@ =~= ts_recurse_kinds());
    crate::syntax::str_in(kind, ks)
}

/// A TS/JS function node.
pub open spec fn ts_function(t: Seq<SyntaxNode>, n: int, kind: FunctionKind, exported: bool, parent: Option<Seq<char>>, opts: FunctionOptions) -> Seq<FunctionView> {
    function_item(t, n, kind, has_child_kind(t, n, "async"@), exported, parent, ts_params(t, n), opts)
}

/// The kind of a function declaration node.
pub open spec fn declaration_kind(t: Seq<SyntaxNode>, n: int) -> FunctionKind {
    if kind_is(t, n, "generator_function_declaration"@) { FunctionKind::Generator } else { FunctionKind::Function }
}

/// Whether node `n` declares a named function or generator.
pub open spec fn is_declaration(t: Seq<SyntaxNode>, n: int) -> bool {
    kind_is(t, n, "function_declaration"@) || kind_is(t, n, "generator_function_declaration"@)
}

/// The functions the TS/JS walk finds below node `i` (its children in order).
pub open spec fn ts_collect(t: Seq<SyntaxNode>, i: int, parent: Option<Seq<char>>, exported: bool, opts: FunctionOptions) -> Seq<FunctionView>
    decreases t.len() - i, 1nat, 0int,
{
    if 0 <= i < t.len() {
        ts_children(t, i, child_count_of(t, i), parent, exported, opts)
    } else {
        Seq::empty()
    }
}

/// The functions the TS/JS walk finds in the first `k` children of node `i`.
pub open spec fn ts_children(t: Seq<SyntaxNode>, i: int, k: int, parent: Option<Seq<char>>, exported: bool, opts: FunctionOptions) -> Seq<FunctionView>
    decreases t.len() - i, 0nat, k,
{
    if 0 <= i < t.len() && 0 < k <= child_count_of(t, i) && i < child_of(t, i, k - 1) < t.len() {
        ts_children(t, i, k - 1, parent, exported, opts) + ts_child(t, child_of(t, i, k - 1), parent, exported, opts)
    } else {
        Seq::empty()
    }
}

/// The functions the TS/JS walk finds at child `c`.
pub open spec fn ts_child(t: Seq<SyntaxNode>, c: int, parent: Option<Seq<char>>, exported: bool, opts: FunctionOptions) -> Seq<FunctionView>
    decreases t.len() - c, 2nat, 0int,
{
    if !(0 <= c < t.len()) || !t[c].named {
        Seq::empty()
    } else if is_declaration(t, c) {
        ts_function(t, c, declaration_kind(t, c), exported, parent, opts)
    } else if kind_is(t, c, "arrow_function"@) {
        if opts.include_anonymous { ts_function(t, c, FunctionKind::Arrow, exported, parent, opts) } else { Seq::empty() }
    } else if kind_is(t, c, "function_expression"@) {
        if opts.include_anonymous { ts_function(t, c, FunctionKind::Function, exported, parent, opts) } else { Seq::empty() }
    } else if kind_is(t, c, "method_definition"@) {
        ts_function(t, c, FunctionKind::Method, false, parent, opts)
    } else if kind_is(t, c, "export_statement"@) {
        ts_collect(t, c, parent, true, opts)
    } else if kind_is(t, c, "class_declaration"@) || kind_is(t, c, "class_expression"@) {
        match field_child(t, c, "body"@) {
            Some(b) => if c < b < t.len() { ts_collect(t, b, identifier_name(t, c), false, opts) } else { Seq::empty() },
            None => Seq::empty(),
        }
    } else if text_in(t[c].kind@, ts_recurse_kinds()) {
        ts_collect(t, c, parent, exported, opts)
    } else {
        Seq::empty()
    }
}

// ---------------------------------------------------------------------------
// The Python walk
// ---------------------------------------------------------------------------

/// A Python function node.
pub open spec fn py_function(t: Seq<SyntaxNode>, n: int, parent: Option<Seq<char>>, opts: FunctionOptions) -> Seq<FunctionView> {
    function_item(t, n, FunctionKind::Function, has_child_kind(t, n, "async"@), false, parent, py_params(t, n), opts)
}

/// The methods found in the body of Python class node `d`, named after it.
pub open spec fn py_class_body(t: Seq<SyntaxNode>, d: int, opts: FunctionOptions) -> Seq<FunctionView>
    decreases t.len() - d, 3nat, 0int,
{
    if 0 <= d < t.len() {
        match field_child(t, d, "body"@) {
            Some(b) => if d < b < t.len() { py_collect(t, b, identifier_name(t, d), opts) } else { Seq::empty() },
            None => Seq::empty(),
        }
    } else {
        Seq::empty()
    }
}

/// The functions the Python walk finds below node `i`.
pub open spec fn py_collect(t: Seq<SyntaxNode>, i: int, parent: Option<Seq<char>>, opts: FunctionOptions) -> Seq<FunctionView>
    decreases t.len() - i, 1nat, 0int,
{
    if 0 <= i < t.len() {
        py_children(t, i, child_count_of(t, i), parent, opts)
    } else {
        Seq::empty()
    }
}

/// The functions the Python walk finds in the first `k` children of node `i`.
pub open spec fn py_children(t: Seq<SyntaxNode>, i: int, k: int, parent: Option<Seq<char>>, opts: FunctionOptions) -> Seq<FunctionView>
    decreases t.len() - i, 0nat, k,
{
    if 0 <= i < t.len() && 0 < k <= child_count_of(t, i) && i < child_of(t, i, k - 1) < t.len() {
        py_children(t, i, k - 1, parent, opts) + py_child(t, child_of(t, i, k - 1), parent, opts)
    } else {
        Seq::empty()
    }
}

/// The functions the Python walk finds at child `c`.
pub open spec fn py_child(t: Seq<SyntaxNode>, c: int, parent: Option<Seq<char>>, opts: FunctionOptions) -> Seq<FunctionView>
    decreases t.len() - c, 4nat, 0int,
{
    if !(0 <= c < t.len()) || !t[c].named {
        Seq::empty()
    } else if kind_is(t, c, "function_definition"@) {
        py_function(t, c, parent, opts)
    } else if kind_is(t, c, "decorated_definition"@) {
        match field_child(t, c, "definition"@) {
            Some(d) => if c < d < t.len() {
                if kind_is(t, d, "function_definition"@) {
                    py_function(t, d, parent, opts)
                } else if kind_is(t, d, "class_definition"@) {
                    py_class_body(t, d, opts)
                } else {
                    Seq::empty()
                }
            } else {
                Seq::empty()
            },
            None => Seq::empty(),
        }
    } else if kind_is(t, c, "class_definition"@) {
        py_class_body(t, c, opts)
    } else if kind_is(t, c, "block"@) || kind_is(t, c, "module"@) {
        py_collect(t, c, parent, opts)
    } else {
        Seq::empty()
    }
}

/// The functions of a file in the given language, before the result limit.
pub open spec fn all_functions(t: Seq<SyntaxNode>, lang: LanguageId, opts: FunctionOptions) -> Seq<FunctionView> {
    if is_ts_js(lang) {
        ts_collect(t, 0, None, false, opts)
    } else if lang == LanguageId::Python {
        py_collect(t, 0, None, opts)
    } else {
        Seq::empty()
    }
}

// ---------------------------------------------------------------------------
// Parameters, executable
// ---------------------------------------------------------------------------

fn extract_ts_js_param_name(t: &SyntaxTree, c: usize) -> (r: String)
    requires
        c < t@.len(),
    ensures
        r@ == ts_param_name(t@, c as int),
{
    if let Some(p) = child_by_field(t, c, "pattern") {
        return match extract_identifier_name(t, p) {
            Some(x) => x,
            None => "<unknown>".to_owned(),
        };
    }
    let ks: &[&str] = &["identifier"];
    assert(ks@ =~= seq!["identifier"]);
    match crate::syntax::child_with_kind_in(t, c, ks) {
        Some(x) => t.node(x).text.clone(),
        None => "<unknown>".to_owned(),
    }
}

fn extract_ts_js_parameters(t: &SyntaxTree, n: usize) -> (r: Vec<AstParameter>)
    requires
        n < t@.len(),
    ensures
        params_view(r@) == ts_params(t@, n as int),
{
    t.wf();
    let p = match child_by_field(t, n, "parameters") {
        Some(p) => p,
        None => {
            let v: Vec<AstParameter> = Vec::new();
            assert(params_view(v@) =~= Seq::<ParamView>::empty());
            return v;
        },
    };
    let node = t.node(p);
    let m = node.children.len();
    let mut out: Vec<AstParameter> = Vec::new();
    let mut k: usize = 0;
    assert(params_view(out@) =~= ts_params_upto(t@, p as int, 0));
    while k < m
        invariant
            tree_wf(t@),
            p < t@.len(),
            node == t@[p as int],
            m == child_count_of(t@, p as int),
            k <= m,
            params_view(out@) == ts_params_upto(t@, p as int, k as int),
        decreases m - k,
    {
        let c = node.children[k];
        assert(c as int == child_of(t@, p as int, k as int));
        let ghost before = params_view(out@);
        let required = has_kind(t, c, "required_parameter");
        let optional = has_kind(t, c, "optional_parameter");
        if required || optional {
            out.push(AstParameter {
                name: extract_ts_js_param_name(t, c),
                type_text: extract_field_text(t, c, "type"),
                optional,
                default_value_text: extract_field_text(t, c, "value"),
            });
            assert(params_view(out@) =~= before + ts_param(t@, c as int));
        } else {
            assert(params_view(out@) =~= before + ts_param(t@, c as int));
        }
        k = k + 1;
    }
    out
}

fn named_after_exec(t: &SyntaxTree, c: usize, marker: &str) -> (r: Option<String>)
    requires
        c < t@.len(),
    ensures
        opt_text(r) == named_after(t@, c as int, 0, false, marker@),
{
    t.wf();
    let node = t.node(c);
    let m = node.children.len();
    let mut seen = false;
    let mut k: usize = 0;
    while k < m
        invariant
            tree_wf(t@),
            c < t@.len(),
            node == t@[c as int],
            m == child_count_of(t@, c as int),
            k <= m,
            named_after(t@, c as int, 0, false, marker@) == named_after(t@, c as int, k as int, seen, marker@),
        decreases m - k,
    {
        let x = node.children[k];
        assert(x as int == child_of(t@, c as int, k as int));
        let xn = t.node(x);
        if str_eq(xn.kind.as_str(), marker) {
            seen = true;
        } else if seen && xn.named {
            return Some(xn.text.clone());
        }
        k = k + 1;
    }
    None
}

fn extract_py_param_name(t: &SyntaxTree, c: usize) -> (r: String)
    requires
        c < t@.len(),
    ensures
        r@ == py_param_name(t@, c as int),
{
    let ks: &[&str] = &["identifier"];
    assert(ks@ =~= seq!["identifier"]);
    match crate::syntax::child_with_kind_in(t, c, ks) {
        Some(x) => t.node(x).text.clone(),
        None => "<unknown>".to_owned(),
    }
}

fn extract_py_parameters(t: &SyntaxTree, n: usize) -> (r: Vec<AstParameter>)
    requires
        n < t@.len(),
    ensures
        params_view(r@) == py_params(t@, n as int),
{
    t.wf();
    let p = match child_by_field(t, n, "parameters") {
        Some(p) => p,
        None => {
            let v: Vec<AstParameter> = Vec::new();
            assert(params_view(v@) =~= Seq::<ParamView>::empty());
            return v;
        },
    };
    let node = t.node(p);
    let m = node.children.len();
    let mut out: Vec<AstParameter> = Vec::new();
    let mut k: usize = 0;
    assert(params_view(out@) =~= py_params_upto(t@, p as int, 0));
    while k < m
        invariant
            tree_wf(t@),
            p < t@.len(),
            node == t@[p as int],
            m == child_count_of(t@, p as int),
            k <= m,
            params_view(out@) == py_params_upto(t@, p as int, k as int),
        decreases m - k,
    {
        let c = node.children[k];
        assert(c as int == child_of(t@, p as int, k as int));
        let ghost before = params_view(out@);
        if has_kind(t, c, "identifier") {
            out.push(AstParameter { name: t.node(c).text.clone(), type_text: None, optional: false, default_value_text: None });
        } else if has_kind(t, c, "default_parameter") {
            out.push(AstParameter {
                name: extract_py_param_name(t, c),
                type_text: None,
                optional: true,
                default_value_text: named_after_exec(t, c, "="),
            });
        } else if has_kind(t, c, "typed_parameter") {
            out.push(AstParameter {
                name: extract_py_param_name(t, c),
                type_text: named_after_exec(t, c, ":"),
                optional: false,
                default_value_text: None,
            });
        } else if has_kind(t, c, "typed_default_parameter") {
            out.push(AstParameter {
                name: extract_py_param_name(t, c),
                type_text: named_after_exec(t, c, ":"),
                optional: true,
                default_value_text: named_after_exec(t, c, "="),
            });
        }
        assert(params_view(out@) =~= before + py_param(t@, c as int));
        k = k + 1;
    }
    out
}

// ---------------------------------------------------------------------------
// Building one function
// ---------------------------------------------------------------------------

fn push_function(
    t: &SyntaxTree,
    n: usize,
    kind: FunctionKind,
    is_async: bool,
    exported: bool,
    parent: &Option<String>,
    params: Vec<AstParameter>,
    opts: &FunctionOptions,
    results: &mut Vec<AstFunction>,
)
    requires
        n < t@.len(),
        old(results)@.len() <= opts.max_results,
    ensures
        final(results)@.len() <= opts.max_results,
        functions_view(final(results)@) == cap(functions_view(old(results)@)
            + function_item(t@, n as int, kind, is_async, exported, opt_text(*parent), params_view(params@), *opts),
            opts.max_results as int),
{
    let ghost item = function_item(t@, n as int, kind, is_async, exported, opt_text(*parent), params_view(params@), *opts);
    let ghost base = functions_view(results@);
    if results.len() >= opts.max_results {
        proof { crate::syntax::lemma_cap_full(base, item, opts.max_results as int); }
        return;
    }
    let name = extract_identifier_name(t, n);
    if name.is_none() && !opts.include_anonymous {
        assert(base + item =~= base);
        return;
    }
    let parameters = if opts.include_parameters {
        if params.len() == 0 { None } else { Some(params) }
    } else {
        None
    };
    let return_type_text = if opts.include_return_type { extract_field_text(t, n, "return_type") } else { None };
    let signature_text = if opts.include_signature { Some(trimmed_node_text(t, n, MAX_TEXT_BYTES)) } else { None };
    let parent_name = match parent {
        Some(p) => Some(p.clone()),
        None => None,
    };
    results.push(AstFunction {
        name,
        kind,
        parameters,
        return_type_text,
        range: node_range(t.node(n)),
        async_: is_async,
        exported,
        parent_name,
        signature_text,
    });
    assert(functions_view(results@) =~= base + item);
}

fn extract_ts_js_function(t: &SyntaxTree, n: usize, kind: FunctionKind, exported: bool, parent: &Option<String>, opts: &FunctionOptions, results: &mut Vec<AstFunction>)
    requires
        n < t@.len(),
        old(results)@.len() <= opts.max_results,
    ensures
        final(results)@.len() <= opts.max_results,
        functions_view(final(results)@) == cap(functions_view(old(results)@)
            + ts_function(t@, n as int, kind, exported, opt_text(*parent), *opts), opts.max_results as int),
{
    let is_async = has_anonymous_child(t, n, "async");
    let params = if opts.include_parameters { extract_ts_js_parameters(t, n) } else { Vec::new() };
    proof {
        if !opts.include_parameters {
            // Parameters are not reported, so which list stands for them does not matter.
            assert(function_item(t@, n as int, kind, is_async, exported, opt_text(*parent), params_view(params@), *opts)
                == ts_function(t@, n as int, kind, exported, opt_text(*parent), *opts));
        }
    }
    push_function(t, n, kind, is_async, exported, parent, params, opts, results);
}

fn extract_py_function(t: &SyntaxTree, n: usize, parent: &Option<String>, opts: &FunctionOptions, results: &mut Vec<AstFunction>)
    requires
        n < t@.len(),
        old(results)@.len() <= opts.max_results,
    ensures
        final(results)@.len() <= opts.max_results,
        functions_view(final(results)@) == cap(functions_view(old(results)@)
            + py_function(t@, n as int, opt_text(*parent), *opts), opts.max_results as int),
{
    let is_async = has_anonymous_child(t, n, "async");
    let params = if opts.include_parameters { extract_py_parameters(t, n) } else { Vec::new() };
    proof {
        if !opts.include_parameters {
            assert(function_item(t@, n as int, FunctionKind::Function, is_async, false, opt_text(*parent), params_view(params@), *opts)
                == py_function(t@, n as int, opt_text(*parent), *opts));
        }
    }
    push_function(t, n, FunctionKind::Function, is_async, false, parent, params, opts, results);
}

// ---------------------------------------------------------------------------
// The TS/JS walk, executable
// ---------------------------------------------------------------------------

fn collect_ts_js_functions(t: &SyntaxTree, i: usize, parent: &Option<String>, exported: bool, opts: &FunctionOptions, results: &mut Vec<AstFunction>)
    requires
        i < t@.len(),
        old(results)@.len() <= opts.max_results,
    ensures
        final(results)@.len() <= opts.max_results,
        functions_view(final(results)@) == cap(functions_view(old(results)@)
            + ts_collect(t@, i as int, opt_text(*parent), exported, *opts), opts.max_results as int),
    decreases t@.len() - i, 1nat,
{
    t.wf();
    let ghost base = functions_view(results@);
    let ghost pv = opt_text(*parent);
    if results.len() >= opts.max_results {
        proof { lemma_cap_full(base, ts_collect(t@, i as int, pv, exported, *opts), opts.max_results as int); }
        return;
    }
    let node = t.node(i);
    let m = node.children.len();
    let mut k: usize = 0;
    assert(base + ts_children(t@, i as int, 0, pv, exported, *opts) =~= base);
    while k < m
        invariant
            tree_wf(t@),
            i < t@.len(),
            node == t@[i as int],
            m == child_count_of(t@, i as int),
            k <= m,
            pv == opt_text(*parent),
            results@.len() <= opts.max_results,
            functions_view(results@) == cap(base + ts_children(t@, i as int, k as int, pv, exported, *opts), opts.max_results as int),
        decreases m - k,
    {
        let c = node.children[k];
        assert(c as int == child_of(t@, i as int, k as int));
        let ghost prev = ts_children(t@, i as int, k as int, pv, exported, *opts);
        ts_child_exec(t, c, parent, exported, opts, results);
        proof {
            lemma_cap_step(base, prev, ts_child(t@, c as int, pv, exported, *opts), opts.max_results as int);
        }
        k = k + 1;
    }
}

fn ts_child_exec(t: &SyntaxTree, c: usize, parent: &Option<String>, exported: bool, opts: &FunctionOptions, results: &mut Vec<AstFunction>)
    requires
        c < t@.len(),
        old(results)@.len() <= opts.max_results,
    ensures
        final(results)@.len() <= opts.max_results,
        functions_view(final(results)@) == cap(functions_view(old(results)@)
            + ts_child(t@, c as int, opt_text(*parent), exported, *opts), opts.max_results as int),
    decreases t@.len() - c, 2nat,
{
    t.wf();
    let ghost base = functions_view(results@);
    let ghost pv = opt_text(*parent);
    let node = t.node(c);
    if !node.named {
        assert(base + Seq::<FunctionView>::empty() =~= base);
        proof { lemma_cap_full_or_same(base, opts.max_results as int, results@.len() as int); }
        return;
    }
    let is_fn = has_kind(t, c, "function_declaration");
    let is_gen = has_kind(t, c, "generator_function_declaration");
    if is_fn || is_gen {
        let kind = if is_gen { FunctionKind::Generator } else { FunctionKind::Function };
        extract_ts_js_function(t, c, kind, exported, parent, opts, results);
    } else if has_kind(t, c, "arrow_function") {
        if opts.include_anonymous {
            extract_ts_js_function(t, c, FunctionKind::Arrow, exported, parent, opts, results);
        } else {
            assert(base + Seq::<FunctionView>::empty() =~= base);
            proof { lemma_cap_full_or_same(base, opts.max_results as int, results@.len() as int); }
        }
    } else if has_kind(t, c, "function_expression") {
        if opts.include_anonymous {
            extract_ts_js_function(t, c, FunctionKind::Function, exported, parent, opts, results);
        } else {
            assert(base + Seq::<FunctionView>::empty() =~= base);
            proof { lemma_cap_full_or_same(base, opts.max_results as int, results@.len() as int); }
        }
    } else if has_kind(t, c, "method_definition") {
        extract_ts_js_function(t, c, FunctionKind::Method, false, parent, opts, results);
    } else if has_kind(t, c, "export_statement") {
        collect_ts_js_functions(t, c, parent, true, opts, results);
    } else if has_kind(t, c, "class_declaration") || has_kind(t, c, "class_expression") {
        let class_name = extract_identifier_name(t, c);
        match child_by_field(t, c, "body") {
            Some(b) => {
                collect_ts_js_functions(t, b, &class_name, false, opts, results);
            },
            None => {
                assert(base + Seq::<FunctionView>::empty() =~= base);
                proof { lemma_cap_full_or_same(base, opts.max_results as int, results@.len() as int); }
            },
        }
    } else if should_recurse_ts_js(node.kind.as_str()) {
        collect_ts_js_functions(t, c, parent, exported, opts, results);
    } else {
        assert(base + Seq::<FunctionView>::empty() =~= base);
        proof { lemma_cap_full_or_same(base, opts.max_results as int, results@.len() as int); }
    }
}

/// A list no longer than the cap is its own capping.
proof fn lemma_cap_full_or_same(s: Seq<FunctionView>, m: int, len: int)
    requires
        s.len() == len,
        len <= m,
    ensures
        cap(s, m) == s,
{
}

// ---------------------------------------------------------------------------
// The Python walk, executable
// ---------------------------------------------------------------------------

fn collect_py_class_body(t: &SyntaxTree, d: usize, opts: &FunctionOptions, results: &mut Vec<AstFunction>)
    requires
        d < t@.len(),
        old(results)@.len() <= opts.max_results,
    ensures
        final(results)@.len() <= opts.max_results,
        functions_view(final(results)@) == cap(functions_view(old(results)@) + py_class_body(t@, d as int, *opts), opts.max_results as int),
    decreases t@.len() - d, 3nat,
{
    let ghost base = functions_view(results@);
    let class_name = extract_identifier_name(t, d);
    match child_by_field(t, d, "body") {
        Some(b) => {
            collect_py_functions(t, b, &class_name, opts, results);
        },
        None => {
            assert(base + Seq::<FunctionView>::empty() =~= base);
            proof { lemma_cap_full_or_same(base, opts.max_results as int, results@.len() as int); }
        },
    }
}

fn collect_py_functions(t: &SyntaxTree, i: usize, parent: &Option<String>, opts: &FunctionOptions, results: &mut Vec<AstFunction>)
    requires
        i < t@.len(),
        old(results)@.len() <= opts.max_results,
    ensures
        final(results)@.len() <= opts.max_results,
        functions_view(final(results)@) == cap(functions_view(old(results)@)
            + py_collect(t@, i as int, opt_text(*parent), *opts), opts.max_results as int),
    decreases t@.len() - i, 1nat,
{
    t.wf();
    let ghost base = functions_view(results@);
    let ghost pv = opt_text(*parent);
    if results.len() >= opts.max_results {
        proof { lemma_cap_full(base, py_collect(t@, i as int, pv, *opts), opts.max_results as int); }
        return;
    }
    let node = t.node(i);
    let m = node.children.len();
    let mut k: usize = 0;
    assert(base + py_children(t@, i as int, 0, pv, *opts) =~= base);
    while k < m
        invariant
            tree_wf(t@),
            i < t@.len(),
            node == t@[i as int],
            m == child_count_of(t@, i as int),
            k <= m,
            pv == opt_text(*parent),
            results@.len() <= opts.max_results,
            functions_view(results@) == cap(base + py_children(t@, i as int, k as int, pv, *opts), opts.max_results as int),
        decreases m - k,
    {
        let c = node.children[k];
        assert(c as int == child_of(t@, i as int, k as int));
        let ghost prev = py_children(t@, i as int, k as int, pv, *opts);
        py_child_exec(t, c, parent, opts, results);
        proof {
            lemma_cap_step(base, prev, py_child(t@, c as int, pv, *opts), opts.max_results as int);
        }
        k = k + 1;
    }
}

fn py_child_exec(t: &SyntaxTree, c: usize, parent: &Option<String>, opts: &FunctionOptions, results: &mut Vec<AstFunction>)
    requires
        c < t@.len(),
        old(results)@.len() <= opts.max_results,
    ensures
        final(results)@.len() <= opts.max_results,
        functions_view(final(results)@) == cap(functions_view(old(results)@)
            + py_child(t@, c as int, opt_text(*parent), *opts), opts.max_results as int),
    decreases t@.len() - c, 4nat,
{
    t.wf();
    let ghost base = functions_view(results@);
    let node = t.node(c);
    if !node.named {
        assert(base + Seq::<FunctionView>::empty() =~= base);
        proof { lemma_cap_full_or_same(base, opts.max_results as int, results@.len() as int); }
        return;
    }
    if has_kind(t, c, "function_definition") {
        extract_py_function(t, c, parent, opts, results);
    } else if has_kind(t, c, "decorated_definition") {
        match child_by_field(t, c, "definition") {
            Some(d) => {
                if has_kind(t, d, "function_definition") {
                    extract_py_function(t, d, parent, opts, results);
                } else if has_kind(t, d, "class_definition") {
                    collect_py_class_body(t, d, opts, results);
                } else {
                    assert(base + Seq::<FunctionView>::empty() =~= base);
                    proof { lemma_cap_full_or_same(base, opts.max_results as int, results@.len() as int); }
                }
            },
            None => {
                assert(base + Seq::<FunctionView>::empty() =~= base);
                proof { lemma_cap_full_or_same(base, opts.max_results as int, results@.len() as int); }
            },
        }
    } else if has_kind(t, c, "class_definition") {
        collect_py_class_body(t, c, opts, results);
    } else if has_kind(t, c, "block") || has_kind(t, c, "module") {
        collect_py_functions(t, c, parent, opts, results);
    } else {
        assert(base + Seq::<FunctionView>::empty() =~= base);
        proof { lemma_cap_full_or_same(base, opts.max_results as int, results@.len() as int); }
    }
}

/// Find the function definitions of a file: for TypeScript and JavaScript, the functions,
/// generators, arrow functions and function expressions (anonymous ones when asked),
/// methods in class bodies (named after their class), each once, those inside an export
/// statement marked exported; for
/// Python, the functions and the methods of classes, decorated or not. Go and Rust files
/// yield none. At most `max_results` are returned, in the walk's order.
pub fn find_functions(t: &SyntaxTree, lang: LanguageId, opts: &FunctionOptions) -> (r: Vec<AstFunction>)
    ensures
        functions_view(r@) == cap(all_functions(t@, lang, *opts), opts.max_results as int),
{
    t.wf();
    let mut results: Vec<AstFunction> = Vec::new();
    let none: Option<String> = None;
    assert(functions_view(results@) =~= Seq::<FunctionView>::empty());
    match lang {
        LanguageId::TypeScript | LanguageId::TypeScriptReact | LanguageId::JavaScript | LanguageId::JavaScriptReact => {
            collect_ts_js_functions(t, 0, &none, false, opts, &mut results);
            assert(Seq::<FunctionView>::empty() + ts_collect(t@, 0, None, false, *opts) =~= ts_collect(t@, 0, None, false, *opts));
        },
        LanguageId::Python => {
            collect_py_functions(t, 0, &none, opts, &mut results);
            assert(Seq::<FunctionView>::empty() + py_collect(t@, 0, None, *opts) =~= py_collect(t@, 0, None, *opts));
        },
        LanguageId::Go | LanguageId::Rust => {},
    }
    results
}

// ---------------------------------------------------------------------------
// Laws
// ---------------------------------------------------------------------------

/// Node `n` is a node of the tree of kind `k` that reported function `f` stands for: `f`
/// spans it and carries its name.
pub open spec fn node_kind_at(t: Seq<SyntaxNode>, n: int, k: Seq<char>, f: FunctionView) -> bool {
    0 <= n < t.len() && t[n].kind@ == k && node_range_spec(t[n]) == f.range && identifier_name(t, n) == f.name
}

/// Node `n` is a function declaration or function expression that `f` stands for.
pub open spec fn plain_function_at(t: Seq<SyntaxNode>, n: int, f: FunctionView) -> bool {
    node_kind_at(t, n, "function_declaration"@, f) || node_kind_at(t, n, "function_expression"@, f)
}

/// A reported function's kind matches the node it stands for (spans and is named by): a
/// generator stands for a `generator_function_declaration`; a plain function for a
/// `function_declaration` or a `function_expression`; an arrow function for an
/// `arrow_function`; a method for a `method_definition`. No other kind is reported.
pub open spec fn kind_matches_node(t: Seq<SyntaxNode>, f: FunctionView) -> bool {
    &&& f.kind == FunctionKind::Generator ==> exists|n: int| #[trigger] node_kind_at(t, n, "generator_function_declaration"@, f)
    &&& f.kind == FunctionKind::Function ==> exists|n: int| #[trigger] plain_function_at(t, n, f)
    &&& f.kind == FunctionKind::Arrow ==> exists|n: int| #[trigger] node_kind_at(t, n, "arrow_function"@, f)
    &&& f.kind == FunctionKind::Method ==> exists|n: int| #[trigger] node_kind_at(t, n, "method_definition"@, f)
    &&& f.kind != FunctionKind::Lambda && f.kind != FunctionKind::Unknown
}

/// Every function in `s` has a kind that matches the node it spans.
pub open spec fn kinds_match_nodes(t: Seq<SyntaxNode>, s: Seq<FunctionView>) -> bool {
    forall|j: int| 0 <= j < s.len() ==> kind_matches_node(t, #[trigger] s[j])
}

proof fn lemma_kinds_concat(t: Seq<SyntaxNode>, a: Seq<FunctionView>, b: Seq<FunctionView>)
    requires
        kinds_match_nodes(t, a),
        kinds_match_nodes(t, b),
    ensures
        kinds_match_nodes(t, a + b),
{
    let s = a + b;
    assert forall|j: int| 0 <= j < s.len() implies kind_matches_node(t, #[trigger] s[j]) by {
        if j < a.len() {
            assert(s[j] == a[j]);
        } else {
            assert(s[j] == b[j - a.len()]);
        }
    }
}

proof fn lemma_ts_function_kind(t: Seq<SyntaxNode>, c: int, kind: FunctionKind, exported: bool, parent: Option<Seq<char>>, opts: FunctionOptions)
    requires
        0 <= c < t.len(),
        kind == FunctionKind::Generator ==> kind_is(t, c, "generator_function_declaration"@),
        kind == FunctionKind::Function ==> kind_is(t, c, "function_declaration"@) || kind_is(t, c, "function_expression"@),
        kind == FunctionKind::Arrow ==> kind_is(t, c, "arrow_function"@),
        kind == FunctionKind::Method ==> kind_is(t, c, "method_definition"@),
        kind != FunctionKind::Lambda && kind != FunctionKind::Unknown,
    ensures
        kinds_match_nodes(t, ts_function(t, c, kind, exported, parent, opts)),
{
    let s = ts_function(t, c, kind, exported, parent, opts);
    assert forall|j: int| 0 <= j < s.len() implies kind_matches_node(t, #[trigger] s[j]) by {
        let f = s[j];
        assert(f.kind == kind && f.range == node_range_spec(t[c]) && f.name == identifier_name(t, c));
        if kind == FunctionKind::Generator {
            assert(node_kind_at(t, c, "generator_function_declaration"@, f));
        }
        if kind == FunctionKind::Function {
            assert(plain_function_at(t, c, f));
        }
        if kind == FunctionKind::Arrow {
            assert(node_kind_at(t, c, "arrow_function"@, f));
        }
        if kind == FunctionKind::Method {
            assert(node_kind_at(t, c, "method_definition"@, f));
        }
    }
}

proof fn lemma_ts_collect_kinds(t: Seq<SyntaxNode>, i: int, parent: Option<Seq<char>>, exported: bool, opts: FunctionOptions)
    ensures
        kinds_match_nodes(t, ts_collect(t, i, parent, exported, opts)),
    decreases t.len() - i, 1nat, 0int,
{
    if 0 <= i < t.len() {
        lemma_ts_children_kinds(t, i, child_count_of(t, i), parent, exported, opts);
    }
}

proof fn lemma_ts_children_kinds(t: Seq<SyntaxNode>, i: int, k: int, parent: Option<Seq<char>>, exported: bool, opts: FunctionOptions)
    ensures
        kinds_match_nodes(t, ts_children(t, i, k, parent, exported, opts)),
    decreases t.len() - i, 0nat, k,
{
    if 0 <= i < t.len() && 0 < k <= child_count_of(t, i) && i < child_of(t, i, k - 1) < t.len() {
        lemma_ts_children_kinds(t, i, k - 1, parent, exported, opts);
        lemma_ts_child_kinds(t, child_of(t, i, k - 1), parent, exported, opts);
        lemma_kinds_concat(t, ts_children(t, i, k - 1, parent, exported, opts), ts_child(t, child_of(t, i, k - 1), parent, exported, opts));
    }
}

proof fn lemma_ts_child_kinds(t: Seq<SyntaxNode>, c: int, parent: Option<Seq<char>>, exported: bool, opts: FunctionOptions)
    ensures
        kinds_match_nodes(t, ts_child(t, c, parent, exported, opts)),
    decreases t.len() - c, 2nat, 0int,
{
    if !(0 <= c < t.len()) || !t[c].named {
    } else if is_declaration(t, c) {
        lemma_ts_function_kind(t, c, declaration_kind(t, c), exported, parent, opts);
    } else if kind_is(t, c, "arrow_function"@) {
        lemma_ts_function_kind(t, c, FunctionKind::Arrow, exported, parent, opts);
    } else if kind_is(t, c, "function_expression"@) {
        lemma_ts_function_kind(t, c, FunctionKind::Function, exported, parent, opts);
    } else if kind_is(t, c, "method_definition"@) {
        lemma_ts_function_kind(t, c, FunctionKind::Method, false, parent, opts);
    } else if kind_is(t, c, "export_statement"@) {
        lemma_ts_collect_kinds(t, c, parent, true, opts);
    } else if kind_is(t, c, "class_declaration"@) || kind_is(t, c, "class_expression"@) {
        match field_child(t, c, "body"@) {
            Some(b) => if c < b < t.len() { lemma_ts_collect_kinds(t, b, identifier_name(t, c), false, opts); },
            None => {},
        }
    } else if text_in(t[c].kind@, ts_recurse_kinds()) {
        lemma_ts_collect_kinds(t, c, parent, exported, opts);
    }
}

/// A named function or generator declaration that the walk reaches is reported once, at
/// its range: a `generator_function_declaration` as a generator, a `function_declaration`
/// as a plain function.
pub proof fn law_ts_declaration_reported(t: Seq<SyntaxNode>, c: int, parent: Option<Seq<char>>, exported: bool, opts: FunctionOptions)
    requires
        0 <= c < t.len(),
        t[c].named,
        kind_is(t, c, "generator_function_declaration"@) || kind_is(t, c, "function_declaration"@),
        identifier_name(t, c) is Some,
    ensures
        ts_child(t, c, parent, exported, opts).len() == 1,
        ts_child(t, c, parent, exported, opts)[0].range == node_range_spec(t[c]),
        ts_child(t, c, parent, exported, opts)[0].kind == (if t[c].kind@ == "generator_function_declaration"@ {
            FunctionKind::Generator
        } else {
            FunctionKind::Function
        }),
{
}

/// In a TypeScript or JavaScript file, every function `find_functions` reports stands for
/// a node of the tree (spans it and carries its name) of the kind its own kind says: a
/// generator for a `generator_function_declaration`, a plain function for a
/// `function_declaration` or `function_expression`, an arrow function for an
/// `arrow_function` and a method for a `method_definition`: for any tree and options.
pub proof fn law_ts_function_kinds(t: Seq<SyntaxNode>, lang: LanguageId, opts: FunctionOptions)
    requires
        is_ts_js(lang),
    ensures
        kinds_match_nodes(t, cap(all_functions(t, lang, opts), opts.max_results as int)),
{
    let all = all_functions(t, lang, opts);
    lemma_ts_collect_kinds(t, 0, None, false, opts);
    let r = cap(all, opts.max_results as int);
    assert forall|j: int| 0 <= j < r.len() implies kind_matches_node(t, #[trigger] r[j]) by {
        assert(r[j] == all[j]);
    }
}

} // verus!
