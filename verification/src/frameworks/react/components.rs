//! React components: PascalCase function declarations, PascalCase variables bound to
//! JSX-returning functions (plain, `memo` or `forwardRef`), and classes extending
//! `Component` or `PureComponent`.
use vstd::prelude::*;

use super::{AstReactComponent, ComponentKind, ComponentView};
use crate::extractors::{extract_field_text, field_text, has_anonymous_child, has_child_kind};
use crate::frameworks::{AstDetector, AstFileContext, Confidence, evidence_list, is_pascal_case, node_evidence, pascal_case};
use crate::shared::opt_text;
use crate::syntax::{
    SyntaxNode, SyntaxTree, child_by_field, child_count_of, child_of, child_with_kind_in,
    every_node, field_child, has_kind, has_kind_in, kind_child_from, kind_in, kind_is,
    lemma_walk_children_step, lemma_walk_unfold, node_range, node_range_spec, opt_seq,
    parent_of, str_in, text_in, tree_wf, walk, walk_children,
};
use crate::text::str_eq;
use crate::visit::{NodeVisitor, collect_all, has_kind_in_subtree, subtree_has_kind, views};

verus! {

/// Detects React components.
pub struct ReactComponentDetector;

/// The kinds of JSX node.
pub open spec fn jsx_kinds() -> Seq<&'static str> {
    seq!["jsx_element", "jsx_self_closing_element", "jsx_fragment"]
}

/// The name of JSX element `n`: the identifier or member expression in its opening
/// element.
pub open spec fn jsx_element_name(t: Seq<SyntaxNode>, n: int) -> Option<Seq<char>> {
    if kind_in(t, n, seq!["jsx_element", "jsx_self_closing_element"]) && child_count_of(t, n) > 0
        && kind_in(t, child_of(t, n, 0), seq!["jsx_opening_element", "jsx_self_closing_element"]) {
        match kind_child_from(t, child_of(t, n, 0), 0, seq!["identifier", "member_expression"]) {
            Some(c) => Some(t[c].text@),
            None => None,
        }
    } else {
        None
    }
}

/// What node `n` gives when looking for the root JSX element: its element name.
pub open spec fn jsx_name_item(t: Seq<SyntaxNode>) -> spec_fn(int) -> Seq<Seq<char>> {
    |n: int| opt_seq(jsx_element_name(t, n))
}

/// The name of the first JSX element in the subtree of node `v`, in pre-order.
pub open spec fn first_jsx_name(t: Seq<SyntaxNode>, v: int) -> Option<Seq<char>> {
    let s = walk(t, v, jsx_name_item(t), every_node());
    if s.len() > 0 { Some(s[0]) } else { None }
}

/// Whether node `n` is the declaration of a default export.
pub open spec fn default_exported(t: Seq<SyntaxNode>, n: int) -> bool {
    match t[n].parent {
        Some(p) => kind_is(t, p as int, "export_statement"@) && has_child_kind(t, p as int, "default"@),
        None => false,
    }
}

/// The name and type of the first parameter, from position `k` of parameter list `p` on,
/// that is named, is not a destructuring bracket and has a name.
pub open spec fn props_from(t: Seq<SyntaxNode>, p: int, k: int) -> (Option<Seq<char>>, Option<Seq<char>>)
    decreases child_count_of(t, p) - k,
{
    if 0 <= k < child_count_of(t, p) {
        let c = child_of(t, p, k);
        if t[c].named && !kind_is(t, c, "{"@) && !kind_is(t, c, "["@) && field_child(t, c, "name"@) is Some {
            (field_text(t, c, "name"@), field_text(t, c, "type"@))
        } else {
            props_from(t, p, k + 1)
        }
    } else {
        (None, None)
    }
}

/// The props name and type of function `n`.
pub open spec fn component_props(t: Seq<SyntaxNode>, n: int) -> (Option<Seq<char>>, Option<Seq<char>>) {
    match field_child(t, n, "parameters"@) {
        Some(p) => props_from(t, p, 0),
        None => (None, None),
    }
}

/// The base classes of a class component.
pub open spec fn react_bases() -> Seq<&'static str> {
    seq!["Component", "PureComponent", "React.Component", "React.PureComponent"]
}

/// Whether class `n` extends a React component class: the first child of its `extends`
/// clause is one of them.
pub open spec fn extends_react(t: Seq<SyntaxNode>, n: int) -> bool {
    match field_child(t, n, "extends"@) {
        Some(h) => child_count_of(t, h) > 0 && text_in(t[child_of(t, h, 0)].text@, react_bases()),
        None => false,
    }
}

/// Whether value `v` is the argument of a call of the function named `name`.
pub open spec fn wrapped_with(t: Seq<SyntaxNode>, v: int, name: Seq<char>) -> bool {
    match t[v].parent {
        Some(p) => kind_is(t, p as int, "call_expression"@) && match field_child(t, p as int, "function"@) {
            Some(f) => t[f].text@ == name,
            None => false,
        },
        None => false,
    }
}

/// The component a PascalCase function declaration `n` declares.
pub open spec fn function_component(t: Seq<SyntaxNode>, n: int, exported: bool, path: Seq<char>) -> Option<ComponentView> {
    match field_child(t, n, "name"@) {
        None => None,
        Some(nm) => if !pascal_case(t[nm].text@) {
            None
        } else {
            let has_jsx = subtree_has_kind(t, n, jsx_kinds());
            let props = component_props(t, n);
            Some(ComponentView {
                file_path: path,
                name: t[nm].text@,
                kind: ComponentKind::FunctionComponent,
                exported,
                default_export: exported && default_exported(t, n),
                props_name: props.0,
                props_type_text: props.1,
                hooks: Seq::empty(),
                jsx_root: if has_jsx { first_jsx_name(t, n) } else { None },
                range: node_range_spec(t[n]),
                confidence: if has_jsx { Confidence::High } else { Confidence::Low },
                evidence: seq![node_evidence(t, n, "function_declaration"@)],
            })
        },
    }
}

/// The component a PascalCase variable `n` bound to a value holding JSX declares.
pub open spec fn variable_component(t: Seq<SyntaxNode>, n: int, exported: bool, path: Seq<char>) -> Option<ComponentView> {
    match field_child(t, n, "name"@) {
        None => None,
        Some(nm) => if !pascal_case(t[nm].text@) {
            None
        } else {
            match field_child(t, n, "value"@) {
                None => None,
                Some(v) => if !subtree_has_kind(t, v, jsx_kinds()) {
                    None
                } else {
                    let arrow = kind_is(t, v, "arrow_function"@);
                    Some(ComponentView {
                        file_path: path,
                        name: t[nm].text@,
                        kind: if !arrow {
                            ComponentKind::Unknown
                        } else if wrapped_with(t, v, "memo"@) {
                            ComponentKind::MemoComponent
                        } else if wrapped_with(t, v, "forwardRef"@) {
                            ComponentKind::ForwardRefComponent
                        } else {
                            ComponentKind::ArrowFunctionComponent
                        },
                        exported,
                        default_export: exported,
                        props_name: None,
                        props_type_text: None,
                        hooks: Seq::empty(),
                        jsx_root: first_jsx_name(t, v),
                        range: node_range_spec(t[n]),
                        confidence: if arrow { Confidence::High } else { Confidence::Medium },
                        evidence: seq![node_evidence(t, n, "variable_declarator"@)],
                    })
                },
            }
        },
    }
}

/// The component a class `n` extending a React component class declares.
pub open spec fn class_component(t: Seq<SyntaxNode>, n: int, path: Seq<char>) -> Option<ComponentView> {
    match field_child(t, n, "name"@) {
        None => None,
        Some(nm) => if !extends_react(t, n) {
            None
        } else {
            Some(ComponentView {
                file_path: path,
                name: t[nm].text@,
                kind: ComponentKind::ClassComponent,
                exported: false,
                default_export: false,
                props_name: None,
                props_type_text: None,
                hooks: Seq::empty(),
                jsx_root: None,
                range: node_range_spec(t[n]),
                confidence: Confidence::High,
                evidence: seq![node_evidence(t, n, "class_declaration"@)],
            })
        },
    }
}

/// The components of the first `k` children of lexical declaration `d`.
pub open spec fn lexical_components(t: Seq<SyntaxNode>, d: int, k: int, exported: bool, path: Seq<char>) -> Seq<ComponentView>
    decreases k,
{
    if 0 < k <= child_count_of(t, d) {
        lexical_components(t, d, k - 1, exported, path) + opt_seq(variable_component(t, child_of(t, d, k - 1), exported, path))
    } else {
        Seq::empty()
    }
}

/// The components of the first `k` children of export statement `e`.
pub open spec fn export_components(t: Seq<SyntaxNode>, e: int, k: int, path: Seq<char>) -> Seq<ComponentView>
    decreases k,
{
    if 0 < k <= child_count_of(t, e) {
        let c = child_of(t, e, k - 1);
        export_components(t, e, k - 1, path) + if kind_is(t, c, "function_declaration"@) {
            opt_seq(function_component(t, c, true, path))
        } else if kind_is(t, c, "lexical_declaration"@) {
            lexical_components(t, c, child_count_of(t, c), true, path)
        } else {
            Seq::empty()
        }
    } else {
        Seq::empty()
    }
}

/// The kinds of node the detector reads without entering.
pub open spec fn component_kinds() -> Seq<&'static str> {
    seq!["function_declaration", "export_statement", "lexical_declaration", "class_declaration"]
}

/// What node `n` contributes.
pub open spec fn component_item(t: Seq<SyntaxNode>, path: Seq<char>) -> spec_fn(int) -> Seq<ComponentView> {
    |n: int| if kind_is(t, n, "function_declaration"@) {
        opt_seq(function_component(t, n, false, path))
    } else if kind_is(t, n, "export_statement"@) {
        export_components(t, n, child_count_of(t, n), path)
    } else if kind_is(t, n, "lexical_declaration"@) {
        lexical_components(t, n, child_count_of(t, n), false, path)
    } else if kind_is(t, n, "class_declaration"@) {
        opt_seq(class_component(t, n, path))
    } else {
        Seq::empty()
    }
}

/// The walk enters every node but declarations and exports.
pub open spec fn outside_components(t: Seq<SyntaxNode>) -> spec_fn(int) -> bool {
    |n: int| !kind_in(t, n, component_kinds())
}

/// The React components of a file, in pre-order.
pub open spec fn components_of(t: Seq<SyntaxNode>, path: Seq<char>) -> Seq<ComponentView> {
    walk(t, 0, component_item(t, path), outside_components(t))
}

fn jsx_element_name_exec(t: &SyntaxTree, n: usize) -> (r: Option<String>)
    requires
        n < t@.len(),
    ensures
        opt_text(r) == jsx_element_name(t@, n as int),
{
    t.wf();
    let elems: &[&str] = &["jsx_element", "jsx_self_closing_element"];
    assert(elems@ =~= seq!["jsx_element", "jsx_self_closing_element"]);
    let node = t.node(n);
    if !has_kind_in(t, n, elems) || node.children.len() == 0 {
        return None;
    }
    let o = node.children[0];
    assert(o as int == child_of(t@, n as int, 0));
    let openings: &[&str] = &["jsx_opening_element", "jsx_self_closing_element"];
    assert(openings@ =~= seq!["jsx_opening_element", "jsx_self_closing_element"]);
    if !has_kind_in(t, o, openings) {
        return None;
    }
    let names: &[&str] = &["identifier", "member_expression"];
    assert(names@ =~= seq!["identifier", "member_expression"]);
    match child_with_kind_in(t, o, names) {
        Some(c) => Some(t.node(c).text.clone()),
        None => None,
    }
}

fn find_first_jsx_element(t: &SyntaxTree, i: usize) -> (r: Option<String>)
    requires
        i < t@.len(),
    ensures
        opt_text(r) == first_jsx_name(t@, i as int),
    decreases t@.len() - i,
{
    t.wf();
    let ghost item = jsx_name_item(t@);
    proof { lemma_walk_unfold(t@, i as int, item, every_node()); }
    if let Some(name) = jsx_element_name_exec(t, i) {
        return Some(name);
    }
    let node = t.node(i);
    let m = node.children.len();
    let mut k: usize = 0;
    assert(item(i as int).len() == 0);
    while k < m
        invariant
            tree_wf(t@),
            i < t@.len(),
            node == t@[i as int],
            m == child_count_of(t@, i as int),
            k <= m,
            item == jsx_name_item(t@),
            item(i as int).len() == 0,
            walk(t@, i as int, item, every_node()) == item(i as int) + walk_children(t@, i as int, m as int, item, every_node()),
            walk_children(t@, i as int, k as int, item, every_node()).len() == 0,
        decreases m - k,
    {
        let c = node.children[k];
        proof { lemma_walk_children_step(t@, i as int, k as int, item, every_node()); }
        let found = find_first_jsx_element(t, c);
        if found.is_some() {
            proof {
                let w = walk_children(t@, i as int, k + 1, item, every_node());
                lemma_prefix_of_children(t@, i as int, k + 1, m as int, item);
                assert(w =~= walk_children(t@, i as int, k as int, item, every_node()) + walk(t@, c as int, item, every_node()));
            }
            return found;
        }
        k = k + 1;
    }
    None
}

/// The walk over the first `k` children of node `i` begins the walk over the first `m`.
proof fn lemma_prefix_of_children(t: Seq<SyntaxNode>, i: int, k: int, m: int, item: spec_fn(int) -> Seq<Seq<char>>)
    requires
        tree_wf(t),
        0 <= i < t.len(),
        0 <= k <= m <= child_count_of(t, i),
    ensures
        walk_children(t, i, m, item, every_node()).len() >= walk_children(t, i, k, item, every_node()).len(),
        forall|j: int| 0 <= j < walk_children(t, i, k, item, every_node()).len()
            ==> walk_children(t, i, m, item, every_node())[j] == walk_children(t, i, k, item, every_node())[j],
    decreases m - k,
{
    if k < m {
        lemma_prefix_of_children(t, i, k, m - 1, item);
        lemma_walk_children_step(t, i, m - 1, item, every_node());
    }
}

fn is_default_export(t: &SyntaxTree, n: usize) -> (r: bool)
    requires
        n < t@.len(),
    ensures
        r == default_exported(t@, n as int),
{
    match parent_of(t, n) {
        Some(p) => has_kind(t, p, "export_statement") && has_anonymous_child(t, p, "default"),
        None => false,
    }
}

fn extract_props(t: &SyntaxTree, n: usize) -> (r: (Option<String>, Option<String>))
    requires
        n < t@.len(),
    ensures
        (opt_text(r.0), opt_text(r.1)) == component_props(t@, n as int),
{
    t.wf();
    let p = match child_by_field(t, n, "parameters") {
        Some(p) => p,
        None => {
            return (None, None);
        },
    };
    let node = t.node(p);
    let m = node.children.len();
    let mut k: usize = 0;
    while k < m
        invariant
            tree_wf(t@),
            p < t@.len(),
            node == t@[p as int],
            m == child_count_of(t@, p as int),
            k <= m,
            props_from(t@, p as int, 0) == props_from(t@, p as int, k as int),
            component_props(t@, n as int) == props_from(t@, p as int, 0),
        decreases m - k,
    {
        let c = node.children[k];
        assert(c as int == child_of(t@, p as int, k as int));
        if t.node(c).named && !has_kind(t, c, "{") && !has_kind(t, c, "[") && child_by_field(t, c, "name").is_some() {
            return (extract_field_text(t, c, "name"), extract_field_text(t, c, "type"));
        }
        k = k + 1;
    }
    (None, None)
}

fn extends_react_component(t: &SyntaxTree, n: usize) -> (r: bool)
    requires
        n < t@.len(),
    ensures
        r == extends_react(t@, n as int),
{
    t.wf();
    match child_by_field(t, n, "extends") {
        Some(h) => {
            let node = t.node(h);
            if node.children.len() == 0 {
                return false;
            }
            let c = node.children[0];
            assert(c as int == child_of(t@, h as int, 0));
            let bases: &[&str] = &["Component", "PureComponent", "React.Component", "React.PureComponent"];
            assert(bases@ =~= react_bases());
            str_in(t.node(c).text.as_str(), bases)
        },
        None => false,
    }
}

fn is_wrapped_with(t: &SyntaxTree, v: usize, name: &str) -> (r: bool)
    requires
        v < t@.len(),
    ensures
        r == wrapped_with(t@, v as int, name@),
{
    match parent_of(t, v) {
        Some(p) => has_kind(t, p, "call_expression") && match child_by_field(t, p, "function") {
            Some(f) => str_eq(t.node(f).text.as_str(), name),
            None => false,
        },
        None => false,
    }
}

fn jsx_kind_list() -> (r: &'static [&'static str])
    ensures
        r@ == jsx_kinds(),
{
    let ks: &[&str] = &["jsx_element", "jsx_self_closing_element", "jsx_fragment"];
    assert(ks@ =~= jsx_kinds());
    ks
}

fn extract_fn_component(t: &SyntaxTree, n: usize, exported: bool, ctx: &AstFileContext) -> (r: Option<AstReactComponent>)
    requires
        n < t@.len(),
    ensures
        match r {
            Some(x) => function_component(t@, n as int, exported, ctx.relative_path@) == Some(x@),
            None => function_component(t@, n as int, exported, ctx.relative_path@) is None,
        },
{
    let nm = match child_by_field(t, n, "name") {
        Some(nm) => nm,
        None => {
            return None;
        },
    };
    let name = t.node(nm).text.as_str();
    if !is_pascal_case(name) {
        return None;
    }
    let has_jsx = has_kind_in_subtree(t, n, jsx_kind_list());
    let default_export = exported && is_default_export(t, n);
    let (props_name, props_type_text) = extract_props(t, n);
    let jsx_root = if has_jsx { find_first_jsx_element(t, n) } else { None };
    let hooks: Vec<String> = Vec::new();
    assert(crate::shared::texts(hooks@) =~= Seq::<Seq<char>>::empty());
    Some(AstReactComponent {
        file_path: ctx.relative_path.clone(),
        name: name.to_owned(),
        kind: ComponentKind::FunctionComponent,
        exported,
        default_export,
        props_name,
        props_type_text,
        hooks,
        jsx_root,
        range: node_range(t.node(n)),
        confidence: if has_jsx { Confidence::High } else { Confidence::Low },
        evidence: evidence_list(t, n, "function_declaration"),
    })
}

fn extract_var_component(t: &SyntaxTree, n: usize, exported: bool, ctx: &AstFileContext) -> (r: Option<AstReactComponent>)
    requires
        n < t@.len(),
    ensures
        match r {
            Some(x) => variable_component(t@, n as int, exported, ctx.relative_path@) == Some(x@),
            None => variable_component(t@, n as int, exported, ctx.relative_path@) is None,
        },
{
    let nm = match child_by_field(t, n, "name") {
        Some(nm) => nm,
        None => {
            return None;
        },
    };
    let name = t.node(nm).text.as_str();
    if !is_pascal_case(name) {
        return None;
    }
    let v = match child_by_field(t, n, "value") {
        Some(v) => v,
        None => {
            return None;
        },
    };
    if !has_kind_in_subtree(t, v, jsx_kind_list()) {
        return None;
    }
    let arrow = has_kind(t, v, "arrow_function");
    let kind = if !arrow {
        ComponentKind::Unknown
    } else if is_wrapped_with(t, v, "memo") {
        ComponentKind::MemoComponent
    } else if is_wrapped_with(t, v, "forwardRef") {
        ComponentKind::ForwardRefComponent
    } else {
        ComponentKind::ArrowFunctionComponent
    };
    let hooks: Vec<String> = Vec::new();
    assert(crate::shared::texts(hooks@) =~= Seq::<Seq<char>>::empty());
    Some(AstReactComponent {
        file_path: ctx.relative_path.clone(),
        name: name.to_owned(),
        kind,
        exported,
        default_export: exported,
        props_name: None,
        props_type_text: None,
        hooks,
        jsx_root: find_first_jsx_element(t, v),
        range: node_range(t.node(n)),
        confidence: if arrow { Confidence::High } else { Confidence::Medium },
        evidence: evidence_list(t, n, "variable_declarator"),
    })
}

fn extract_class_component(t: &SyntaxTree, n: usize, ctx: &AstFileContext) -> (r: Option<AstReactComponent>)
    requires
        n < t@.len(),
    ensures
        match r {
            Some(x) => class_component(t@, n as int, ctx.relative_path@) == Some(x@),
            None => class_component(t@, n as int, ctx.relative_path@) is None,
        },
{
    let nm = match child_by_field(t, n, "name") {
        Some(nm) => nm,
        None => {
            return None;
        },
    };
    if !extends_react_component(t, n) {
        return None;
    }
    let hooks: Vec<String> = Vec::new();
    assert(crate::shared::texts(hooks@) =~= Seq::<Seq<char>>::empty());
    Some(AstReactComponent {
        file_path: ctx.relative_path.clone(),
        name: t.node(nm).text.clone(),
        kind: ComponentKind::ClassComponent,
        exported: false,
        default_export: false,
        props_name: None,
        props_type_text: None,
        hooks,
        jsx_root: None,
        range: node_range(t.node(n)),
        confidence: Confidence::High,
        evidence: evidence_list(t, n, "class_declaration"),
    })
}

fn push_component(out: &mut Vec<AstReactComponent>, r: Option<AstReactComponent>)
    ensures
        views(final(out)@) == views(old(out)@) + match r { Some(x) => seq![x@], None => Seq::empty() },
{
    if let Some(x) = r {
        out.push(x);
    }
    assert(views(out@) =~= views(old(out)@) + match r { Some(x) => seq![x@], None => Seq::empty() });
}

fn lexical_exec(t: &SyntaxTree, d: usize, exported: bool, ctx: &AstFileContext, out: &mut Vec<AstReactComponent>)
    requires
        d < t@.len(),
    ensures
        views(final(out)@) == views(old(out)@) + lexical_components(t@, d as int, child_count_of(t@, d as int), exported, ctx.relative_path@),
{
    t.wf();
    let node = t.node(d);
    let m = node.children.len();
    let ghost base = views(out@);
    let mut k: usize = 0;
    assert(base + lexical_components(t@, d as int, 0, exported, ctx.relative_path@) =~= base);
    while k < m
        invariant
            tree_wf(t@),
            d < t@.len(),
            node == t@[d as int],
            m == child_count_of(t@, d as int),
            k <= m,
            views(out@) == base + lexical_components(t@, d as int, k as int, exported, ctx.relative_path@),
        decreases m - k,
    {
        let c = node.children[k];
        assert(c as int == child_of(t@, d as int, k as int));
        let ghost before = views(out@);
        push_component(out, extract_var_component(t, c, exported, ctx));
        assert(views(out@) =~= before + opt_seq(variable_component(t@, c as int, exported, ctx.relative_path@)));
        k = k + 1;
    }
}

fn export_exec(t: &SyntaxTree, e: usize, ctx: &AstFileContext, out: &mut Vec<AstReactComponent>)
    requires
        e < t@.len(),
    ensures
        views(final(out)@) == views(old(out)@) + export_components(t@, e as int, child_count_of(t@, e as int), ctx.relative_path@),
{
    t.wf();
    let node = t.node(e);
    let m = node.children.len();
    let ghost base = views(out@);
    let mut k: usize = 0;
    assert(base + export_components(t@, e as int, 0, ctx.relative_path@) =~= base);
    while k < m
        invariant
            tree_wf(t@),
            e < t@.len(),
            node == t@[e as int],
            m == child_count_of(t@, e as int),
            k <= m,
            views(out@) == base + export_components(t@, e as int, k as int, ctx.relative_path@),
        decreases m - k,
    {
        let c = node.children[k];
        assert(c as int == child_of(t@, e as int, k as int));
        let ghost before = views(out@);
        let ghost part = if kind_is(t@, c as int, "function_declaration"@) {
            opt_seq(function_component(t@, c as int, true, ctx.relative_path@))
        } else if kind_is(t@, c as int, "lexical_declaration"@) {
            lexical_components(t@, c as int, child_count_of(t@, c as int), true, ctx.relative_path@)
        } else {
            Seq::empty()
        };
        if has_kind(t, c, "function_declaration") {
            push_component(out, extract_fn_component(t, c, true, ctx));
        } else if has_kind(t, c, "lexical_declaration") {
            lexical_exec(t, c, true, ctx, out);
        }
        assert(before + part =~= views(out@));
        assert(base + export_components(t@, e as int, k + 1, ctx.relative_path@) =~= base + export_components(t@, e as int, k as int, ctx.relative_path@) + part);
        k = k + 1;
    }
}

struct ComponentVisitor<'a> {
    ctx: &'a AstFileContext,
}

impl<'a> NodeVisitor for ComponentVisitor<'a> {
    type Item = AstReactComponent;

    closed spec fn items_at(&self, t: Seq<SyntaxNode>, n: int) -> Seq<ComponentView> {
        component_item(t, self.ctx.relative_path@)(n)
    }

    closed spec fn descends(&self, t: Seq<SyntaxNode>, n: int) -> bool {
        outside_components(t)(n)
    }

    fn visit(&self, t: &SyntaxTree, n: usize, out: &mut Vec<AstReactComponent>) {
        if has_kind(t, n, "function_declaration") {
            push_component(out, extract_fn_component(t, n, false, self.ctx));
        } else if has_kind(t, n, "export_statement") {
            export_exec(t, n, self.ctx, out);
        } else if has_kind(t, n, "lexical_declaration") {
            lexical_exec(t, n, false, self.ctx, out);
        } else if has_kind(t, n, "class_declaration") {
            push_component(out, extract_class_component(t, n, self.ctx));
        }
        assert(views(out@) =~= views(old(out)@) + self.items_at(t@, n as int));
    }

    fn enters(&self, t: &SyntaxTree, n: usize) -> (r: bool) {
        let ks: &[&str] = &["function_declaration", "export_statement", "lexical_declaration", "class_declaration"];
        assert(ks@ =~= component_kinds());
        !has_kind_in(t, n, ks)
    }
}

impl ReactComponentDetector {
    /// The React components of a file, in pre-order (declarations, exports and classes
    /// are read, not entered).
    pub fn find_components(&self, ctx: &AstFileContext) -> (r: Vec<AstReactComponent>)
        ensures
            views(r@) == components_of(ctx.tree@, ctx.relative_path@),
    {
        let v = ComponentVisitor { ctx };
        let r = collect_all(&v, &ctx.tree);
        assert(crate::visit::item_fn(&v, ctx.tree@) =~= component_item(ctx.tree@, ctx.relative_path@));
        assert(crate::visit::descend_fn(&v, ctx.tree@) =~= outside_components(ctx.tree@));
        r
    }
}

impl AstDetector<AstReactComponent> for ReactComponentDetector {
    fn detect(&self, ctx: &AstFileContext) -> (r: Vec<AstReactComponent>)
        ensures
            views(r@) == components_of(ctx.tree@, ctx.relative_path@),
    {
        self.find_components(ctx)
    }
}

} // verus!
