//! React hooks: calls of `useXxx` functions, and custom hooks defined as functions or
//! variables named `useXxx`.
use vstd::prelude::*;

use super::{AstHook, HookKind, HookView};
use crate::extractors::{extract_field_text, field_text};
use crate::frameworks::{AstDetector, AstFileContext, Confidence, char_is_uppercase, evidence_list, is_upper, node_evidence};
use crate::syntax::{
    SyntaxNode, SyntaxTree, ancestor_with_kind_in, child_by_field, every_node, field_child,
    first_ancestor, has_kind, kind_among, kind_is, node_range, node_range_spec, opt_seq, str_in,
    text_in, walk,
};
use crate::text::{chars_of, chars_start_with, starts_with_seq};
use crate::visit::{NodeVisitor, collect_all, views};

verus! {

/// Detects React hooks.
pub struct ReactHookDetector;

/// React's built-in hooks.
pub open spec fn builtin_hooks() -> Seq<&'static str> {
    seq![
        "useState", "useEffect", "useMemo", "useCallback", "useRef", "useReducer", "useContext",
        "useLayoutEffect", "useImperativeHandle", "useTransition", "useDeferredValue", "useId",
        "useSyncExternalStore",
    ]
}

/// Whether a name is a hook's: `use` followed by an uppercase letter.
pub open spec fn hook_name(s: Seq<char>) -> bool {
    starts_with_seq(s, "use"@) && s.len() > 3 && is_upper(s[3])
}

/// The kinds of node whose name a hook call is attributed to.
pub open spec fn enclosing_kinds() -> Seq<&'static str> {
    seq!["function_declaration", "arrow_function", "variable_declarator"]
}

/// The hook call `n` makes, if its function is named like a hook; it belongs to the
/// name of the nearest enclosing function, arrow function or variable declarator.
pub open spec fn hook_call(t: Seq<SyntaxNode>, n: int, path: Seq<char>) -> Option<HookView> {
    match field_child(t, n, "function"@) {
        None => None,
        Some(f) => if !hook_name(t[f].text@) {
            None
        } else {
            Some(HookView {
                file_path: path,
                name: t[f].text@,
                kind: if text_in(t[f].text@, builtin_hooks()) { HookKind::BuiltinUsage } else { HookKind::CustomUsage },
                enclosing_component: match first_ancestor(t, n, kind_among(t, enclosing_kinds())) {
                    Some(p) => field_text(t, p, "name"@),
                    None => None,
                },
                range: node_range_spec(t[n]),
                confidence: Confidence::High,
                evidence: seq![node_evidence(t, n, "call_expression"@)],
            })
        },
    }
}

/// The custom hook node `n` defines, if its name is a hook's but not a built-in's.
pub open spec fn hook_definition(t: Seq<SyntaxNode>, n: int, label: Seq<char>, path: Seq<char>) -> Option<HookView> {
    match field_child(t, n, "name"@) {
        None => None,
        Some(nm) => if !hook_name(t[nm].text@) || text_in(t[nm].text@, builtin_hooks()) {
            None
        } else {
            Some(HookView {
                file_path: path,
                name: t[nm].text@,
                kind: HookKind::CustomDefinition,
                enclosing_component: None,
                range: node_range_spec(t[n]),
                confidence: Confidence::High,
                evidence: seq![node_evidence(t, n, label)],
            })
        },
    }
}

/// What node `n` contributes.
pub open spec fn hook_item(t: Seq<SyntaxNode>, path: Seq<char>) -> spec_fn(int) -> Seq<HookView> {
    |n: int| if kind_is(t, n, "call_expression"@) {
        opt_seq(hook_call(t, n, path))
    } else if kind_is(t, n, "function_declaration"@) || kind_is(t, n, "arrow_function"@) {
        opt_seq(hook_definition(t, n, "function_declaration"@, path))
    } else if kind_is(t, n, "variable_declarator"@) {
        opt_seq(hook_definition(t, n, "variable_declarator"@, path))
    } else {
        Seq::empty()
    }
}

/// The hooks of a file, in pre-order.
pub open spec fn hooks_of(t: Seq<SyntaxNode>, path: Seq<char>) -> Seq<HookView> {
    walk(t, 0, hook_item(t, path), every_node())
}

fn is_hook_name(s: &str) -> (r: bool)
    ensures
        r == hook_name(s@),
{
    let c = chars_of(s);
    let u = chars_of("use");
    proof { reveal_strlit("use"); }
    if c.len() <= 3 {
        return false;
    }
    chars_start_with(c.as_slice(), u.as_slice()) && char_is_uppercase(c[3])
}

fn builtin_names() -> (r: &'static [&'static str])
    ensures
        r@ == builtin_hooks(),
{
    let names: &[&str] = &[
        "useState", "useEffect", "useMemo", "useCallback", "useRef", "useReducer", "useContext",
        "useLayoutEffect", "useImperativeHandle", "useTransition", "useDeferredValue", "useId",
        "useSyncExternalStore",
    ];
    assert(names@ =~= builtin_hooks());
    names
}

fn extract_hook_call(t: &SyntaxTree, n: usize, ctx: &AstFileContext) -> (r: Option<AstHook>)
    requires
        n < t@.len(),
    ensures
        match r {
            Some(x) => hook_call(t@, n as int, ctx.relative_path@) == Some(x@),
            None => hook_call(t@, n as int, ctx.relative_path@) is None,
        },
{
    let f = match child_by_field(t, n, "function") {
        Some(f) => f,
        None => {
            return None;
        },
    };
    let callee = t.node(f).text.as_str();
    if !is_hook_name(callee) {
        return None;
    }
    let kind = if str_in(callee, builtin_names()) { HookKind::BuiltinUsage } else { HookKind::CustomUsage };
    let ks: &[&str] = &["function_declaration", "arrow_function", "variable_declarator"];
    assert(ks@ =~= enclosing_kinds());
    let enclosing = match ancestor_with_kind_in(t, n, ks) {
        Some(p) => extract_field_text(t, p, "name"),
        None => None,
    };
    Some(AstHook {
        file_path: ctx.relative_path.clone(),
        name: callee.to_owned(),
        kind,
        enclosing_component: enclosing,
        range: node_range(t.node(n)),
        confidence: Confidence::High,
        evidence: evidence_list(t, n, "call_expression"),
    })
}

fn extract_hook_definition(t: &SyntaxTree, n: usize, label: &str, ctx: &AstFileContext) -> (r: Option<AstHook>)
    requires
        n < t@.len(),
    ensures
        match r {
            Some(x) => hook_definition(t@, n as int, label@, ctx.relative_path@) == Some(x@),
            None => hook_definition(t@, n as int, label@, ctx.relative_path@) is None,
        },
{
    let nm = match child_by_field(t, n, "name") {
        Some(nm) => nm,
        None => {
            return None;
        },
    };
    let name = t.node(nm).text.as_str();
    if !is_hook_name(name) || str_in(name, builtin_names()) {
        return None;
    }
    Some(AstHook {
        file_path: ctx.relative_path.clone(),
        name: name.to_owned(),
        kind: HookKind::CustomDefinition,
        enclosing_component: None,
        range: node_range(t.node(n)),
        confidence: Confidence::High,
        evidence: evidence_list(t, n, label),
    })
}

fn push_hook(out: &mut Vec<AstHook>, r: Option<AstHook>)
    ensures
        views(final(out)@) == views(old(out)@) + match r { Some(x) => seq![x@], None => Seq::empty() },
{
    if let Some(x) = r {
        out.push(x);
    }
    assert(views(out@) =~= views(old(out)@) + match r { Some(x) => seq![x@], None => Seq::empty() });
}

struct HookVisitor<'a> {
    ctx: &'a AstFileContext,
}

impl<'a> NodeVisitor for HookVisitor<'a> {
    type Item = AstHook;

    closed spec fn items_at(&self, t: Seq<SyntaxNode>, n: int) -> Seq<HookView> {
        hook_item(t, self.ctx.relative_path@)(n)
    }

    closed spec fn descends(&self, t: Seq<SyntaxNode>, n: int) -> bool {
        true
    }

    fn visit(&self, t: &SyntaxTree, n: usize, out: &mut Vec<AstHook>) {
        if has_kind(t, n, "call_expression") {
            push_hook(out, extract_hook_call(t, n, self.ctx));
        } else if has_kind(t, n, "function_declaration") || has_kind(t, n, "arrow_function") {
            let h = extract_hook_definition(t, n, "function_declaration", self.ctx);
            proof { reveal_strlit("function_declaration"); }
            push_hook(out, h);
        } else if has_kind(t, n, "variable_declarator") {
            let h = extract_hook_definition(t, n, "variable_declarator", self.ctx);
            proof { reveal_strlit("variable_declarator"); }
            push_hook(out, h);
        }
        assert(views(out@) =~= views(old(out)@) + self.items_at(t@, n as int));
    }

    fn enters(&self, t: &SyntaxTree, n: usize) -> (r: bool) {
        true
    }
}

impl ReactHookDetector {
    /// The hooks of a file, in pre-order: calls whose function is named `use` and an
    /// uppercase letter (built-in or custom usages, with the name of the nearest enclosing
    /// function or variable), and functions, arrow functions and variables so named that
    /// are not built-in hooks (custom definitions).
    pub fn find_hooks(&self, ctx: &AstFileContext) -> (r: Vec<AstHook>)
        ensures
            views(r@) == hooks_of(ctx.tree@, ctx.relative_path@),
    {
        let v = HookVisitor { ctx };
        let r = collect_all(&v, &ctx.tree);
        assert(crate::visit::item_fn(&v, ctx.tree@) =~= hook_item(ctx.tree@, ctx.relative_path@));
        assert(crate::visit::descend_fn(&v, ctx.tree@) =~= every_node());
        r
    }
}

impl AstDetector<AstHook> for ReactHookDetector {
    fn detect(&self, ctx: &AstFileContext) -> (r: Vec<AstHook>)
        ensures
            views(r@) == hooks_of(ctx.tree@, ctx.relative_path@),
    {
        self.find_hooks(ctx)
    }
}

} // verus!
