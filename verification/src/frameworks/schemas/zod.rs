//! Zod object schemas: `const User = z.object({ .. })` declarations and bare
//! `z.object({ .. })` calls.
use vstd::prelude::*;

use super::{AstSchemaDefinition, AstSchemaField, FieldView, SchemaView, cut_type_text, cuttable, is_cuttable, type_cut};
use crate::frameworks::{AstDetector, AstFileContext, Confidence, evidence_list, node_evidence};
use crate::syntax::{
    SyntaxNode, SyntaxTree, child_by_field, child_count_of, child_of, every_node, field_child,
    has_kind, kind_is, lemma_walk_children_step, lemma_walk_unfold, node_range, node_range_spec,
    opt_seq, tree_wf, walk, walk_children,
};
use crate::text::{CharSet, chars_end_with, chars_of, contains_seq, ends_with_seq, str_contains, str_eq, string_bytes, trim_set, trim_str};
use crate::visit::{NodeVisitor, collect_all, collect_from, descend_fn, item_fn, views, visit_walk};

verus! {

/// Detects Zod object schemas.
pub struct ZodSchemaDetector;

/// Whether node `n` is a call of `z.object` (its function text mentions `z.object` or
/// `.object(`).
pub open spec fn z_object_call(t: Seq<SyntaxNode>, n: int) -> bool {
    kind_is(t, n, "call_expression"@) && match field_child(t, n, "function"@) {
        Some(f) => contains_seq(t[f].text@, "z.object"@) || contains_seq(t[f].text@, ".object("@),
        None => false,
    }
}

/// Whether the function of call `n` is named `.object` (ends with it, or is `z.object`).
pub open spec fn object_call_name(t: Seq<SyntaxNode>, n: int) -> bool {
    match field_child(t, n, "function"@) {
        Some(f) => ends_with_seq(t[f].text@, ".object"@) || t[f].text@ == "z.object"@,
        None => false,
    }
}

/// The field a `pair` node `p` with a key declares: named by the key without quotes; its
/// type is the value's text cut to 200 bytes; optional when that text holds `.optional()`
/// or `.nullable()`.
pub open spec fn pair_field(t: Seq<SyntaxNode>, p: int, key: int) -> FieldView {
    let v = field_child(t, p, "value"@);
    FieldView {
        name: trim_set(t[key].text@, CharSet::QuotesOrBacktick),
        type_bytes: match v { Some(x) => Some(type_cut(t[x].text@)), None => None },
        required: Some(match v {
            Some(x) => !(contains_seq(vstd::utf8::decode_utf8(type_cut(t[x].text@)), ".optional()"@)
                || contains_seq(vstd::utf8::decode_utf8(type_cut(t[x].text@)), ".nullable()"@)),
            None => true,
        }),
        range: match v { Some(x) => Some(node_range_spec(t[x])), None => None },
    }
}

/// The fields of the pairs with a key among the first `j` children of object `o`.
pub open spec fn object_fields(t: Seq<SyntaxNode>, o: int, j: int) -> Seq<FieldView>
    decreases j,
{
    if 0 < j <= child_count_of(t, o) {
        let p = child_of(t, o, j - 1);
        object_fields(t, o, j - 1) + if kind_is(t, p, "pair"@) {
            match field_child(t, p, "key"@) { Some(k) => seq![pair_field(t, p, k)], None => Seq::empty() }
        } else {
            Seq::empty()
        }
    } else {
        Seq::empty()
    }
}

/// The fields of the object arguments among the first `k` children of argument list `a`.
pub open spec fn argument_fields(t: Seq<SyntaxNode>, a: int, k: int) -> Seq<FieldView>
    decreases k,
{
    if 0 < k <= child_count_of(t, a) {
        let o = child_of(t, a, k - 1);
        argument_fields(t, a, k - 1) + if kind_is(t, o, "object"@) { object_fields(t, o, child_count_of(t, o)) } else { Seq::empty() }
    } else {
        Seq::empty()
    }
}

/// Whether the values of the keyed pairs among the first `j` children of object `o` can
/// be cut.
pub open spec fn object_cuttable(t: Seq<SyntaxNode>, o: int, j: int) -> bool
    decreases j,
{
    if 0 < j <= child_count_of(t, o) {
        let p = child_of(t, o, j - 1);
        object_cuttable(t, o, j - 1) && (kind_is(t, p, "pair"@) && field_child(t, p, "key"@) is Some ==> match field_child(t, p, "value"@) {
            Some(v) => cuttable(t[v].text@),
            None => true,
        })
    } else {
        true
    }
}

/// Whether the pair values of the object arguments among the first `k` children of
/// argument list `a` can be cut.
pub open spec fn arguments_cuttable(t: Seq<SyntaxNode>, a: int, k: int) -> bool
    decreases k,
{
    if 0 < k <= child_count_of(t, a) {
        let o = child_of(t, a, k - 1);
        arguments_cuttable(t, a, k - 1) && (kind_is(t, o, "object"@) ==> object_cuttable(t, o, child_count_of(t, o)))
    } else {
        true
    }
}

/// Whether the object arguments of every call of `z.object` or of a `.object` function in
/// the tree have pair values that can be cut to 200 bytes.
pub open spec fn zod_cuttable(t: Seq<SyntaxNode>) -> bool {
    forall|n: int| 0 <= n < t.len() && (#[trigger] z_object_call(t, n) || object_call_name(t, n)) ==> match field_child(t, n, "arguments"@) {
        Some(a) => arguments_cuttable(t, a, child_count_of(t, a)),
        None => true,
    }
}

/// The fields of the arguments of call `n`, if it has arguments.
pub open spec fn call_fields(t: Seq<SyntaxNode>, n: int) -> Seq<FieldView> {
    match field_child(t, n, "arguments"@) {
        Some(a) => argument_fields(t, a, child_count_of(t, a)),
        None => Seq::empty(),
    }
}

/// What node `n` of a declared value gives: the fields of a `z.object` call.
pub open spec fn z_field_item(t: Seq<SyntaxNode>) -> spec_fn(int) -> Seq<FieldView> {
    |n: int| if z_object_call(t, n) { call_fields(t, n) } else { Seq::empty() }
}

/// Reading a declared value enters every node but `z.object` calls.
pub open spec fn outside_z_calls(t: Seq<SyntaxNode>) -> spec_fn(int) -> bool {
    |n: int| !z_object_call(t, n)
}

/// The `z.object` calls in the subtree of node `v`, one unit each, in pre-order.
pub open spec fn z_calls_in(t: Seq<SyntaxNode>, v: int) -> Seq<()> {
    walk(t, v, |n: int| if z_object_call(t, n) { seq![()] } else { Seq::<()>::empty() }, every_node())
}

/// The schema of variable declarator `n`: its value holds a `z.object` call; its fields
/// are those of the outermost such calls.
pub open spec fn declared_schema(t: Seq<SyntaxNode>, n: int, path: Seq<char>, language: Seq<char>) -> Option<SchemaView> {
    match field_child(t, n, "name"@) {
        None => None,
        Some(nm) => match field_child(t, n, "value"@) {
            None => None,
            Some(v) => if z_calls_in(t, v).len() == 0 {
                None
            } else {
                Some(SchemaView {
                    file_path: path,
                    language,
                    kind: "zod_object"@,
                    name: Some(t[nm].text@),
                    framework: Some("zod"@),
                    fields: walk(t, v, z_field_item(t), outside_z_calls(t)),
                    range: node_range_spec(t[n]),
                    confidence: Confidence::High,
                    evidence: seq![node_evidence(t, n, "variable_declarator"@)],
                })
            },
        },
    }
}

/// The schema of call `n` of a `.object` function with at least one field.
pub open spec fn called_schema(t: Seq<SyntaxNode>, n: int, path: Seq<char>, language: Seq<char>) -> Option<SchemaView> {
    if object_call_name(t, n) && field_child(t, n, "arguments"@) is Some && call_fields(t, n).len() > 0 {
        Some(SchemaView {
            file_path: path,
            language,
            kind: "zod_object"@,
            name: None,
            framework: Some("zod"@),
            fields: call_fields(t, n),
            range: node_range_spec(t[n]),
            confidence: Confidence::High,
            evidence: seq![node_evidence(t, n, "call_expression"@)],
        })
    } else {
        None
    }
}

/// The schema found at node `n`, if any.
pub open spec fn zod_schema_at(t: Seq<SyntaxNode>, n: int, path: Seq<char>, language: Seq<char>) -> Option<SchemaView> {
    if kind_is(t, n, "variable_declarator"@) {
        declared_schema(t, n, path, language)
    } else if kind_is(t, n, "call_expression"@) {
        called_schema(t, n, path, language)
    } else {
        None
    }
}

/// What node `n` contributes.
pub open spec fn zod_item(t: Seq<SyntaxNode>, path: Seq<char>, language: Seq<char>) -> spec_fn(int) -> Seq<SchemaView> {
    |n: int| opt_seq(zod_schema_at(t, n, path, language))
}

/// The walk stops at a schema.
pub open spec fn outside_schemas(t: Seq<SyntaxNode>, path: Seq<char>, language: Seq<char>) -> spec_fn(int) -> bool {
    |n: int| zod_schema_at(t, n, path, language) is None
}

/// The Zod object schemas of a file, in pre-order.
pub open spec fn zod_schemas(t: Seq<SyntaxNode>, path: Seq<char>, language: Seq<char>) -> Seq<SchemaView> {
    walk(t, 0, zod_item(t, path, language), outside_schemas(t, path, language))
}

fn is_z_object_call(t: &SyntaxTree, n: usize) -> (r: bool)
    requires
        n < t@.len(),
    ensures
        r == z_object_call(t@, n as int),
{
    if !has_kind(t, n, "call_expression") {
        return false;
    }
    match child_by_field(t, n, "function") {
        Some(f) => {
            let text = t.node(f).text.as_str();
            str_contains(text, "z.object") || str_contains(text, ".object(")
        },
        None => false,
    }
}

fn has_object_call_name(t: &SyntaxTree, n: usize) -> (r: bool)
    requires
        n < t@.len(),
    ensures
        r == object_call_name(t@, n as int),
{
    match child_by_field(t, n, "function") {
        Some(f) => {
            let text = t.node(f).text.as_str();
            let chars = chars_of(text);
            let suffix = chars_of(".object");
            chars_end_with(chars.as_slice(), suffix.as_slice()) || str_eq(text, "z.object")
        },
        None => false,
    }
}

fn contains_z_object(t: &SyntaxTree, i: usize) -> (r: bool)
    requires
        i < t@.len(),
    ensures
        r == (z_calls_in(t@, i as int).len() > 0),
    decreases t@.len() - i,
{
    t.wf();
    let ghost item = |n: int| if z_object_call(t@, n) { seq![()] } else { Seq::<()>::empty() };
    proof { lemma_walk_unfold(t@, i as int, item, every_node()); }
    if is_z_object_call(t, i) {
        return true;
    }
    let node = t.node(i);
    let m = node.children.len();
    let mut k: usize = 0;
    while k < m
        invariant
            tree_wf(t@),
            i < t@.len(),
            node == t@[i as int],
            m == child_count_of(t@, i as int),
            k <= m,
            !z_object_call(t@, i as int),
            item == (|n: int| if z_object_call(t@, n) { seq![()] } else { Seq::<()>::empty() }),
            walk_children(t@, i as int, k as int, item, every_node()).len() == 0,
        decreases m - k,
    {
        let c = node.children[k];
        proof { lemma_walk_children_step(t@, i as int, k as int, item, every_node()); }
        if contains_z_object(t, c) {
            proof { crate::visit::lemma_walk_children_grows(t@, i as int, k + 1, m as int, item, every_node()); }
            return true;
        }
        k = k + 1;
    }
    false
}

fn pair_field_exec(t: &SyntaxTree, p: usize, key: usize) -> (r: AstSchemaField)
    requires
        p < t@.len(),
        key < t@.len(),
        match field_child(t@, p as int, "value"@) {
            Some(v) => cuttable(t@[v].text@),
            None => true,
        },
    ensures
        r@ == pair_field(t@, p as int, key as int),
{
    let name = trim_str(t.node(key).text.as_str(), CharSet::QuotesOrBacktick);
    match child_by_field(t, p, "value") {
        Some(v) => {
            let cut = cut_type_text(t.node(v).text.as_str());
            proof { vstd::utf8::encode_utf8_decode_utf8(cut@); }
            let optional = str_contains(cut.as_str(), ".optional()") || str_contains(cut.as_str(), ".nullable()");
            AstSchemaField { name, type_text: Some(cut), required: Some(!optional), range: Some(node_range(t.node(v))) }
        },
        None => AstSchemaField { name, type_text: None, required: Some(true), range: None },
    }
}

fn extract_zod_fields_from_object(t: &SyntaxTree, o: usize, out: &mut Vec<AstSchemaField>)
    requires
        o < t@.len(),
        object_cuttable(t@, o as int, child_count_of(t@, o as int)),
    ensures
        views(final(out)@) == views(old(out)@) + object_fields(t@, o as int, child_count_of(t@, o as int)),
{
    t.wf();
    let node = t.node(o);
    let m = node.children.len();
    let ghost base = views(out@);
    let mut j: usize = 0;
    assert(base + object_fields(t@, o as int, 0) =~= base);
    while j < m
        invariant
            tree_wf(t@),
            o < t@.len(),
            node == t@[o as int],
            m == child_count_of(t@, o as int),
            j <= m,
            object_cuttable(t@, o as int, m as int),
            views(out@) == base + object_fields(t@, o as int, j as int),
        decreases m - j,
    {
        let p = node.children[j];
        assert(p as int == child_of(t@, o as int, j as int));
        proof { lemma_object_cuttable_prefix(t@, o as int, j + 1, m as int); }
        let ghost before = views(out@);
        if has_kind(t, p, "pair") {
            if let Some(key) = child_by_field(t, p, "key") {
                out.push(pair_field_exec(t, p, key));
            }
        }
        assert(views(out@) =~= before + if kind_is(t@, p as int, "pair"@) {
            match field_child(t@, p as int, "key"@) { Some(k) => seq![pair_field(t@, p as int, k)], None => Seq::empty() }
        } else {
            Seq::empty()
        });
        j = j + 1;
    }
}

proof fn lemma_object_cuttable_prefix(t: Seq<SyntaxNode>, o: int, j: int, m: int)
    requires
        0 <= j <= m <= child_count_of(t, o),
        object_cuttable(t, o, m),
    ensures
        object_cuttable(t, o, j),
    decreases m - j,
{
    if j < m {
        lemma_object_cuttable_prefix(t, o, j, m - 1);
    }
}

proof fn lemma_arguments_cuttable_prefix(t: Seq<SyntaxNode>, a: int, k: int, m: int)
    requires
        0 <= k <= m <= child_count_of(t, a),
        arguments_cuttable(t, a, m),
    ensures
        arguments_cuttable(t, a, k),
    decreases m - k,
{
    if k < m {
        lemma_arguments_cuttable_prefix(t, a, k, m - 1);
    }
}

fn argument_fields_exec(t: &SyntaxTree, a: usize, out: &mut Vec<AstSchemaField>)
    requires
        a < t@.len(),
        arguments_cuttable(t@, a as int, child_count_of(t@, a as int)),
    ensures
        views(final(out)@) == views(old(out)@) + argument_fields(t@, a as int, child_count_of(t@, a as int)),
{
    t.wf();
    let node = t.node(a);
    let m = node.children.len();
    let ghost base = views(out@);
    let mut k: usize = 0;
    assert(base + argument_fields(t@, a as int, 0) =~= base);
    while k < m
        invariant
            tree_wf(t@),
            a < t@.len(),
            node == t@[a as int],
            m == child_count_of(t@, a as int),
            k <= m,
            arguments_cuttable(t@, a as int, m as int),
            views(out@) == base + argument_fields(t@, a as int, k as int),
        decreases m - k,
    {
        let o = node.children[k];
        assert(o as int == child_of(t@, a as int, k as int));
        proof { lemma_arguments_cuttable_prefix(t@, a as int, k + 1, m as int); }
        let ghost before = views(out@);
        if has_kind(t, o, "object") {
            extract_zod_fields_from_object(t, o, out);
        }
        assert(views(out@) =~= before + if kind_is(t@, o as int, "object"@) { object_fields(t@, o as int, child_count_of(t@, o as int)) } else { Seq::empty() });
        assert(base + argument_fields(t@, a as int, k + 1) =~= base + argument_fields(t@, a as int, k as int)
            + if kind_is(t@, o as int, "object"@) { object_fields(t@, o as int, child_count_of(t@, o as int)) } else { Seq::empty() });
        k = k + 1;
    }
}

fn call_fields_exec(t: &SyntaxTree, n: usize, out: &mut Vec<AstSchemaField>)
    requires
        n < t@.len(),
        zod_cuttable(t@),
        z_object_call(t@, n as int) || object_call_name(t@, n as int),
    ensures
        views(final(out)@) == views(old(out)@) + call_fields(t@, n as int),
{
    match child_by_field(t, n, "arguments") {
        Some(a) => argument_fields_exec(t, a, out),
        None => {
            assert(views(out@) =~= views(old(out)@) + call_fields(t@, n as int));
        },
    }
}

struct ZodFieldVisitor;

impl NodeVisitor for ZodFieldVisitor {
    type Item = AstSchemaField;

    closed spec fn items_at(&self, t: Seq<SyntaxNode>, n: int) -> Seq<FieldView> {
        if zod_cuttable(t) { z_field_item(t)(n) } else { Seq::empty() }
    }

    closed spec fn descends(&self, t: Seq<SyntaxNode>, n: int) -> bool {
        outside_z_calls(t)(n)
    }

    fn visit(&self, t: &SyntaxTree, n: usize, out: &mut Vec<AstSchemaField>) {
        if is_z_object_call(t, n) && zod_tree_cuttable(t) {
            call_fields_exec(t, n, out);
        }
        assert(views(out@) =~= views(old(out)@) + self.items_at(t@, n as int));
    }

    fn enters(&self, t: &SyntaxTree, n: usize) -> (r: bool) {
        !is_z_object_call(t, n)
    }
}

fn arguments_cuttable_exec(t: &SyntaxTree, a: usize) -> (r: bool)
    requires
        a < t@.len(),
    ensures
        r == arguments_cuttable(t@, a as int, child_count_of(t@, a as int)),
{
    t.wf();
    let node = t.node(a);
    let m = node.children.len();
    let mut ok = true;
    let mut k: usize = 0;
    while k < m
        invariant
            tree_wf(t@),
            a < t@.len(),
            node == t@[a as int],
            m == child_count_of(t@, a as int),
            k <= m,
            ok == arguments_cuttable(t@, a as int, k as int),
        decreases m - k,
    {
        let o = node.children[k];
        assert(o as int == child_of(t@, a as int, k as int));
        if has_kind(t, o, "object") {
            let onode = t.node(o);
            let mo = onode.children.len();
            let mut obj_ok = true;
            let mut j: usize = 0;
            while j < mo
                invariant
                    tree_wf(t@),
                    o < t@.len(),
                    onode == t@[o as int],
                    mo == child_count_of(t@, o as int),
                    j <= mo,
                    obj_ok == object_cuttable(t@, o as int, j as int),
                decreases mo - j,
            {
                let p = onode.children[j];
                assert(p as int == child_of(t@, o as int, j as int));
                if has_kind(t, p, "pair") && child_by_field(t, p, "key").is_some() {
                    if let Some(v) = child_by_field(t, p, "value") {
                        if !is_cuttable(t.node(v).text.as_str()) {
                            obj_ok = false;
                        }
                    }
                }
                j = j + 1;
            }
            if !obj_ok {
                ok = false;
            }
        }
        k = k + 1;
    }
    ok
}

/// Whether the tree's object schemas have pair values that can be cut to 200 bytes.
pub fn zod_tree_cuttable(t: &SyntaxTree) -> (r: bool)
    ensures
        r == zod_cuttable(t@),
{
    let n = t.len();
    let mut i: usize = 0;
    while i < n
        invariant
            n == t@.len(),
            i <= n,
            forall|j: int| 0 <= j < i && (#[trigger] z_object_call(t@, j) || object_call_name(t@, j)) ==> match field_child(t@, j, "arguments"@) {
                Some(a) => arguments_cuttable(t@, a, child_count_of(t@, a)),
                None => true,
            },
        decreases n - i,
    {
        if is_z_object_call(t, i) || has_object_call_name(t, i) {
            if let Some(a) = child_by_field(t, i, "arguments") {
                if !arguments_cuttable_exec(t, a) {
                    return false;
                }
            }
        }
        i = i + 1;
    }
    true
}

fn extract_zod_schema(t: &SyntaxTree, n: usize, ctx: &AstFileContext) -> (r: Option<AstSchemaDefinition>)
    requires
        n < t@.len(),
        zod_cuttable(t@),
    ensures
        match r {
            Some(x) => declared_schema(t@, n as int, ctx.relative_path@, ctx.language@) == Some(x@),
            None => declared_schema(t@, n as int, ctx.relative_path@, ctx.language@) is None,
        },
{
    let nm = match child_by_field(t, n, "name") {
        Some(nm) => nm,
        None => {
            return None;
        },
    };
    let v = match child_by_field(t, n, "value") {
        Some(v) => v,
        None => {
            return None;
        },
    };
    if !contains_z_object(t, v) {
        return None;
    }
    let visitor = ZodFieldVisitor;
    let mut fields: Vec<AstSchemaField> = Vec::new();
    collect_from(&visitor, t, v, &mut fields);
    assert(item_fn(&visitor, t@) =~= z_field_item(t@));
    assert(descend_fn(&visitor, t@) =~= outside_z_calls(t@));
    assert(views(fields@) =~= walk(t@, v as int, z_field_item(t@), outside_z_calls(t@)));
    Some(AstSchemaDefinition {
        file_path: ctx.relative_path.clone(),
        language: ctx.language.clone(),
        kind: "zod_object".to_owned(),
        name: Some(t.node(nm).text.clone()),
        framework: Some("zod".to_owned()),
        fields,
        range: node_range(t.node(n)),
        confidence: Confidence::High,
        evidence: evidence_list(t, n, "variable_declarator"),
    })
}

fn extract_zod_call(t: &SyntaxTree, n: usize, ctx: &AstFileContext) -> (r: Option<AstSchemaDefinition>)
    requires
        n < t@.len(),
        zod_cuttable(t@),
    ensures
        match r {
            Some(x) => called_schema(t@, n as int, ctx.relative_path@, ctx.language@) == Some(x@),
            None => called_schema(t@, n as int, ctx.relative_path@, ctx.language@) is None,
        },
{
    if !has_object_call_name(t, n) {
        return None;
    }
    if child_by_field(t, n, "arguments").is_none() {
        return None;
    }
    let mut fields: Vec<AstSchemaField> = Vec::new();
    call_fields_exec(t, n, &mut fields);
    assert(views(fields@) =~= call_fields(t@, n as int));
    if fields.len() == 0 {
        return None;
    }
    Some(AstSchemaDefinition {
        file_path: ctx.relative_path.clone(),
        language: ctx.language.clone(),
        kind: "zod_object".to_owned(),
        name: None,
        framework: Some("zod".to_owned()),
        fields,
        range: node_range(t.node(n)),
        confidence: Confidence::High,
        evidence: evidence_list(t, n, "call_expression"),
    })
}

fn schema_at_exec(t: &SyntaxTree, n: usize, ctx: &AstFileContext) -> (r: Option<AstSchemaDefinition>)
    requires
        n < t@.len(),
        zod_cuttable(t@),
    ensures
        match r {
            Some(x) => zod_schema_at(t@, n as int, ctx.relative_path@, ctx.language@) == Some(x@),
            None => zod_schema_at(t@, n as int, ctx.relative_path@, ctx.language@) is None,
        },
{
    if has_kind(t, n, "variable_declarator") {
        extract_zod_schema(t, n, ctx)
    } else if has_kind(t, n, "call_expression") {
        extract_zod_call(t, n, ctx)
    } else {
        None
    }
}

struct ZodSchemaVisitor<'a> {
    ctx: &'a AstFileContext,
}

impl<'a> NodeVisitor for ZodSchemaVisitor<'a> {
    type Item = AstSchemaDefinition;

    closed spec fn items_at(&self, t: Seq<SyntaxNode>, n: int) -> Seq<SchemaView> {
        if zod_cuttable(t) { zod_item(t, self.ctx.relative_path@, self.ctx.language@)(n) } else { Seq::empty() }
    }

    closed spec fn descends(&self, t: Seq<SyntaxNode>, n: int) -> bool {
        !zod_cuttable(t) || outside_schemas(t, self.ctx.relative_path@, self.ctx.language@)(n)
    }

    fn visit(&self, t: &SyntaxTree, n: usize, out: &mut Vec<AstSchemaDefinition>) {
        if zod_tree_cuttable(t) {
            if let Some(s) = schema_at_exec(t, n, self.ctx) {
                out.push(s);
            }
        }
        assert(views(out@) =~= views(old(out)@) + self.items_at(t@, n as int));
    }

    fn enters(&self, t: &SyntaxTree, n: usize) -> (r: bool) {
        if zod_tree_cuttable(t) {
            schema_at_exec(t, n, self.ctx).is_none()
        } else {
            true
        }
    }
}

impl ZodSchemaDetector {
    /// The Zod object schemas of a file, in pre-order (a schema is not entered): variable
    /// declarators whose value holds a `z.object` call, with the fields of the outermost
    /// such calls; and calls of a `.object` function with at least one field.
    pub fn find_schemas(&self, ctx: &AstFileContext) -> (r: Vec<AstSchemaDefinition>)
        requires
            zod_cuttable(ctx.tree@),
        ensures
            views(r@) == zod_schemas(ctx.tree@, ctx.relative_path@, ctx.language@),
    {
        let v = ZodSchemaVisitor { ctx };
        let r = collect_all(&v, &ctx.tree);
        assert(item_fn(&v, ctx.tree@) =~= zod_item(ctx.tree@, ctx.relative_path@, ctx.language@));
        assert(descend_fn(&v, ctx.tree@) =~= outside_schemas(ctx.tree@, ctx.relative_path@, ctx.language@));
        r
    }
}

impl AstDetector<AstSchemaDefinition> for ZodSchemaDetector {
    /// A pair value over 200 bytes long whose 200th byte falls inside a character cannot
    /// be cut; a file with one yields no schemas.
    fn detect(&self, ctx: &AstFileContext) -> (r: Vec<AstSchemaDefinition>)
        ensures
            views(r@) == (if zod_cuttable(ctx.tree@) { zod_schemas(ctx.tree@, ctx.relative_path@, ctx.language@) } else { Seq::empty() }),
    {
        if zod_tree_cuttable(&ctx.tree) {
            self.find_schemas(ctx)
        } else {
            Vec::new()
        }
    }
}

} // verus!
