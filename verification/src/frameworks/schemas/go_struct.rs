//! Go structs: type declarations whose body is a field declaration list.
use vstd::prelude::*;

use super::{AstSchemaDefinition, AstSchemaField, FieldView, SchemaView};
use crate::extractors::{extract_field_text, field_text};
use crate::frameworks::{AstDetector, AstFileContext, Confidence, evidence_list, node_evidence};
use crate::syntax::{
    SyntaxNode, SyntaxTree, child_by_field, child_count_of, child_of, field_child, has_kind,
    kind_is, named_child_at, node_range, node_range_spec, nth_named_child, tree_wf, walk,
};
use crate::text::string_bytes;
use crate::visit::{NodeVisitor, collect_all, views};

verus! {

/// Detects Go structs.
pub struct GoStructDetector;

/// The type spec and field list of type declaration `n`, if it declares a struct.
pub open spec fn go_struct_parts(t: Seq<SyntaxNode>, n: int) -> Option<(int, int)> {
    if kind_is(t, n, "type_declaration"@) {
        match field_child(t, n, "type_spec"@) {
            Some(s) => if kind_is(t, s, "type_spec"@) {
                match field_child(t, s, "body"@) {
                    Some(b) => if kind_is(t, b, "field_declaration_list"@) { Some((s, b)) } else { None },
                    None => None,
                }
            } else {
                None
            },
            None => None,
        }
    } else {
        None
    }
}

/// The text of the `m`-th named child of node `c`, or the empty text.
pub open spec fn named_text(t: Seq<SyntaxNode>, c: int, m: int) -> Seq<char> {
    match named_child_at(t, c, 0, m) {
        Some(x) => t[x].text@,
        None => Seq::empty(),
    }
}

/// The field a field declaration `c` declares: its first named child names it, its
/// second gives its type.
pub open spec fn go_field(t: Seq<SyntaxNode>, c: int) -> FieldView {
    FieldView {
        name: named_text(t, c, 0),
        type_bytes: if named_text(t, c, 1).len() == 0 { None } else { Some(string_bytes(named_text(t, c, 1))) },
        required: Some(true),
        range: Some(node_range_spec(t[c])),
    }
}

/// The fields declared among the first `k` children of field list `b`.
pub open spec fn go_fields(t: Seq<SyntaxNode>, b: int, k: int) -> Seq<FieldView>
    decreases k,
{
    if 0 < k <= child_count_of(t, b) {
        let c = child_of(t, b, k - 1);
        go_fields(t, b, k - 1) + if kind_is(t, c, "field_declaration"@) { seq![go_field(t, c)] } else { Seq::empty() }
    } else {
        Seq::empty()
    }
}

/// What node `n` contributes: the schema of a struct type declaration.
pub open spec fn go_struct_item(t: Seq<SyntaxNode>, path: Seq<char>, language: Seq<char>) -> spec_fn(int) -> Seq<SchemaView> {
    |n: int| match go_struct_parts(t, n) {
        Some((s, b)) => seq![SchemaView {
            file_path: path,
            language,
            kind: "go_struct"@,
            name: Some(match field_text(t, s, "name"@) { Some(x) => x, None => Seq::empty() }),
            framework: Some("go"@),
            fields: go_fields(t, b, child_count_of(t, b)),
            range: node_range_spec(t[n]),
            confidence: Confidence::High,
            evidence: seq![node_evidence(t, n, "type_declaration"@)],
        }],
        None => Seq::empty(),
    }
}

/// The walk enters every node but type declarations.
pub open spec fn outside_type_declarations(t: Seq<SyntaxNode>) -> spec_fn(int) -> bool {
    |n: int| !kind_is(t, n, "type_declaration"@)
}

/// The structs of a Go file, in pre-order.
pub open spec fn go_struct_schemas(t: Seq<SyntaxNode>, path: Seq<char>, language: Seq<char>) -> Seq<SchemaView> {
    walk(t, 0, go_struct_item(t, path, language), outside_type_declarations(t))
}

fn go_struct_parts_of(t: &SyntaxTree, n: usize) -> (r: Option<(usize, usize)>)
    requires
        n < t@.len(),
    ensures
        match r {
            Some((s, b)) => go_struct_parts(t@, n as int) == Some((s as int, b as int)) && s < t@.len() && b < t@.len(),
            None => go_struct_parts(t@, n as int) is None,
        },
{
    if !has_kind(t, n, "type_declaration") {
        return None;
    }
    let s = match child_by_field(t, n, "type_spec") {
        Some(s) => s,
        None => {
            return None;
        },
    };
    if !has_kind(t, s, "type_spec") {
        return None;
    }
    match child_by_field(t, s, "body") {
        Some(b) => if has_kind(t, b, "field_declaration_list") { Some((s, b)) } else { None },
        None => None,
    }
}

fn named_text_of(t: &SyntaxTree, c: usize, m: usize) -> (r: String)
    requires
        c < t@.len(),
    ensures
        r@ == named_text(t@, c as int, m as int),
{
    match nth_named_child(t, c, m) {
        Some(x) => t.node(x).text.clone(),
        None => String::new(),
    }
}

fn extract_struct_fields(t: &SyntaxTree, b: usize) -> (r: Vec<AstSchemaField>)
    requires
        b < t@.len(),
    ensures
        views(r@) == go_fields(t@, b as int, child_count_of(t@, b as int)),
{
    t.wf();
    let node = t.node(b);
    let m = node.children.len();
    let mut out: Vec<AstSchemaField> = Vec::new();
    let mut k: usize = 0;
    assert(views(out@) =~= go_fields(t@, b as int, 0));
    while k < m
        invariant
            tree_wf(t@),
            b < t@.len(),
            node == t@[b as int],
            m == child_count_of(t@, b as int),
            k <= m,
            views(out@) == go_fields(t@, b as int, k as int),
        decreases m - k,
    {
        let c = node.children[k];
        assert(c as int == child_of(t@, b as int, k as int));
        let ghost before = views(out@);
        if has_kind(t, c, "field_declaration") {
            let name = named_text_of(t, c, 0);
            let ty = named_text_of(t, c, 1);
            let type_text = if ty.as_str().unicode_len() == 0 { None } else { Some(ty) };
            out.push(AstSchemaField { name, type_text, required: Some(true), range: Some(node_range(t.node(c))) });
        }
        assert(views(out@) =~= before + if kind_is(t@, c as int, "field_declaration"@) { seq![go_field(t@, c as int)] } else { Seq::empty() });
        k = k + 1;
    }
    out
}

struct GoStructVisitor<'a> {
    ctx: &'a AstFileContext,
}

impl<'a> NodeVisitor for GoStructVisitor<'a> {
    type Item = AstSchemaDefinition;

    closed spec fn items_at(&self, t: Seq<SyntaxNode>, n: int) -> Seq<SchemaView> {
        go_struct_item(t, self.ctx.relative_path@, self.ctx.language@)(n)
    }

    closed spec fn descends(&self, t: Seq<SyntaxNode>, n: int) -> bool {
        outside_type_declarations(t)(n)
    }

    fn visit(&self, t: &SyntaxTree, n: usize, out: &mut Vec<AstSchemaDefinition>) {
        if let Some((s, b)) = go_struct_parts_of(t, n) {
            let name = match extract_field_text(t, s, "name") {
                Some(x) => x,
                None => String::new(),
            };
            out.push(AstSchemaDefinition {
                file_path: self.ctx.relative_path.clone(),
                language: self.ctx.language.clone(),
                kind: "go_struct".to_owned(),
                name: Some(name),
                framework: Some("go".to_owned()),
                fields: extract_struct_fields(t, b),
                range: node_range(t.node(n)),
                confidence: Confidence::High,
                evidence: evidence_list(t, n, "type_declaration"),
            });
        }
        assert(views(out@) =~= views(old(out)@) + self.items_at(t@, n as int));
    }

    fn enters(&self, t: &SyntaxTree, n: usize) -> (r: bool) {
        !has_kind(t, n, "type_declaration")
    }
}

impl GoStructDetector {
    /// The structs of a Go file, in pre-order: type declarations whose type spec has a
    /// field declaration list as body; each field named by its first named child and
    /// typed by its second.
    pub fn find_schemas(&self, ctx: &AstFileContext) -> (r: Vec<AstSchemaDefinition>)
        ensures
            views(r@) == go_struct_schemas(ctx.tree@, ctx.relative_path@, ctx.language@),
    {
        let v = GoStructVisitor { ctx };
        let r = collect_all(&v, &ctx.tree);
        assert(crate::visit::item_fn(&v, ctx.tree@) =~= go_struct_item(ctx.tree@, ctx.relative_path@, ctx.language@));
        assert(crate::visit::descend_fn(&v, ctx.tree@) =~= outside_type_declarations(ctx.tree@));
        r
    }
}

impl AstDetector<AstSchemaDefinition> for GoStructDetector {
    fn detect(&self, ctx: &AstFileContext) -> (r: Vec<AstSchemaDefinition>)
        ensures
            views(r@) == go_struct_schemas(ctx.tree@, ctx.relative_path@, ctx.language@),
    {
        self.find_schemas(ctx)
    }
}

} // verus!
