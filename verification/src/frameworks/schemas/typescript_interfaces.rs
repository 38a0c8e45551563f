//! TypeScript interfaces and object type aliases, with their members.
use vstd::prelude::*;

use super::{AstSchemaDefinition, AstSchemaField, FieldView, SchemaView};
use crate::extractors::{extract_field_text, field_text};
use crate::frameworks::{AstDetector, AstFileContext, Confidence, evidence_list, node_evidence};
use crate::syntax::{
    SyntaxNode, SyntaxTree, child_by_field, child_count_of, child_of, field_child, has_kind,
    kind_is, node_range, node_range_spec, opt_seq, tree_wf, walk,
};
use crate::text::{contains_seq, str_contains, string_bytes};
use crate::visit::{NodeVisitor, collect_all, views};

verus! {

/// Detects TypeScript interfaces and object types.
pub struct TypeScriptInterfaceDetector;

/// The field a property signature or public field definition `c` declares: named by its
/// `name`, typed by its `type`, and required unless its text holds a `?`.
pub open spec fn member_field(t: Seq<SyntaxNode>, c: int) -> FieldView {
    FieldView {
        name: match field_text(t, c, "name"@) { Some(x) => x, None => Seq::empty() },
        type_bytes: match field_text(t, c, "type"@) { Some(x) => Some(string_bytes(x)), None => None },
        required: Some(!contains_seq(t[c].text@, "?"@)),
        range: Some(node_range_spec(t[c])),
    }
}

/// Whether node `c` declares a member.
pub open spec fn is_member(t: Seq<SyntaxNode>, c: int) -> bool {
    kind_is(t, c, "property_signature"@) || kind_is(t, c, "public_field_definition"@)
}

/// The members among the first `k` children of body `b`.
pub open spec fn members(t: Seq<SyntaxNode>, b: int, k: int) -> Seq<FieldView>
    decreases k,
{
    if 0 < k <= child_count_of(t, b) {
        let c = child_of(t, b, k - 1);
        members(t, b, k - 1) + if is_member(t, c) { seq![member_field(t, c)] } else { Seq::empty() }
    } else {
        Seq::empty()
    }
}

/// A TypeScript schema of node `n` with the given kind, name and member body `b`.
pub open spec fn ts_schema(t: Seq<SyntaxNode>, n: int, kind: Seq<char>, name: Seq<char>, b: int, label: Seq<char>, path: Seq<char>, language: Seq<char>) -> SchemaView {
    SchemaView {
        file_path: path,
        language,
        kind,
        name: Some(name),
        framework: Some("typescript"@),
        fields: members(t, b, child_count_of(t, b)),
        range: node_range_spec(t[n]),
        confidence: Confidence::Medium,
        evidence: seq![node_evidence(t, n, label)],
    }
}

/// The schema of an interface declaration with a name and a body.
pub open spec fn interface_schema(t: Seq<SyntaxNode>, n: int, path: Seq<char>, language: Seq<char>) -> Option<SchemaView> {
    match field_text(t, n, "name"@) {
        Some(name) => match field_child(t, n, "body"@) {
            Some(b) => Some(ts_schema(t, n, "typescript_interface"@, name, b, "interface_declaration"@, path, language)),
            None => None,
        },
        None => None,
    }
}

/// The schema of a type alias with a name whose value is an object type.
pub open spec fn alias_schema(t: Seq<SyntaxNode>, n: int, path: Seq<char>, language: Seq<char>) -> Option<SchemaView> {
    match field_text(t, n, "name"@) {
        Some(name) => match field_child(t, n, "value"@) {
            Some(v) => if kind_is(t, v, "object_type"@) {
                Some(ts_schema(t, n, "typescript_type"@, name, v, "type_alias_declaration"@, path, language))
            } else {
                None
            },
            None => None,
        },
        None => None,
    }
}

/// Whether node `n` is an interface or a type alias.
pub open spec fn is_type_declaration(t: Seq<SyntaxNode>, n: int) -> bool {
    kind_is(t, n, "interface_declaration"@) || kind_is(t, n, "type_alias_declaration"@)
}

/// What node `n` contributes.
pub open spec fn ts_schema_item(t: Seq<SyntaxNode>, path: Seq<char>, language: Seq<char>) -> spec_fn(int) -> Seq<SchemaView> {
    |n: int| if kind_is(t, n, "interface_declaration"@) {
        opt_seq(interface_schema(t, n, path, language))
    } else if kind_is(t, n, "type_alias_declaration"@) {
        opt_seq(alias_schema(t, n, path, language))
    } else {
        Seq::empty()
    }
}

/// The walk enters every node but interfaces and type aliases.
pub open spec fn outside_type_declarations(t: Seq<SyntaxNode>) -> spec_fn(int) -> bool {
    |n: int| !is_type_declaration(t, n)
}

/// The interfaces and object types of a TypeScript file, in pre-order.
pub open spec fn ts_schemas(t: Seq<SyntaxNode>, path: Seq<char>, language: Seq<char>) -> Seq<SchemaView> {
    walk(t, 0, ts_schema_item(t, path, language), outside_type_declarations(t))
}

fn members_exec(t: &SyntaxTree, b: usize) -> (r: Vec<AstSchemaField>)
    requires
        b < t@.len(),
    ensures
        views(r@) == members(t@, b as int, child_count_of(t@, b as int)),
{
    t.wf();
    let node = t.node(b);
    let m = node.children.len();
    let mut out: Vec<AstSchemaField> = Vec::new();
    let mut k: usize = 0;
    assert(views(out@) =~= members(t@, b as int, 0));
    while k < m
        invariant
            tree_wf(t@),
            b < t@.len(),
            node == t@[b as int],
            m == child_count_of(t@, b as int),
            k <= m,
            views(out@) == members(t@, b as int, k as int),
        decreases m - k,
    {
        let c = node.children[k];
        assert(c as int == child_of(t@, b as int, k as int));
        let ghost before = views(out@);
        if has_kind(t, c, "property_signature") || has_kind(t, c, "public_field_definition") {
            let name = match extract_field_text(t, c, "name") {
                Some(x) => x,
                None => String::new(),
            };
            let type_text = extract_field_text(t, c, "type");
            let optional = str_contains(t.node(c).text.as_str(), "?");
            out.push(AstSchemaField { name, type_text, required: Some(!optional), range: Some(node_range(t.node(c))) });
        }
        assert(views(out@) =~= before + if is_member(t@, c as int) { seq![member_field(t@, c as int)] } else { Seq::empty() });
        k = k + 1;
    }
    out
}

fn schema_exec(t: &SyntaxTree, n: usize, kind: &str, name: String, b: usize, label: &str, ctx: &AstFileContext) -> (r: AstSchemaDefinition)
    requires
        n < t@.len(),
        b < t@.len(),
    ensures
        r@ == ts_schema(t@, n as int, kind@, name@, b as int, label@, ctx.relative_path@, ctx.language@),
{
    AstSchemaDefinition {
        file_path: ctx.relative_path.clone(),
        language: ctx.language.clone(),
        kind: kind.to_owned(),
        name: Some(name),
        framework: Some("typescript".to_owned()),
        fields: members_exec(t, b),
        range: node_range(t.node(n)),
        confidence: Confidence::Medium,
        evidence: evidence_list(t, n, label),
    }
}

fn extract_interface(t: &SyntaxTree, n: usize, ctx: &AstFileContext) -> (r: Option<AstSchemaDefinition>)
    requires
        n < t@.len(),
    ensures
        match r {
            Some(x) => interface_schema(t@, n as int, ctx.relative_path@, ctx.language@) == Some(x@),
            None => interface_schema(t@, n as int, ctx.relative_path@, ctx.language@) is None,
        },
{
    let name = match extract_field_text(t, n, "name") {
        Some(x) => x,
        None => {
            return None;
        },
    };
    let b = match child_by_field(t, n, "body") {
        Some(b) => b,
        None => {
            return None;
        },
    };
    let r = schema_exec(t, n, "typescript_interface", name, b, "interface_declaration", ctx);
    proof { reveal_strlit("typescript_interface"); reveal_strlit("interface_declaration"); }
    Some(r)
}

fn extract_type_alias(t: &SyntaxTree, n: usize, ctx: &AstFileContext) -> (r: Option<AstSchemaDefinition>)
    requires
        n < t@.len(),
    ensures
        match r {
            Some(x) => alias_schema(t@, n as int, ctx.relative_path@, ctx.language@) == Some(x@),
            None => alias_schema(t@, n as int, ctx.relative_path@, ctx.language@) is None,
        },
{
    let name = match extract_field_text(t, n, "name") {
        Some(x) => x,
        None => {
            return None;
        },
    };
    let v = match child_by_field(t, n, "value") {
        Some(v) => v,
        None => {
            return None;
        },
    };
    if !has_kind(t, v, "object_type") {
        return None;
    }
    let r = schema_exec(t, n, "typescript_type", name, v, "type_alias_declaration", ctx);
    proof { reveal_strlit("typescript_type"); reveal_strlit("type_alias_declaration"); }
    Some(r)
}

fn push_schema(out: &mut Vec<AstSchemaDefinition>, r: Option<AstSchemaDefinition>)
    ensures
        views(final(out)@) == views(old(out)@) + match r { Some(x) => seq![x@], None => Seq::empty() },
{
    if let Some(x) = r {
        out.push(x);
    }
    assert(views(out@) =~= views(old(out)@) + match r { Some(x) => seq![x@], None => Seq::empty() });
}

struct TsSchemaVisitor<'a> {
    ctx: &'a AstFileContext,
}

impl<'a> NodeVisitor for TsSchemaVisitor<'a> {
    type Item = AstSchemaDefinition;

    closed spec fn items_at(&self, t: Seq<SyntaxNode>, n: int) -> Seq<SchemaView> {
        ts_schema_item(t, self.ctx.relative_path@, self.ctx.language@)(n)
    }

    closed spec fn descends(&self, t: Seq<SyntaxNode>, n: int) -> bool {
        outside_type_declarations(t)(n)
    }

    fn visit(&self, t: &SyntaxTree, n: usize, out: &mut Vec<AstSchemaDefinition>) {
        if has_kind(t, n, "interface_declaration") {
            push_schema(out, extract_interface(t, n, self.ctx));
        } else if has_kind(t, n, "type_alias_declaration") {
            push_schema(out, extract_type_alias(t, n, self.ctx));
        }
        assert(views(out@) =~= views(old(out)@) + self.items_at(t@, n as int));
    }

    fn enters(&self, t: &SyntaxTree, n: usize) -> (r: bool) {
        !(has_kind(t, n, "interface_declaration") || has_kind(t, n, "type_alias_declaration"))
    }
}

impl TypeScriptInterfaceDetector {
    /// The interfaces and object type aliases of a TypeScript file, in pre-order, with
    /// their property signatures and public fields.
    pub fn find_schemas(&self, ctx: &AstFileContext) -> (r: Vec<AstSchemaDefinition>)
        ensures
            views(r@) == ts_schemas(ctx.tree@, ctx.relative_path@, ctx.language@),
    {
        let v = TsSchemaVisitor { ctx };
        let r = collect_all(&v, &ctx.tree);
        assert(crate::visit::item_fn(&v, ctx.tree@) =~= ts_schema_item(ctx.tree@, ctx.relative_path@, ctx.language@));
        assert(crate::visit::descend_fn(&v, ctx.tree@) =~= outside_type_declarations(ctx.tree@));
        r
    }
}

impl AstDetector<AstSchemaDefinition> for TypeScriptInterfaceDetector {
    fn detect(&self, ctx: &AstFileContext) -> (r: Vec<AstSchemaDefinition>)
        ensures
            views(r@) == ts_schemas(ctx.tree@, ctx.relative_path@, ctx.language@),
    {
        self.find_schemas(ctx)
    }
}

} // verus!
