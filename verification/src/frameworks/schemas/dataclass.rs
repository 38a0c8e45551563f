//! Python dataclasses: classes decorated with `@dataclass`, with their annotated fields.
use vstd::prelude::*;

use super::{AstSchemaDefinition, AstSchemaField, FieldView, SchemaView};
use crate::extractors::{extract_field_text, field_text};
use crate::frameworks::{AstDetector, AstFileContext, Confidence, evidence_list, node_evidence};
use crate::syntax::{
    SyntaxNode, SyntaxTree, child_by_field, child_count_of, child_of, field_child, has_kind,
    kind_is, node_range, node_range_spec, tree_wf, walk,
};
use crate::text::{contains_seq, str_contains, string_bytes};
use crate::visit::{NodeVisitor, collect_all, views};

verus! {

/// Detects Python dataclasses.
pub struct DataclassSchemaDetector;

/// Whether some decorator among the children of node `n`, from position `k` on, mentions
/// `dataclass`.
pub open spec fn dataclass_decorator_from(t: Seq<SyntaxNode>, n: int, k: int) -> bool
    decreases child_count_of(t, n) - k,
{
    if 0 <= k < child_count_of(t, n) {
        let c = child_of(t, n, k);
        (kind_is(t, c, "decorator"@) && contains_seq(t[c].text@, "dataclass"@)) || dataclass_decorator_from(t, n, k + 1)
    } else {
        false
    }
}

/// The class a decorated definition `n` declares as a dataclass, if it is one.
pub open spec fn dataclass_target(t: Seq<SyntaxNode>, n: int) -> Option<int> {
    if kind_is(t, n, "decorated_definition"@) {
        match field_child(t, n, "definition"@) {
            Some(d) => if kind_is(t, d, "class_definition"@) && dataclass_decorator_from(t, n, 0) { Some(d) } else { None },
            None => None,
        }
    } else {
        None
    }
}

/// The field an expression statement `c` declares: an assignment whose left side has a
/// `name`; its type is the left side's `type`.
pub open spec fn statement_field(t: Seq<SyntaxNode>, c: int) -> Seq<FieldView> {
    if kind_is(t, c, "expression_statement"@) && child_count_of(t, c) > 0 && kind_is(t, child_of(t, c, 0), "assignment"@) {
        let a = child_of(t, c, 0);
        match field_child(t, a, "left"@) {
            Some(l) => match field_child(t, l, "name"@) {
                Some(nm) => seq![FieldView {
                    name: t[nm].text@,
                    type_bytes: match field_child(t, l, "type"@) { Some(ty) => Some(string_bytes(t[ty].text@)), None => None },
                    required: Some(true),
                    range: Some(node_range_spec(t[a])),
                }],
                None => Seq::empty(),
            },
            None => Seq::empty(),
        }
    } else {
        Seq::empty()
    }
}

/// The fields declared by the first `k` children of class body `b`.
pub open spec fn body_fields(t: Seq<SyntaxNode>, b: int, k: int) -> Seq<FieldView>
    decreases k,
{
    if 0 < k <= child_count_of(t, b) {
        body_fields(t, b, k - 1) + statement_field(t, child_of(t, b, k - 1))
    } else {
        Seq::empty()
    }
}

/// The fields of class `d`.
pub open spec fn class_fields(t: Seq<SyntaxNode>, d: int) -> Seq<FieldView> {
    match field_child(t, d, "body"@) {
        Some(b) => body_fields(t, b, child_count_of(t, b)),
        None => Seq::empty(),
    }
}

/// The dataclass schema of decorated definition `n`, which declares class `d`.
pub open spec fn dataclass_schema(t: Seq<SyntaxNode>, n: int, d: int, path: Seq<char>, language: Seq<char>) -> SchemaView {
    SchemaView {
        file_path: path,
        language,
        kind: "dataclass"@,
        name: Some(match field_text(t, d, "name"@) { Some(x) => x, None => Seq::empty() }),
        framework: Some("dataclass"@),
        fields: class_fields(t, d),
        range: node_range_spec(t[n]),
        confidence: Confidence::High,
        evidence: seq![node_evidence(t, n, "decorated_definition"@)],
    }
}

/// What node `n` contributes.
pub open spec fn dataclass_item(t: Seq<SyntaxNode>, path: Seq<char>, language: Seq<char>) -> spec_fn(int) -> Seq<SchemaView> {
    |n: int| match dataclass_target(t, n) {
        Some(d) => seq![dataclass_schema(t, n, d, path, language)],
        None => Seq::empty(),
    }
}

/// The walk enters every node but dataclass definitions.
pub open spec fn outside_dataclasses(t: Seq<SyntaxNode>) -> spec_fn(int) -> bool {
    |n: int| dataclass_target(t, n) is None
}

/// The dataclasses of a Python file, in pre-order.
pub open spec fn dataclass_schemas(t: Seq<SyntaxNode>, path: Seq<char>, language: Seq<char>) -> Seq<SchemaView> {
    walk(t, 0, dataclass_item(t, path, language), outside_dataclasses(t))
}

fn has_dataclass_decorator(t: &SyntaxTree, n: usize) -> (r: bool)
    requires
        n < t@.len(),
    ensures
        r == dataclass_decorator_from(t@, n as int, 0),
{
    t.wf();
    let node = t.node(n);
    let m = node.children.len();
    let mut k: usize = 0;
    while k < m
        invariant
            tree_wf(t@),
            n < t@.len(),
            node == t@[n as int],
            m == child_count_of(t@, n as int),
            k <= m,
            dataclass_decorator_from(t@, n as int, 0) == dataclass_decorator_from(t@, n as int, k as int),
        decreases m - k,
    {
        let c = node.children[k];
        assert(c as int == child_of(t@, n as int, k as int));
        if has_kind(t, c, "decorator") && str_contains(t.node(c).text.as_str(), "dataclass") {
            return true;
        }
        k = k + 1;
    }
    false
}

fn dataclass_target_of(t: &SyntaxTree, n: usize) -> (r: Option<usize>)
    requires
        n < t@.len(),
    ensures
        match r {
            Some(d) => dataclass_target(t@, n as int) == Some(d as int) && d < t@.len(),
            None => dataclass_target(t@, n as int) is None,
        },
{
    if !has_kind(t, n, "decorated_definition") {
        return None;
    }
    match child_by_field(t, n, "definition") {
        Some(d) => if has_kind(t, d, "class_definition") && has_dataclass_decorator(t, n) { Some(d) } else { None },
        None => None,
    }
}

fn statement_field_exec(t: &SyntaxTree, c: usize, out: &mut Vec<AstSchemaField>)
    requires
        c < t@.len(),
    ensures
        views(final(out)@) == views(old(out)@) + statement_field(t@, c as int),
{
    t.wf();
    let node = t.node(c);
    if has_kind(t, c, "expression_statement") && node.children.len() > 0 {
        let a = node.children[0];
        assert(a as int == child_of(t@, c as int, 0));
        if has_kind(t, a, "assignment") {
            if let Some(l) = child_by_field(t, a, "left") {
                if let Some(nm) = child_by_field(t, l, "name") {
                    let type_text = extract_field_text(t, l, "type");
                    out.push(AstSchemaField {
                        name: t.node(nm).text.clone(),
                        type_text,
                        required: Some(true),
                        range: Some(node_range(t.node(a))),
                    });
                }
            }
        }
    }
    assert(views(out@) =~= views(old(out)@) + statement_field(t@, c as int));
}

fn extract_pydantic_fields(t: &SyntaxTree, d: usize) -> (r: Vec<AstSchemaField>)
    requires
        d < t@.len(),
    ensures
        views(r@) == class_fields(t@, d as int),
{
    t.wf();
    let mut out: Vec<AstSchemaField> = Vec::new();
    let b = match child_by_field(t, d, "body") {
        Some(b) => b,
        None => {
            assert(views(out@) =~= Seq::<FieldView>::empty());
            return out;
        },
    };
    let node = t.node(b);
    let m = node.children.len();
    let mut k: usize = 0;
    assert(views(out@) =~= body_fields(t@, b as int, 0));
    while k < m
        invariant
            tree_wf(t@),
            b < t@.len(),
            node == t@[b as int],
            m == child_count_of(t@, b as int),
            k <= m,
            views(out@) == body_fields(t@, b as int, k as int),
        decreases m - k,
    {
        let c = node.children[k];
        assert(c as int == child_of(t@, b as int, k as int));
        statement_field_exec(t, c, &mut out);
        k = k + 1;
    }
    out
}

struct DataclassVisitor<'a> {
    ctx: &'a AstFileContext,
}

impl<'a> NodeVisitor for DataclassVisitor<'a> {
    type Item = AstSchemaDefinition;

    closed spec fn items_at(&self, t: Seq<SyntaxNode>, n: int) -> Seq<SchemaView> {
        dataclass_item(t, self.ctx.relative_path@, self.ctx.language@)(n)
    }

    closed spec fn descends(&self, t: Seq<SyntaxNode>, n: int) -> bool {
        outside_dataclasses(t)(n)
    }

    fn visit(&self, t: &SyntaxTree, n: usize, out: &mut Vec<AstSchemaDefinition>) {
        if let Some(d) = dataclass_target_of(t, n) {
            let name = match extract_field_text(t, d, "name") {
                Some(x) => x,
                None => String::new(),
            };
            out.push(AstSchemaDefinition {
                file_path: self.ctx.relative_path.clone(),
                language: self.ctx.language.clone(),
                kind: "dataclass".to_owned(),
                name: Some(name),
                framework: Some("dataclass".to_owned()),
                fields: extract_pydantic_fields(t, d),
                range: node_range(t.node(n)),
                confidence: Confidence::High,
                evidence: evidence_list(t, n, "decorated_definition"),
            });
        }
        assert(views(out@) =~= views(old(out)@) + self.items_at(t@, n as int));
    }

    fn enters(&self, t: &SyntaxTree, n: usize) -> (r: bool) {
        dataclass_target_of(t, n).is_none()
    }
}

impl DataclassSchemaDetector {
    /// The dataclasses of a Python file, in pre-order: decorated class definitions with a
    /// decorator mentioning `dataclass`, with the fields their bodies declare.
    pub fn find_schemas(&self, ctx: &AstFileContext) -> (r: Vec<AstSchemaDefinition>)
        ensures
            views(r@) == dataclass_schemas(ctx.tree@, ctx.relative_path@, ctx.language@),
    {
        let v = DataclassVisitor { ctx };
        let r = collect_all(&v, &ctx.tree);
        assert(crate::visit::item_fn(&v, ctx.tree@) =~= dataclass_item(ctx.tree@, ctx.relative_path@, ctx.language@));
        assert(crate::visit::descend_fn(&v, ctx.tree@) =~= outside_dataclasses(ctx.tree@));
        r
    }
}

impl AstDetector<AstSchemaDefinition> for DataclassSchemaDetector {
    fn detect(&self, ctx: &AstFileContext) -> (r: Vec<AstSchemaDefinition>)
        ensures
            views(r@) == dataclass_schemas(ctx.tree@, ctx.relative_path@, ctx.language@),
    {
        self.find_schemas(ctx)
    }
}

} // verus!
