//! Rust structs and enums, with their fields and variants.
use vstd::prelude::*;

use super::{AstSchemaDefinition, AstSchemaField, FieldView, SchemaView, cut_type_text, cuttable, is_cuttable, type_cut};
use crate::extractors::{extract_field_text, field_text};
use crate::frameworks::{AstDetector, AstFileContext, Confidence, evidence_list, node_evidence};
use crate::syntax::{
    SyntaxNode, SyntaxTree, child_by_field, child_count_of, child_of, field_child, has_kind,
    kind_is, node_range, node_range_spec, tree_wf, walk,
};
use crate::text::{str_eq, string_bytes};
use crate::visit::{NodeVisitor, collect_all, views};

verus! {

/// Detects Rust structs and enums.
pub struct RustStructDetector;

/// Reading the first `k` children of field declaration `c`: the name (the first named
/// child other than a visibility modifier with a non-empty text), the type node (the next
/// such child), and whether both were found.
pub open spec fn rust_field_parts(t: Seq<SyntaxNode>, c: int, k: int) -> (Seq<char>, Option<int>, bool)
    decreases k,
{
    if 0 < k <= child_count_of(t, c) {
        let prev = rust_field_parts(t, c, k - 1);
        let x = child_of(t, c, k - 1);
        if prev.2 || !t[x].named || kind_is(t, x, "visibility_modifier"@) {
            prev
        } else if prev.0.len() == 0 {
            (t[x].text@, None, false)
        } else {
            (prev.0, Some(x), true)
        }
    } else {
        (Seq::empty(), None, false)
    }
}

/// The type node of field declaration `c`, if it has one.
pub open spec fn rust_field_type(t: Seq<SyntaxNode>, c: int) -> Option<int> {
    rust_field_parts(t, c, child_count_of(t, c)).1
}

/// The field a field declaration `c` declares; its type text is cut to 200 bytes.
pub open spec fn rust_field(t: Seq<SyntaxNode>, c: int) -> FieldView {
    FieldView {
        name: rust_field_parts(t, c, child_count_of(t, c)).0,
        type_bytes: match rust_field_type(t, c) {
            Some(x) => if t[x].text@.len() == 0 { None } else { Some(type_cut(t[x].text@)) },
            None => None,
        },
        required: Some(true),
        range: Some(node_range_spec(t[c])),
    }
}

/// The fields declared among the first `k` children of body `b`.
pub open spec fn rust_fields(t: Seq<SyntaxNode>, b: int, k: int) -> Seq<FieldView>
    decreases k,
{
    if 0 < k <= child_count_of(t, b) {
        let c = child_of(t, b, k - 1);
        rust_fields(t, b, k - 1) + if kind_is(t, c, "field_declaration"@) { seq![rust_field(t, c)] } else { Seq::empty() }
    } else {
        Seq::empty()
    }
}

/// Whether the types of the field declarations among the first `k` children of body `b`
/// can be cut.
pub open spec fn rust_fields_cuttable(t: Seq<SyntaxNode>, b: int, k: int) -> bool
    decreases k,
{
    if 0 < k <= child_count_of(t, b) {
        let c = child_of(t, b, k - 1);
        rust_fields_cuttable(t, b, k - 1) && (kind_is(t, c, "field_declaration"@) ==> match rust_field_type(t, c) {
            Some(x) => cuttable(t[x].text@),
            None => true,
        })
    } else {
        true
    }
}

/// The variants declared among the first `k` children of enum body `b`.
pub open spec fn rust_variants(t: Seq<SyntaxNode>, b: int, k: int) -> Seq<FieldView>
    decreases k,
{
    if 0 < k <= child_count_of(t, b) {
        let c = child_of(t, b, k - 1);
        rust_variants(t, b, k - 1) + if kind_is(t, c, "enum_variant"@) {
            seq![FieldView {
                name: match field_text(t, c, "name"@) { Some(x) => x, None => Seq::empty() },
                type_bytes: None,
                required: Some(true),
                range: Some(node_range_spec(t[c])),
            }]
        } else {
            Seq::empty()
        }
    } else {
        Seq::empty()
    }
}

/// Whether node `n` is a struct or an enum.
pub open spec fn is_struct_or_enum(t: Seq<SyntaxNode>, n: int) -> bool {
    kind_is(t, n, "struct_item"@) || kind_is(t, n, "enum_item"@)
}

/// The schema of struct or enum item `n`.
pub open spec fn rust_schema(t: Seq<SyntaxNode>, n: int, path: Seq<char>, language: Seq<char>) -> SchemaView {
    let is_struct = kind_is(t, n, "struct_item"@);
    SchemaView {
        file_path: path,
        language,
        kind: if is_struct { "rust_struct"@ } else { "rust_enum"@ },
        name: Some(match field_text(t, n, "name"@) { Some(x) => x, None => Seq::empty() }),
        framework: Some("rust"@),
        fields: match field_child(t, n, "body"@) {
            Some(b) => if is_struct { rust_fields(t, b, child_count_of(t, b)) } else { rust_variants(t, b, child_count_of(t, b)) },
            None => Seq::empty(),
        },
        range: node_range_spec(t[n]),
        confidence: Confidence::High,
        evidence: seq![node_evidence(t, n, t[n].kind@)],
    }
}

/// What node `n` contributes.
pub open spec fn rust_schema_item(t: Seq<SyntaxNode>, path: Seq<char>, language: Seq<char>) -> spec_fn(int) -> Seq<SchemaView> {
    |n: int| if is_struct_or_enum(t, n) { seq![rust_schema(t, n, path, language)] } else { Seq::empty() }
}

/// The walk enters every node but structs and enums.
pub open spec fn outside_structs(t: Seq<SyntaxNode>) -> spec_fn(int) -> bool {
    |n: int| !is_struct_or_enum(t, n)
}

/// The structs and enums of a Rust file, in pre-order.
pub open spec fn rust_schemas(t: Seq<SyntaxNode>, path: Seq<char>, language: Seq<char>) -> Seq<SchemaView> {
    walk(t, 0, rust_schema_item(t, path, language), outside_structs(t))
}

/// Whether the field types of every struct of the tree can be cut to 200 bytes.
pub open spec fn rust_types_cuttable(t: Seq<SyntaxNode>) -> bool {
    forall|n: int| 0 <= n < t.len() && #[trigger] kind_is(t, n, "struct_item"@) ==> match field_child(t, n, "body"@) {
        Some(b) => rust_fields_cuttable(t, b, child_count_of(t, b)),
        None => true,
    }
}

fn field_parts_exec(t: &SyntaxTree, c: usize) -> (r: (String, Option<usize>))
    requires
        c < t@.len(),
    ensures
        r.0@ == rust_field_parts(t@, c as int, child_count_of(t@, c as int)).0,
        match r.1 {
            Some(x) => rust_field_type(t@, c as int) == Some(x as int) && x < t@.len(),
            None => rust_field_type(t@, c as int) is None,
        },
{
    t.wf();
    let node = t.node(c);
    let m = node.children.len();
    let mut name = String::new();
    let mut ty: Option<usize> = None;
    let mut done = false;
    let mut k: usize = 0;
    while k < m
        invariant
            tree_wf(t@),
            c < t@.len(),
            node == t@[c as int],
            m == child_count_of(t@, c as int),
            k <= m,
            name@ == rust_field_parts(t@, c as int, k as int).0,
            done == rust_field_parts(t@, c as int, k as int).2,
            !done ==> ty is None,
            match ty {
                Some(x) => rust_field_parts(t@, c as int, k as int).1 == Some(x as int),
                None => rust_field_parts(t@, c as int, k as int).1 is None,
            },
            ty matches Some(x) ==> x < t@.len(),
        decreases m - k,
    {
        let x = node.children[k];
        assert(x as int == child_of(t@, c as int, k as int));
        if !done && t.node(x).named && !has_kind(t, x, "visibility_modifier") {
            if name.as_str().unicode_len() == 0 {
                name = t.node(x).text.clone();
            } else {
                ty = Some(x);
                done = true;
            }
        }
        k = k + 1;
    }
    (name, ty)
}

fn fields_cuttable_exec(t: &SyntaxTree, b: usize) -> (r: bool)
    requires
        b < t@.len(),
    ensures
        r == rust_fields_cuttable(t@, b as int, child_count_of(t@, b as int)),
{
    t.wf();
    let node = t.node(b);
    let m = node.children.len();
    let mut ok = true;
    let mut k: usize = 0;
    while k < m
        invariant
            tree_wf(t@),
            b < t@.len(),
            node == t@[b as int],
            m == child_count_of(t@, b as int),
            k <= m,
            ok == rust_fields_cuttable(t@, b as int, k as int),
        decreases m - k,
    {
        let c = node.children[k];
        assert(c as int == child_of(t@, b as int, k as int));
        if has_kind(t, c, "field_declaration") {
            let (_, ty) = field_parts_exec(t, c);
            if let Some(x) = ty {
                if !is_cuttable(t.node(x).text.as_str()) {
                    ok = false;
                }
            }
        }
        k = k + 1;
    }
    ok
}

/// Whether the field types of every struct of the tree can be cut to 200 bytes.
pub fn struct_types_cuttable(t: &SyntaxTree) -> (r: bool)
    ensures
        r == rust_types_cuttable(t@),
{
    let n = t.len();
    let mut i: usize = 0;
    while i < n
        invariant
            n == t@.len(),
            i <= n,
            forall|j: int| 0 <= j < i && #[trigger] kind_is(t@, j, "struct_item"@) ==> match field_child(t@, j, "body"@) {
                Some(b) => rust_fields_cuttable(t@, b, child_count_of(t@, b)),
                None => true,
            },
        decreases n - i,
    {
        if has_kind(t, i, "struct_item") {
            if let Some(b) = child_by_field(t, i, "body") {
                if !fields_cuttable_exec(t, b) {
                    return false;
                }
            }
        }
        i = i + 1;
    }
    true
}

fn extract_struct_fields(t: &SyntaxTree, b: usize) -> (r: Vec<AstSchemaField>)
    requires
        b < t@.len(),
        rust_fields_cuttable(t@, b as int, child_count_of(t@, b as int)),
    ensures
        views(r@) == rust_fields(t@, b as int, child_count_of(t@, b as int)),
{
    t.wf();
    let node = t.node(b);
    let m = node.children.len();
    let mut out: Vec<AstSchemaField> = Vec::new();
    let mut k: usize = 0;
    assert(views(out@) =~= rust_fields(t@, b as int, 0));
    while k < m
        invariant
            tree_wf(t@),
            b < t@.len(),
            node == t@[b as int],
            m == child_count_of(t@, b as int),
            k <= m,
            rust_fields_cuttable(t@, b as int, m as int),
            views(out@) == rust_fields(t@, b as int, k as int),
        decreases m - k,
    {
        let c = node.children[k];
        assert(c as int == child_of(t@, b as int, k as int));
        proof { lemma_cuttable_prefix(t@, b as int, k + 1, m as int); }
        let ghost before = views(out@);
        if has_kind(t, c, "field_declaration") {
            let (name, ty) = field_parts_exec(t, c);
            let type_text = match ty {
                Some(x) => {
                    let raw = t.node(x).text.as_str();
                    if raw.unicode_len() == 0 {
                        None
                    } else {
                        Some(cut_type_text(raw))
                    }
                },
                None => None,
            };
            out.push(AstSchemaField { name, type_text, required: Some(true), range: Some(node_range(t.node(c))) });
        }
        assert(views(out@) =~= before + if kind_is(t@, c as int, "field_declaration"@) { seq![rust_field(t@, c as int)] } else { Seq::empty() });
        k = k + 1;
    }
    out
}

proof fn lemma_cuttable_prefix(t: Seq<SyntaxNode>, b: int, k: int, m: int)
    requires
        0 <= k <= m <= child_count_of(t, b),
        rust_fields_cuttable(t, b, m),
    ensures
        rust_fields_cuttable(t, b, k),
    decreases m - k,
{
    if k < m {
        lemma_cuttable_prefix(t, b, k, m - 1);
    }
}

fn extract_enum_variants(t: &SyntaxTree, b: usize) -> (r: Vec<AstSchemaField>)
    requires
        b < t@.len(),
    ensures
        views(r@) == rust_variants(t@, b as int, child_count_of(t@, b as int)),
{
    t.wf();
    let node = t.node(b);
    let m = node.children.len();
    let mut out: Vec<AstSchemaField> = Vec::new();
    let mut k: usize = 0;
    assert(views(out@) =~= rust_variants(t@, b as int, 0));
    while k < m
        invariant
            tree_wf(t@),
            b < t@.len(),
            node == t@[b as int],
            m == child_count_of(t@, b as int),
            k <= m,
            views(out@) == rust_variants(t@, b as int, k as int),
        decreases m - k,
    {
        let c = node.children[k];
        assert(c as int == child_of(t@, b as int, k as int));
        let ghost before = views(out@);
        if has_kind(t, c, "enum_variant") {
            let name = match extract_field_text(t, c, "name") {
                Some(x) => x,
                None => String::new(),
            };
            out.push(AstSchemaField { name, type_text: None, required: Some(true), range: Some(node_range(t.node(c))) });
        }
        assert(views(out@) =~= before + if kind_is(t@, c as int, "enum_variant"@) {
            seq![FieldView {
                name: match field_text(t@, c as int, "name"@) { Some(x) => x, None => Seq::empty() },
                type_bytes: None,
                required: Some(true),
                range: Some(node_range_spec(t@[c as int])),
            }]
        } else {
            Seq::empty()
        });
        k = k + 1;
    }
    out
}

struct RustStructVisitor<'a> {
    ctx: &'a AstFileContext,
}

impl<'a> NodeVisitor for RustStructVisitor<'a> {
    type Item = AstSchemaDefinition;

    closed spec fn items_at(&self, t: Seq<SyntaxNode>, n: int) -> Seq<SchemaView> {
        if rust_types_cuttable(t) { rust_schema_item(t, self.ctx.relative_path@, self.ctx.language@)(n) } else { Seq::empty() }
    }

    closed spec fn descends(&self, t: Seq<SyntaxNode>, n: int) -> bool {
        outside_structs(t)(n)
    }

    fn visit(&self, t: &SyntaxTree, n: usize, out: &mut Vec<AstSchemaDefinition>) {
        let is_struct = has_kind(t, n, "struct_item");
        if (is_struct || has_kind(t, n, "enum_item")) && struct_types_cuttable(t) {
            let name = match extract_field_text(t, n, "name") {
                Some(x) => x,
                None => String::new(),
            };
            let fields = match child_by_field(t, n, "body") {
                Some(b) => if is_struct {
                    assert(kind_is(t@, n as int, "struct_item"@));
                    extract_struct_fields(t, b)
                } else {
                    extract_enum_variants(t, b)
                },
                None => Vec::new(),
            };
            assert(views(fields@) =~= rust_schema(t@, n as int, self.ctx.relative_path@, self.ctx.language@).fields);
            out.push(AstSchemaDefinition {
                file_path: self.ctx.relative_path.clone(),
                language: self.ctx.language.clone(),
                kind: if is_struct { "rust_struct".to_owned() } else { "rust_enum".to_owned() },
                name: Some(name),
                framework: Some("rust".to_owned()),
                fields,
                range: node_range(t.node(n)),
                confidence: Confidence::High,
                evidence: evidence_list(t, n, t.node(n).kind.as_str()),
            });
        }
        assert(views(out@) =~= views(old(out)@) + self.items_at(t@, n as int));
    }

    fn enters(&self, t: &SyntaxTree, n: usize) -> (r: bool) {
        !(has_kind(t, n, "struct_item") || has_kind(t, n, "enum_item"))
    }
}

impl RustStructDetector {
    /// The structs and enums of a Rust file, in pre-order: struct fields named by their
    /// first named child other than a visibility modifier and typed by the next (cut to
    /// 200 bytes); enum variants named by their `name`.
    pub fn find_schemas(&self, ctx: &AstFileContext) -> (r: Vec<AstSchemaDefinition>)
        requires
            rust_types_cuttable(ctx.tree@),
        ensures
            views(r@) == rust_schemas(ctx.tree@, ctx.relative_path@, ctx.language@),
    {
        let v = RustStructVisitor { ctx };
        let r = collect_all(&v, &ctx.tree);
        assert(crate::visit::item_fn(&v, ctx.tree@) =~= rust_schema_item(ctx.tree@, ctx.relative_path@, ctx.language@));
        assert(crate::visit::descend_fn(&v, ctx.tree@) =~= outside_structs(ctx.tree@));
        r
    }
}

impl AstDetector<AstSchemaDefinition> for RustStructDetector {
    /// A field type over 200 bytes long whose 200th byte falls inside a character cannot
    /// be cut; a file with one yields no schemas.
    fn detect(&self, ctx: &AstFileContext) -> (r: Vec<AstSchemaDefinition>)
        ensures
            views(r@) == (if rust_types_cuttable(ctx.tree@) { rust_schemas(ctx.tree@, ctx.relative_path@, ctx.language@) } else { Seq::empty() }),
    {
        if struct_types_cuttable(&ctx.tree) {
            self.find_schemas(ctx)
        } else {
            Vec::new()
        }
    }
}

} // verus!
