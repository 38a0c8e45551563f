use ast_tools::context::context_for_range::{context_for_range, AstContextForRangeInput};
use ast_tools::context::enclosing_scope::enclosing_scopes_at;
use ast_tools::context::node_at_range::{build_ancestors, find_node};
use ast_tools::context::node_text::node_text;
use ast_tools::extraction::literals::{find_literals, AstFindLiteralsInput, LiteralKind};
use ast_tools::extraction::member_access::{find_member_accesses, AstFindMemberAccessInput};
use ast_tools::extraction::template_literals::{find_template_literals, AstFindTemplateLiteralsInput};
use ast_tools::extraction::calls::{find_calls, AstFindCallsInput};
use ast_tools::extractors::chunks::{byte_to_line, check_runs_sliceable, chunk_file, ChunkOptions, ChunkStrategy};
use ast_tools::extractors::classes::{find_classes, ClassMethodKind, ClassOptions};
use ast_tools::extractors::exports::{find_exports, ExportKind};
use ast_tools::extractors::enclosing_node::{enclosing_node, EnclosingOptions};
use ast_tools::extractors::functions::{find_functions, FunctionKind, FunctionOptions};
use ast_tools::extractors::imports::{find_imports, strip_quotes_text, ImportKind};
use ast_tools::extractors::outline::{collect_candidates, file_outline, make_candidate, OutlineOptions};
use ast_tools::extractors::top_level::top_level_nodes;
use ast_tools::extractors::OutlineCandidate;
use ast_tools::shared::{extension_to_language, LanguageId, NodeAtRangeMode, Position, Range, ScopeKind};
use ast_tools::syntax::{SyntaxNode, SyntaxTree};

/// A node to build: its kind, whether it is named, its field in its parent, the text of a
/// leaf, its children, and the whitespace written before it.
struct N {
    kind: &'static str,
    named: bool,
    field: Option<&'static str>,
    leaf: &'static str,
    kids: Vec<N>,
    lead: &'static str,
}

fn n(kind: &'static str, kids: Vec<N>) -> N {
    N { kind, named: true, field: None, leaf: "", kids, lead: "" }
}

fn leaf(kind: &'static str, text: &'static str) -> N {
    N { kind, named: true, field: None, leaf: text, kids: vec![], lead: "" }
}

fn tok(text: &'static str) -> N {
    N { kind: text, named: false, field: None, leaf: text, kids: vec![], lead: "" }
}

fn f(field: &'static str, mut node: N) -> N {
    node.field = Some(field);
    node
}

/// The node preceded by one space.
fn sp(mut node: N) -> N {
    node.lead = " ";
    node
}

/// The node preceded by the given whitespace.
fn ws(lead: &'static str, mut node: N) -> N {
    node.lead = lead;
    node
}

fn position(source: &str, byte: usize) -> Position {
    let before = &source[..byte];
    let line = before.matches('\n').count() as u32;
    let col = match before.rfind('\n') {
        Some(i) => byte - i - 1,
        None => byte,
    };
    Position { line, character: col as u32 }
}

fn place(node: N, parent: Option<usize>, src: &mut String, out: &mut Vec<SyntaxNode>) -> usize {
    src.push_str(node.lead);
    let idx = out.len();
    let start = src.len();
    out.push(SyntaxNode {
        kind: node.kind.to_string(),
        named: node.named,
        field: node.field.map(|s| s.to_string()),
        start_byte: start,
        end_byte: start,
        start: Position { line: 0, character: 0 },
        end: Position { line: 0, character: 0 },
        text: String::new(),
        parent,
        children: vec![],
    });
    src.push_str(node.leaf);
    let mut kids = Vec::new();
    for k in node.kids {
        kids.push(place(k, Some(idx), src, out));
    }
    out[idx].children = kids;
    out[idx].end_byte = src.len();
    idx
}

/// Lay the nodes out in source order; each node's text is the source between its ends.
fn build(root: N) -> (SyntaxTree, String) {
    let mut src = String::new();
    let mut out = Vec::new();
    place(root, None, &mut src, &mut out);
    for node in out.iter_mut() {
        node.text = src[node.start_byte..node.end_byte].to_string();
        node.start = position(&src, node.start_byte);
        node.end = position(&src, node.end_byte);
    }
    (SyntaxTree::from_nodes(out).expect("a well-formed tree"), src)
}

/// `export function add(a: number, b = 1): number {}`
fn exported_ts_function() -> N {
    n("program", vec![n("export_statement", vec![
        tok("export"),
        sp(n("function_declaration", vec![
            tok("function"),
            sp(f("name", leaf("identifier", "add"))),
            f("parameters", n("formal_parameters", vec![
                tok("("),
                n("required_parameter", vec![
                    f("pattern", leaf("identifier", "a")),
                    f("type", n("type_annotation", vec![tok(":"), sp(leaf("predefined_type", "number"))])),
                ]),
                tok(","),
                sp(n("required_parameter", vec![
                    f("pattern", leaf("identifier", "b")),
                    sp(tok("=")),
                    sp(f("value", leaf("number", "1"))),
                ])),
                tok(")"),
            ])),
            f("return_type", n("type_annotation", vec![tok(":"), sp(leaf("predefined_type", "number"))])),
            sp(f("body", n("statement_block", vec![tok("{"), tok("}")]))),
        ])),
    ])])
}

#[test]
fn ts_exported_function_is_reported_once() {
    let (t, src) = build(exported_ts_function());
    assert_eq!(src, "export function add(a: number, b = 1): number {}");
    let fs = find_functions(&t, LanguageId::TypeScript, &FunctionOptions::default());
    assert_eq!(fs.len(), 1);
    for func in &fs {
        assert_eq!(func.name.as_deref(), Some("add"));
        assert_eq!(func.kind, FunctionKind::Function);
        assert!(func.exported);
        assert!(!func.async_);
        assert_eq!(func.parent_name, None);
        assert_eq!(func.return_type_text.as_deref(), Some(": number"));
        assert_eq!(func.signature_text.as_deref(), Some("function add(a: number, b = 1): number {}"));
        assert_eq!(func.range.start, Position { line: 0, character: 7 });
        assert_eq!(func.range.end, Position { line: 0, character: 48 });
        let ps = func.parameters.as_ref().expect("parameters");
        assert_eq!(ps.len(), 2);
        // The name is looked up inside the `pattern` node, which is an identifier with
        // no name of its own.
        assert_eq!(ps[0].name, "<unknown>");
        assert_eq!(ps[0].type_text.as_deref(), Some(": number"));
        assert!(!ps[0].optional);
        assert_eq!(ps[0].default_value_text, None);
        assert_eq!(ps[1].type_text, None);
        assert_eq!(ps[1].default_value_text.as_deref(), Some("1"));
    }
}

#[test]
fn ts_function_options_turn_parts_off() {
    let (t, _) = build(exported_ts_function());
    let opts = FunctionOptions {
        max_results: 1,
        include_anonymous: true,
        include_parameters: false,
        include_return_type: false,
        include_signature: false,
    };
    let fs = find_functions(&t, LanguageId::JavaScript, &opts);
    assert_eq!(fs.len(), 1);
    assert_eq!(fs[0].parameters.is_none(), true);
    assert_eq!(fs[0].return_type_text, None);
    assert_eq!(fs[0].signature_text, None);
    assert!(find_functions(&t, LanguageId::Go, &FunctionOptions::default()).is_empty());
}

/// `class A:\n    async def f(self, x: int = 2):\n        pass`
fn python_method() -> N {
    n("module", vec![n("class_definition", vec![
        tok("class"),
        sp(f("name", leaf("identifier", "A"))),
        tok(":"),
        ws("\n    ", f("body", n("block", vec![n("function_definition", vec![
            tok("async"),
            sp(tok("def")),
            sp(f("name", leaf("identifier", "f"))),
            f("parameters", n("parameters", vec![
                tok("("),
                leaf("identifier", "self"),
                tok(","),
                sp(n("typed_default_parameter", vec![
                    f("name", leaf("identifier", "x")),
                    tok(":"),
                    sp(f("type", n("type", vec![leaf("identifier", "int")]))),
                    sp(tok("=")),
                    sp(f("value", leaf("integer", "2"))),
                ])),
                tok(")"),
            ])),
            tok(":"),
            ws("\n        ", f("body", n("block", vec![n("pass_statement", vec![tok("pass")])]))),
        ])]))),
    ])])
}

#[test]
fn python_method_with_typed_default() {
    let (t, src) = build(python_method());
    assert_eq!(src, "class A:\n    async def f(self, x: int = 2):\n        pass");
    let fs = find_functions(&t, LanguageId::Python, &FunctionOptions::default());
    assert_eq!(fs.len(), 1);
    let func = &fs[0];
    assert_eq!(func.name.as_deref(), Some("f"));
    assert_eq!(func.kind, FunctionKind::Function);
    assert!(func.async_);
    assert!(!func.exported);
    assert_eq!(func.parent_name.as_deref(), Some("A"));
    assert_eq!(func.return_type_text, None);
    assert_eq!(func.signature_text.as_deref(), Some("async def f(self, x: int = 2):\n        pass"));
    assert_eq!(func.range.start, Position { line: 1, character: 4 });
    assert_eq!(func.range.end, Position { line: 2, character: 12 });
    let ps = func.parameters.as_ref().expect("parameters");
    assert_eq!(ps.len(), 2);
    assert_eq!(ps[0].name, "self");
    assert_eq!(ps[0].type_text, None);
    assert!(!ps[0].optional);
    assert_eq!(ps[1].name, "x");
    assert_eq!(ps[1].type_text.as_deref(), Some("int"));
    assert!(ps[1].optional);
    assert_eq!(ps[1].default_value_text.as_deref(), Some("2"));
}

/// `import d, { a as b, c } from "./m";\nconst x = require('fs');`
fn ts_imports() -> N {
    n("program", vec![
        n("import_statement", vec![
            tok("import"),
            sp(n("import_clause", vec![
                leaf("identifier", "d"),
                tok(","),
                sp(n("named_imports", vec![
                    tok("{"),
                    sp(n("import_specifier", vec![
                        f("name", leaf("identifier", "a")),
                        sp(tok("as")),
                        sp(f("alias", leaf("identifier", "b"))),
                    ])),
                    tok(","),
                    sp(n("import_specifier", vec![f("name", leaf("identifier", "c"))])),
                    sp(tok("}")),
                ])),
            ])),
            sp(n("from_clause", vec![tok("from"), sp(leaf("string", "\"./m\""))])),
            tok(";"),
        ]),
        ws("\n", n("lexical_declaration", vec![
            tok("const"),
            sp(n("variable_declarator", vec![
                f("name", leaf("identifier", "x")),
                sp(tok("=")),
                sp(f("value", n("call_expression", vec![
                    f("function", leaf("identifier", "require")),
                    f("arguments", n("arguments", vec![tok("("), leaf("string", "'fs'"), tok(")")])),
                ]))),
            ])),
            tok(";"),
        ])),
    ])
}

#[test]
fn ts_import_statement_and_require() {
    let (t, src) = build(ts_imports());
    assert_eq!(src, "import d, { a as b, c } from \"./m\";\nconst x = require('fs');");
    let is = find_imports(&t, LanguageId::TypeScript);
    assert_eq!(is.len(), 2);
    assert_eq!(is[0].kind, ImportKind::Import);
    assert_eq!(is[0].module_source.as_deref(), Some("./m"));
    let names: Vec<(&str, &str)> = is[0].names.iter().map(|a| (a.imported.as_str(), a.local.as_str())).collect();
    assert_eq!(names, vec![("d", "d"), ("a", "b"), ("c", "c")]);
    assert!(!is[0].is_type_only);
    assert_eq!(is[0].source_text.as_deref(), Some("import d, { a as b, c } from \"./m\";"));
    assert_eq!(is[1].kind, ImportKind::Require);
    assert_eq!(is[1].module_source.as_deref(), Some("fs"));
    assert!(is[1].names.is_empty());
    assert_eq!(is[1].source_text.as_deref(), Some("require('fs')"));
    assert_eq!(is[1].range.start, Position { line: 1, character: 10 });
    assert!(find_imports(&t, LanguageId::Rust).is_empty());
}

/// `import os as o, sys\nfrom os.path import join as j, sep\nfrom m import *`
fn python_imports() -> N {
    n("module", vec![
        n("import_statement", vec![
            tok("import"),
            sp(n("aliased_import", vec![
                f("name", n("dotted_name", vec![leaf("identifier", "os")])),
                sp(tok("as")),
                sp(f("alias", leaf("identifier", "o"))),
            ])),
            tok(","),
            sp(n("dotted_name", vec![leaf("identifier", "sys")])),
        ]),
        ws("\n", n("import_from_statement", vec![
            tok("from"),
            sp(f("module_name", n("dotted_name", vec![leaf("identifier", "os"), tok("."), leaf("identifier", "path")]))),
            sp(tok("import")),
            sp(n("aliased_import", vec![
                f("name", n("dotted_name", vec![leaf("identifier", "join")])),
                sp(tok("as")),
                sp(f("alias", leaf("identifier", "j"))),
            ])),
            tok(","),
            sp(f("name", n("dotted_name", vec![leaf("identifier", "sep")]))),
        ])),
        ws("\n", n("import_from_statement", vec![
            tok("from"),
            sp(f("module_name", n("dotted_name", vec![leaf("identifier", "m")]))),
            sp(tok("import")),
            sp(n("wildcard_import", vec![tok("*")])),
        ])),
    ])
}

#[test]
fn python_import_forms() {
    let (t, src) = build(python_imports());
    assert_eq!(src, "import os as o, sys\nfrom os.path import join as j, sep\nfrom m import *");
    let is = find_imports(&t, LanguageId::Python);
    assert_eq!(is.len(), 3);
    let pairs = |k: usize| -> Vec<(String, String)> {
        is[k].names.iter().map(|a| (a.imported.clone(), a.local.clone())).collect()
    };
    assert_eq!(is[0].kind, ImportKind::Import);
    assert_eq!(is[0].module_source, None);
    assert_eq!(pairs(0), vec![("os".to_string(), "o".to_string()), ("sys".to_string(), "sys".to_string())]);
    assert_eq!(is[1].kind, ImportKind::FromImport);
    assert_eq!(is[1].module_source.as_deref(), Some("os.path"));
    assert_eq!(pairs(1), vec![("join".to_string(), "j".to_string()), ("sep".to_string(), "sep".to_string())]);
    assert_eq!(is[2].module_source.as_deref(), Some("m"));
    assert_eq!(pairs(2), vec![("*".to_string(), "*".to_string())]);
    assert_eq!(is[2].range.start, Position { line: 2, character: 0 });
}

#[test]
fn quotes_are_stripped_only_when_they_match() {
    assert_eq!(strip_quotes_text("  \"./a\" "), "./a");
    assert_eq!(strip_quotes_text("'b'"), "b");
    assert_eq!(strip_quotes_text("`c`"), "c");
    assert_eq!(strip_quotes_text("\"d'"), "\"d'");
    assert_eq!(strip_quotes_text("\""), "\"");
    assert_eq!(strip_quotes_text(""), "");
}

#[test]
fn top_level_nodes_are_the_named_root_children() {
    let (t, _) = build(ts_imports());
    let tops = top_level_nodes(&t);
    let kinds: Vec<&str> = tops.iter().map(|x| x.kind.as_str()).collect();
    assert_eq!(kinds, vec!["import_statement", "lexical_declaration"]);
    assert_eq!(tops[1].range.start, Position { line: 1, character: 0 });
}

#[test]
fn enclosing_chain_is_outermost_first() {
    let (t, src) = build(exported_ts_function());
    // Byte 17 lies inside the name `add`.
    let chain = enclosing_node(&t, &src, 17, &EnclosingOptions::default()).expect("a chain");
    let kinds: Vec<&str> = chain.iter().map(|x| x.kind.as_str()).collect();
    assert_eq!(kinds, vec!["program", "export_statement", "function_declaration", "identifier"]);
    for w in chain.windows(2) {
        assert!(w[0].start_byte <= w[1].start_byte && w[1].end_byte <= w[0].end_byte);
    }
    assert_eq!((chain[3].start_byte, chain[3].end_byte), (16, 19));
    assert!(chain.iter().all(|x| x.source_text.is_none()));

    let only = EnclosingOptions {
        kinds: Some(vec!["function_declaration".to_string(), "program".to_string()]),
        include_source_text: true,
        max_ancestors: 1,
    };
    let chain = enclosing_node(&t, &src, 17, &only).expect("a chain");
    // The limit keeps the innermost nodes.
    assert_eq!(chain.len(), 1);
    assert_eq!(chain[0].kind, "function_declaration");
    assert_eq!(chain[0].source_text.as_deref(), Some("function add(a: number, b = 1): number {}"));

    // An offset past the end is taken at the end of the source.
    let chain = enclosing_node(&t, &src, 10_000, &EnclosingOptions::default()).expect("a chain");
    assert_eq!(chain[0].kind, "program");
}

#[test]
fn node_text_cuts_on_a_character_boundary() {
    let s = "héllo wörld";
    let r = node_text(s, 0, s.len(), 100);
    assert_eq!(r.text, s);
    assert!(!r.truncated);
    assert_eq!(r.byte_count, s.len());
    // `é` takes bytes 1 and 2: a cut at 2 falls back to 1.
    let r = node_text(s, 0, s.len(), 2);
    assert_eq!(r.text, "h");
    assert!(r.truncated);
    assert_eq!(r.end_byte, 1);
    let r = node_text(s, 7, 1000, 100);
    assert_eq!(r.text, "wörld");
    assert_eq!(r.byte_count, s.len() - 7);
}

#[test]
fn languages_by_extension() {
    assert_eq!(extension_to_language("src/a.ts"), Some(LanguageId::TypeScript));
    assert_eq!(extension_to_language("a.tsx"), Some(LanguageId::TypeScriptReact));
    assert_eq!(extension_to_language("x/y.mjs"), Some(LanguageId::JavaScript));
    assert_eq!(extension_to_language("c.jsx"), Some(LanguageId::JavaScriptReact));
    assert_eq!(extension_to_language("m.pyi"), Some(LanguageId::Python));
    assert_eq!(extension_to_language("main.go"), Some(LanguageId::Go));
    assert_eq!(extension_to_language("lib.rs"), Some(LanguageId::Rust));
    assert_eq!(extension_to_language("README.md"), None);
    assert_eq!(extension_to_language(".ts"), None);
    assert_eq!(extension_to_language("dir.ts/file"), None);
    assert_eq!(LanguageId::TypeScriptReact.as_str(), "typescriptreact");
}

/// `export const x = 1, y = 2;\nexport default foo;\nexport { a as b } from "./m";\nexport * from './all';`
fn ts_exports() -> N {
    n("program", vec![
        n("export_statement", vec![
            tok("export"),
            sp(n("lexical_declaration", vec![
                tok("const"),
                sp(n("variable_declarator", vec![
                    f("name", leaf("identifier", "x")),
                    sp(tok("=")),
                    sp(f("value", leaf("number", "1"))),
                ])),
                tok(","),
                sp(n("variable_declarator", vec![
                    f("name", leaf("identifier", "y")),
                    sp(tok("=")),
                    sp(f("value", leaf("number", "2"))),
                ])),
                tok(";"),
            ])),
        ]),
        ws("\n", n("export_statement", vec![tok("export"), sp(tok("default")), sp(leaf("identifier", "foo")), tok(";")])),
        ws("\n", n("export_statement", vec![
            tok("export"),
            sp(n("export_clause", vec![
                tok("{"),
                sp(n("export_specifier", vec![
                    f("name", leaf("identifier", "a")),
                    sp(tok("as")),
                    sp(f("alias", leaf("identifier", "b"))),
                ])),
                sp(tok("}")),
            ])),
            sp(tok("from")),
            sp(f("source", leaf("string", "\"./m\""))),
            tok(";"),
        ])),
        ws("\n", n("export_statement", vec![
            tok("export"),
            sp(tok("*")),
            sp(tok("from")),
            sp(f("source", leaf("string", "'./all'"))),
            tok(";"),
        ])),
    ])
}

#[test]
fn ts_export_forms() {
    let (t, src) = build(ts_exports());
    assert_eq!(src, "export const x = 1, y = 2;\nexport default foo;\nexport { a as b } from \"./m\";\nexport * from './all';");
    let es = find_exports(&t, LanguageId::TypeScript, false);
    assert_eq!(es.len(), 4);
    // Every declarator overwrites the name: the last one is reported.
    assert_eq!(es[0].kind, ExportKind::Const);
    assert_eq!(es[0].name.as_deref(), Some("y"));
    assert!(!es[0].is_default);
    assert_eq!(es[0].re_export_source, None);
    assert_eq!(es[0].source_text.as_deref(), Some("export const x = 1, y = 2;"));
    assert_eq!(es[1].kind, ExportKind::Default);
    assert_eq!(es[1].name.as_deref(), Some("foo"));
    assert!(es[1].is_default);
    assert_eq!(es[2].kind, ExportKind::ReExport);
    assert_eq!(es[2].name.as_deref(), Some("a"));
    assert_eq!(es[2].re_export_source.as_deref(), Some("./m"));
    assert_eq!(es[3].kind, ExportKind::ReExport);
    assert_eq!(es[3].name, None);
    assert_eq!(es[3].re_export_source.as_deref(), Some("./all"));
    assert_eq!(es[3].range.start, Position { line: 3, character: 0 });
}

/// `__all__ = ["f"]\ndef f():\n    pass\ndef _g():\n    pass`
fn python_module() -> N {
    let def = |name: &'static str| {
        n("function_definition", vec![
            tok("def"),
            sp(f("name", leaf("identifier", name))),
            f("parameters", n("parameters", vec![tok("("), tok(")")])),
            tok(":"),
            ws("\n    ", f("body", n("block", vec![n("pass_statement", vec![tok("pass")])]))),
        ])
    };
    n("module", vec![
        n("expression_statement", vec![n("assignment", vec![
            f("left", leaf("identifier", "__all__")),
            sp(tok("=")),
            sp(f("right", n("list", vec![tok("["), leaf("string", "\"f\""), tok("]")]))),
        ])]),
        ws("\n", def("f")),
        ws("\n", def("_g")),
    ])
}

#[test]
fn python_exports_are_best_effort() {
    let (t, src) = build(python_module());
    assert_eq!(src, "__all__ = [\"f\"]\ndef f():\n    pass\ndef _g():\n    pass");
    assert!(find_exports(&t, LanguageId::Python, false).is_empty());
    let es = find_exports(&t, LanguageId::Python, true);
    assert_eq!(es.len(), 2);
    assert_eq!(es[0].kind, ExportKind::PythonAll);
    assert_eq!(es[0].name.as_deref(), Some("__all__"));
    assert_eq!(es[0].source_text.as_deref(), Some("__all__ = [\"f\"]"));
    assert_eq!(es[1].kind, ExportKind::Function);
    assert_eq!(es[1].name.as_deref(), Some("f"));
    assert_eq!(es[1].range.start, Position { line: 1, character: 0 });
}

/// `export class A extends B implements C {\n  constructor() {}\n  static make() {}\n  x = 1;\n}`
fn ts_class() -> N {
    let method = |lead: Option<&'static str>, name: &'static str| {
        let mut kids = vec![];
        if let Some(l) = lead {
            kids.push(tok(l));
        }
        let name_node = f("name", leaf("property_identifier", name));
        kids.push(if lead.is_some() { sp(name_node) } else { name_node });
        kids.push(f("parameters", n("formal_parameters", vec![tok("("), tok(")")])));
        kids.push(sp(f("body", n("statement_block", vec![tok("{"), tok("}")]))));
        ws("\n  ", n("method_definition", kids))
    };
    n("program", vec![n("export_statement", vec![
        tok("export"),
        sp(n("class_declaration", vec![
            tok("class"),
            sp(f("name", leaf("type_identifier", "A"))),
            sp(f("heritage", n("class_heritage", vec![
                n("extends_clause", vec![tok("extends"), sp(f("value", leaf("identifier", "B")))]),
                sp(n("implements_clause", vec![tok("implements"), sp(leaf("type_identifier", "C"))])),
            ]))),
            sp(f("body", n("class_body", vec![
                tok("{"),
                method(None, "constructor"),
                method(Some("static"), "make"),
                ws("\n  ", n("public_field_definition", vec![
                    f("name", leaf("property_identifier", "x")),
                    sp(tok("=")),
                    sp(f("value", leaf("number", "1"))),
                ])),
                tok(";"),
                ws("\n", tok("}")),
            ]))),
        ])),
    ])])
}

#[test]
fn ts_class_with_heritage_and_members() {
    let (t, src) = build(ts_class());
    assert_eq!(src, "export class A extends B implements C {\n  constructor() {}\n  static make() {}\n  x = 1;\n}");
    let cs = find_classes(&t, LanguageId::TypeScript, &ClassOptions::default());
    assert_eq!(cs.len(), 1);
    let c = &cs[0];
    assert_eq!(c.name.as_deref(), Some("A"));
    assert_eq!(c.extends_text.as_deref(), Some("B"));
    assert_eq!(c.implements_text.as_deref(), Some("C"));
    assert_eq!(c.decorators_text, None);
    assert!(c.is_default_export);
    assert!(!c.is_abstract);
    let ms = c.methods.as_ref().expect("members");
    let got: Vec<(&str, ClassMethodKind)> = ms.iter().map(|m| (m.name.as_str(), m.kind)).collect();
    assert_eq!(got, vec![
        ("constructor", ClassMethodKind::Constructor),
        ("make", ClassMethodKind::Static),
        ("x", ClassMethodKind::Unknown),
    ]);
    assert_eq!(ms[1].range.start, Position { line: 2, character: 2 });

    let bare = ClassOptions {
        max_results: 10,
        include_methods: false,
        include_extends: false,
        include_implements: false,
        include_decorators: false,
    };
    let cs = find_classes(&t, LanguageId::JavaScript, &bare);
    assert_eq!(cs[0].extends_text, None);
    assert_eq!(cs[0].implements_text, None);
    assert!(cs[0].methods.is_none());
}

#[test]
fn calls_with_filters_and_scope() {
    let (t, _) = build(ts_imports());
    let (calls, truncated) = find_calls(&t, &AstFindCallsInput::default());
    assert!(!truncated);
    assert_eq!(calls.len(), 1);
    assert_eq!(calls[0].callee_text, "require");
    assert_eq!(calls[0].arguments_text, vec!["'fs'".to_string()]);
    assert_eq!(calls[0].range.start, Position { line: 1, character: 10 });
    assert_eq!(calls[0].range.end, Position { line: 1, character: 23 });
    let scope = calls[0].enclosing_scope.as_ref().expect("a scope");
    assert_eq!(scope.kind, ScopeKind::Module);
    assert_eq!(scope.node_kind, "program");

    let exact = AstFindCallsInput { callee: Some("req".to_string()), ..AstFindCallsInput::default() };
    assert!(find_calls(&t, &exact).0.is_empty());
    let part = AstFindCallsInput {
        callee_contains: Some("req".to_string()),
        include_arguments: false,
        include_enclosing_scope: false,
        max_results: 1,
        ..AstFindCallsInput::default()
    };
    let (calls, truncated) = find_calls(&t, &part);
    assert_eq!(calls.len(), 1);
    assert!(calls[0].arguments_text.is_empty());
    assert!(calls[0].enclosing_scope.is_none());
    // The limit was reached.
    assert!(truncated);
}

fn chunks_of(root: N, strategy: ChunkStrategy, max_lines: usize) -> Vec<(u32, u32, usize, usize, String, String)> {
    let (t, src) = build(root);
    let opts = ChunkOptions { strategy, max_lines_per_chunk: max_lines, ..ChunkOptions::default() };
    let r = chunk_file(&t, &src, "f", &opts).expect("chunks");
    assert_eq!(r.total_chunks, r.chunks.len());
    r.chunks.into_iter().map(|c| (c.start_line, c.end_line, c.start_byte, c.end_byte, c.text, c.kind)).collect()
}

fn chunk(a: u32, b: u32, c: usize, d: usize, text: &str, kind: &str) -> (u32, u32, usize, usize, String, String) {
    (a, b, c, d, text.to_string(), kind.to_string())
}

#[test]
fn chunks_by_line_budget() {
    let (_, src) = build(python_module());
    assert_eq!(src.len(), 52);
    // A prefix that ends with a line break does not count an empty last line.
    assert_eq!(byte_to_line(&src, 0), 0);
    assert_eq!(byte_to_line(&src, 32), 2);
    assert_eq!(byte_to_line(&src, 34), 2);
    assert_eq!(byte_to_line(&src, 1_000), 4);
    assert_eq!(chunks_of(python_module(), ChunkStrategy::MaxLinesWithAstBoundaries, 3), vec![
        chunk(0, 2, 0, 33, "__all__ = [\"f\"]\ndef f():\n    pass", "chunk"),
        chunk(2, 4, 34, 52, "def _g():\n    pass", "chunk"),
    ]);
    // A budget of zero lines counts as one: every node gets a chunk of its own.
    assert_eq!(chunks_of(python_module(), ChunkStrategy::MaxLinesWithAstBoundaries, 0).len(), 3);
    // Everything fits in one chunk.
    assert_eq!(chunks_of(python_module(), ChunkStrategy::MaxLinesWithAstBoundaries, 100), vec![
        chunk(0, 4, 0, 52, &src, "chunk"),
    ]);
    // With no named top-level node the whole file is one chunk.
    assert_eq!(chunks_of(n("module", vec![tok("x")]), ChunkStrategy::MaxLinesWithAstBoundaries, 3), vec![
        chunk(0, 0, 0, 1, "x", "file"),
    ]);
}

#[test]
fn chunks_by_syntax() {
    assert_eq!(chunks_of(python_module(), ChunkStrategy::TopLevel, 3), vec![
        chunk(0, 0, 0, 15, "__all__ = [\"f\"]", "expression_statement"),
        chunk(1, 2, 16, 33, "def f():\n    pass", "function_definition"),
        chunk(3, 4, 34, 52, "def _g():\n    pass", "function_definition"),
    ]);
    let fc = chunks_of(python_module(), ChunkStrategy::FunctionClass, 3);
    assert_eq!(fc.iter().map(|c| c.2).collect::<Vec<_>>(), vec![16, 34]);
    let sem = chunks_of(ts_imports(), ChunkStrategy::SemanticBlocks, 3);
    assert_eq!(sem.iter().map(|c| c.5.as_str()).collect::<Vec<_>>(), vec!["import_statement", "lexical_declaration"]);
    // Export statements are chunks of their own, not entered.
    let fc = chunks_of(ts_class(), ChunkStrategy::FunctionClass, 3);
    assert_eq!(fc.len(), 1);
    assert_eq!(fc[0].5, "export_statement");
    let (t, src) = build(python_module());
    let opts = ChunkOptions { max_results: 1, max_bytes_per_chunk: 4, ..ChunkOptions::default() };
    let r = chunk_file(&t, &src, "f", &opts).expect("chunks");
    assert_eq!(r.strategy, "top_level");
    assert_eq!(r.chunks.len(), 1);
    assert_eq!(r.chunks[0].text, "__al");
}

#[test]
fn nodes_at_a_byte_range() {
    let (t, src) = build(exported_ts_function());
    let kind_at = |ts: usize, te: usize, mode: NodeAtRangeMode| -> Option<String> {
        find_node(&t, 0, ts, te, mode).map(|i| t.node(i).kind.clone())
    };
    assert_eq!(kind_at(16, 19, NodeAtRangeMode::Exact).as_deref(), Some("identifier"));
    assert_eq!(kind_at(0, src.len(), NodeAtRangeMode::Exact).as_deref(), Some("program"));
    assert_eq!(kind_at(16, 18, NodeAtRangeMode::Exact), None);
    assert_eq!(kind_at(16, 18, NodeAtRangeMode::SmallestContaining).as_deref(), Some("identifier"));
    assert_eq!(kind_at(19, 40, NodeAtRangeMode::LargestContained).as_deref(), Some("formal_parameters"));
    assert_eq!(kind_at(8, 9, NodeAtRangeMode::LargestContained), None);

    let chain = build_ancestors(&t, 16, 18, true, 8);
    let kinds: Vec<&str> = chain.iter().map(|x| x.kind.as_str()).collect();
    assert_eq!(kinds, vec!["program", "export_statement", "function_declaration", "identifier"]);
    assert_eq!(chain[2].name.as_deref(), Some("add"));
    assert_eq!(chain[2].byte_range, Some((7, 48)));
    assert_eq!(chain[2].text.as_deref(), Some("function"));
    assert_eq!(chain[3].text.as_deref(), Some("add"));
    assert!(chain.iter().all(|x| x.id.is_none() && x.children.is_none()));
}

#[test]
fn scopes_around_a_position() {
    let (t, src) = build(python_method());
    let byte = src.find("pass").expect("pass") + 1;
    assert_eq!(byte, 53);
    let scopes = enclosing_scopes_at(&t, byte, false);
    let got: Vec<(ScopeKind, Option<&str>)> = scopes.iter().map(|s| (s.kind, s.name.as_deref())).collect();
    assert_eq!(got, vec![(ScopeKind::Module, None), (ScopeKind::Class, Some("A")), (ScopeKind::Function, Some("f"))]);
    let body = scopes[2].selection_range.expect("a body");
    assert_eq!(body.start, Position { line: 2, character: 8 });
    assert_eq!(body.end, Position { line: 2, character: 12 });
    assert_eq!(scopes[0].selection_range, None);

    let with_blocks = enclosing_scopes_at(&t, byte, true);
    let kinds: Vec<ScopeKind> = with_blocks.iter().map(|s| s.kind).collect();
    assert_eq!(kinds, vec![ScopeKind::Module, ScopeKind::Class, ScopeKind::Block, ScopeKind::Function, ScopeKind::Block]);
}

fn cand(kind: &str, name: Option<&str>, line: u32, children: Vec<OutlineCandidate>) -> OutlineCandidate {
    OutlineCandidate {
        kind: kind.to_string(),
        name: name.map(|s| s.to_string()),
        range: Range { start: Position { line, character: 0 }, end: Position { line, character: 5 } },
        children,
    }
}

#[test]
fn outline_filters_limits_depth_and_renders_text() {
    let cands = vec![
        cand("import_statement", Some("./m"), 0, vec![]),
        cand("class_declaration", Some("A"), 1, vec![cand("method_definition", Some("m"), 2, vec![cand("field", None, 3, vec![])])]),
        cand("function_declaration", None, 4, vec![]),
        cand("export_statement", Some("e"), 5, vec![]),
    ];
    let opts = OutlineOptions { max_depth: 1, include_ranges: false, include_imports: false, include_exports: false };
    let r = file_outline(&cands, &opts, LanguageId::TypeScript, "src/a.ts");
    assert_eq!(r.file_path, "src/a.ts");
    assert_eq!(r.language, "typescript");
    assert!(!r.truncated);
    assert_eq!(r.outline_text, "class_declaration: A\n  method_definition: m\nfunction_declaration: <anonymous>");
    assert_eq!(r.nodes.len(), 2);
    assert_eq!(r.nodes[0].range, None);
    let kids = r.nodes[0].children.as_ref().expect("children");
    assert_eq!(kids.len(), 1);
    // Below the depth limit a node with children says so with an empty list.
    assert_eq!(kids[0].children.as_ref().map(|v| v.len()), Some(0));
    assert!(r.nodes[1].children.is_none());

    let all = OutlineOptions { max_depth: 5, include_ranges: true, include_imports: true, include_exports: true };
    let r = file_outline(&cands, &all, LanguageId::Python, "a.py");
    assert_eq!(r.language, "python");
    assert_eq!(r.nodes.len(), 4);
    assert_eq!(r.nodes[0].range.map(|x| x.start.line), Some(0));
    assert_eq!(r.outline_text, "import_statement: ./m\nclass_declaration: A\n  method_definition: m\n    field: <anonymous>\nfunction_declaration: <anonymous>\nexport_statement: e");
}

#[test]
fn outline_candidates_from_a_tree() {
    let (t, _) = build(ts_imports());
    let import = make_candidate(&t, 1);
    assert_eq!(import.kind, "import_statement");
    // An import is named by its clause's first name.
    assert_eq!(import.name.as_deref(), Some("d"));
    let cs = collect_candidates(&t, 0, &["lexical_declaration", "class_declaration"]);
    assert_eq!(cs.len(), 1);
    assert_eq!(cs[0].kind, "lexical_declaration");
    assert_eq!(cs[0].name.as_deref(), Some("x"));
    assert_eq!(cs[0].range.start, Position { line: 1, character: 0 });
    assert!(cs[0].children.is_empty());
}

#[test]
fn literals_by_kind_and_text() {
    let (t, _) = build(ts_imports());
    let (ls, truncated) = find_literals(&t, &AstFindLiteralsInput::default());
    assert!(!truncated);
    let got: Vec<(&str, &str, Option<&str>)> = ls.iter().map(|l| (l.kind.as_str(), l.raw_text.as_str(), l.value_text.as_deref())).collect();
    assert_eq!(got, vec![("string", "\"./m\"", Some("./m")), ("string", "'fs'", Some("fs"))]);
    assert_eq!(ls[1].range.start, Position { line: 1, character: 18 });

    let contains = AstFindLiteralsInput { contains: Some("f".to_string()), ..AstFindLiteralsInput::default() };
    assert_eq!(find_literals(&t, &contains).0.len(), 1);
    let exact = AstFindLiteralsInput { exact: Some("./m".to_string()), ..AstFindLiteralsInput::default() };
    assert_eq!(find_literals(&t, &exact).0[0].raw_text, "\"./m\"");
    let numbers = AstFindLiteralsInput { literal_kind: Some(LiteralKind::Number), ..AstFindLiteralsInput::default() };
    assert!(find_literals(&t, &numbers).0.is_empty());

    let (t, _) = build(python_method());
    let (ls, _) = find_literals(&t, &numbers);
    assert_eq!(ls.len(), 1);
    assert_eq!(ls[0].kind, "number");
    assert_eq!(ls[0].raw_text, "2");
    assert_eq!(ls[0].value_text, None);
}

/// `function g() { return a.b.c + html`x${y}z`; }`
fn members_and_templates() -> N {
    n("program", vec![n("function_declaration", vec![
        tok("function"),
        sp(f("name", leaf("identifier", "g"))),
        f("parameters", n("formal_parameters", vec![tok("("), tok(")")])),
        sp(f("body", n("statement_block", vec![
            tok("{"),
            sp(n("return_statement", vec![
                tok("return"),
                sp(n("binary_expression", vec![
                    f("left", n("member_expression", vec![
                        f("object", n("member_expression", vec![
                            f("object", leaf("identifier", "a")),
                            tok("."),
                            f("property", leaf("property_identifier", "b")),
                        ])),
                        tok("."),
                        f("property", leaf("property_identifier", "c")),
                    ])),
                    sp(tok("+")),
                    sp(f("right", n("call_expression", vec![
                        f("function", leaf("identifier", "html")),
                        f("arguments", n("template_string", vec![
                            tok("`"),
                            leaf("string_fragment", "x"),
                            n("template_substitution", vec![tok("${"), leaf("identifier", "y"), tok("}")]),
                            leaf("string_fragment", "z"),
                            tok("`"),
                        ])),
                    ]))),
                ])),
                tok(";"),
            ])),
            sp(tok("}")),
        ]))),
    ])])
}

#[test]
fn member_accesses_outer_first() {
    let (t, src) = build(members_and_templates());
    assert_eq!(src, "function g() { return a.b.c + html`x${y}z`; }");
    let (ms, truncated) = find_member_accesses(&t, &AstFindMemberAccessInput::default());
    assert!(!truncated);
    let got: Vec<(&str, &str, &str)> = ms.iter().map(|m| (m.object_text.as_str(), m.property.as_str(), m.full_text.as_str())).collect();
    assert_eq!(got, vec![("a.b", "c", "a.b.c"), ("a", "b", "a.b")]);
    assert_eq!(ms[0].range.start, Position { line: 0, character: 22 });
    let scope = ms[0].enclosing_scope.as_ref().expect("a scope");
    assert_eq!(scope.kind, ScopeKind::Function);
    assert_eq!(scope.name.as_deref(), Some("g"));

    let by_property = AstFindMemberAccessInput { property: Some("b".to_string()), ..AstFindMemberAccessInput::default() };
    assert_eq!(find_member_accesses(&t, &by_property).0[0].full_text, "a.b");
    let by_object = AstFindMemberAccessInput { object_contains: Some("a.b".to_string()), ..AstFindMemberAccessInput::default() };
    assert_eq!(find_member_accesses(&t, &by_object).0.len(), 1);
    let by_text = AstFindMemberAccessInput { full_text_contains: Some("zz".to_string()), ..AstFindMemberAccessInput::default() };
    assert!(find_member_accesses(&t, &by_text).0.is_empty());
}

#[test]
fn tagged_template_literals() {
    let (t, _) = build(members_and_templates());
    let (ts, truncated) = find_template_literals(&t, &AstFindTemplateLiteralsInput::default());
    assert!(!truncated);
    assert_eq!(ts.len(), 1);
    assert_eq!(ts[0].tag.as_deref(), Some("html"));
    assert_eq!(ts[0].raw_text, "`x${y}z`");
    assert_eq!(ts[0].interpolation_count, 1);
    let other_tag = AstFindTemplateLiteralsInput { tag: Some("css".to_string()), ..AstFindTemplateLiteralsInput::default() };
    assert!(find_template_literals(&t, &other_tag).0.is_empty());
    let text = AstFindTemplateLiteralsInput { contains: Some("${y}".to_string()), max_results: 1, ..AstFindTemplateLiteralsInput::default() };
    let (ts, truncated) = find_template_literals(&t, &text);
    assert_eq!(ts.len(), 1);
    assert!(truncated);
}

#[test]
fn context_blocks_share_one_budget() {
    let (t, _) = build(exported_ts_function());
    let input = AstContextForRangeInput {
        include_siblings: true,
        max_parent_depth: 2,
        max_context_bytes: 20,
        ..AstContextForRangeInput::default()
    };
    let r = context_for_range(&t, 16, 18, &input, "src/a.ts");
    let target = r.target.as_ref().expect("a target");
    assert_eq!(target.kind, "identifier");
    assert_eq!(target.text.as_deref(), Some("add"));
    let parents: Vec<&str> = r.parents.iter().map(|p| p.kind.as_str()).collect();
    assert_eq!(parents, vec!["function_declaration", "export_statement"]);
    assert_eq!(r.parents[0].name.as_deref(), Some("add"));
    let siblings: Vec<&str> = r.siblings.iter().map(|p| p.kind.as_str()).collect();
    assert_eq!(siblings, vec!["function", "formal_parameters", "type_annotation", "statement_block"]);
    assert!(r.siblings.iter().all(|x| x.text.is_none()));

    let blocks: Vec<(&str, &str, bool)> = r.blocks.iter().map(|b| (b.label.as_str(), b.text.as_str(), b.truncated)).collect();
    assert_eq!(blocks, vec![
        ("target_node", "add", false),
        ("parent", "function add(a: n", true),
        ("parent_2", "", true),
    ]);
    assert!(r.blocks.iter().all(|b| b.file_path == "src/a.ts"));
    // The budget was used up exactly, never overspent.
    assert!(!r.truncated);

    let none = AstContextForRangeInput { include_parents: false, ..AstContextForRangeInput::default() };
    let r = context_for_range(&t, 16, 18, &none, "src/a.ts");
    assert!(r.parents.is_empty() && r.siblings.is_empty());
    assert_eq!(r.blocks.len(), 1);
}

#[test]
fn python_names_starting_with_underscore_are_not_exported() {
    let def = |name: &'static str| {
        n("function_definition", vec![
            tok("def"),
            sp(f("name", leaf("identifier", name))),
            f("parameters", n("parameters", vec![tok("("), tok(")")])),
            tok(":"),
            ws("\n    ", f("body", n("block", vec![n("pass_statement", vec![tok("pass")])]))),
        ])
    };
    let (t, _) = build(n("module", vec![def("__init__"), ws("\n", def("_private")), ws("\n", def("public"))]));
    let es = find_exports(&t, LanguageId::Python, true);
    let names: Vec<Option<&str>> = es.iter().map(|e| e.name.as_deref()).collect();
    assert_eq!(names, vec![Some("public")]);
}

#[test]
fn line_budget_needs_top_level_nodes_on_the_source() {
    let (t, src) = build(python_module());
    assert!(check_runs_sliceable(&t, &src));
    // Against a shorter source the nodes run past its end.
    assert!(!check_runs_sliceable(&t, "x"));
    // A node ending inside a character is refused.
    let (t, _) = build(n("module", vec![leaf("identifier", "ab")]));
    assert!(!check_runs_sliceable(&t, "\u{e9}"));
}
