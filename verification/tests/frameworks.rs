use ast_tools::frameworks::decorators::python::PythonDecoratorDetector;
use ast_tools::frameworks::decorators::rust::RustDecoratorDetector;
use ast_tools::frameworks::decorators::typescript::TypeScriptDecoratorDetector;
use ast_tools::frameworks::dependencies::go::GoDependencyDetector;
use ast_tools::frameworks::dependencies::python::PythonDependencyDetector;
use ast_tools::frameworks::dependencies::rust::RustDependencyDetector;
use ast_tools::frameworks::dependencies::typescript::TypeScriptDependencyDetector;
use ast_tools::frameworks::dependencies::EdgeKind;
use ast_tools::frameworks::react::components::ReactComponentDetector;
use ast_tools::frameworks::react::hooks::ReactHookDetector;
use ast_tools::frameworks::react::{ComponentKind, HookKind};
use ast_tools::frameworks::routes::django::DjangoRouteDetector;
use ast_tools::frameworks::routes::express::ExpressRouteDetector;
use ast_tools::frameworks::routes::fastapi::FastApiRouteDetector;
use ast_tools::frameworks::routes::flask::{methods_lists_readable, FlaskRouteDetector};
use ast_tools::frameworks::routes::go_http::GoHttpRouteDetector;
use ast_tools::frameworks::routes::nextjs::NextJsRouteDetector;
use ast_tools::frameworks::routes::rust_axum::RustAxumRouteDetector;
use ast_tools::frameworks::schemas::dataclass::DataclassSchemaDetector;
use ast_tools::frameworks::schemas::go_struct::GoStructDetector;
use ast_tools::frameworks::schemas::rust_struct::{struct_types_cuttable, RustStructDetector};
use ast_tools::frameworks::schemas::typescript_interfaces::TypeScriptInterfaceDetector;
use ast_tools::frameworks::schemas::zod::{zod_tree_cuttable, ZodSchemaDetector};
use ast_tools::frameworks::tests::go::GoTestDetector;
use ast_tools::frameworks::tests::javascript::JavaScriptTestDetector;
use ast_tools::frameworks::tests::python::PythonTestDetector;
use ast_tools::frameworks::tests::rust::RustTestDetector;
use ast_tools::frameworks::tests::TestKind;
use ast_tools::frameworks::{AstDetector, AstFileContext, Confidence};
use ast_tools::shared::Position;
use ast_tools::syntax::{SyntaxNode, SyntaxTree};

struct N {
    kind: &'static str,
    named: bool,
    field: Option<&'static str>,
    text: String,
    kids: Vec<N>,
}

fn n(kind: &'static str, text: &str, kids: Vec<N>) -> N {
    N { kind, named: true, field: None, text: text.to_string(), kids }
}

fn leaf(kind: &'static str, text: &str) -> N {
    n(kind, text, vec![])
}

fn tok(kind: &'static str) -> N {
    N { kind, named: false, field: None, text: kind.to_string(), kids: vec![] }
}

fn f(field: &'static str, mut node: N) -> N {
    node.field = Some(field);
    node
}

fn push(node: N, parent: Option<usize>, out: &mut Vec<SyntaxNode>) -> usize {
    let idx = out.len();
    let line = idx as u32;
    out.push(SyntaxNode {
        kind: node.kind.to_string(),
        named: node.named,
        field: node.field.map(|s| s.to_string()),
        start_byte: idx,
        end_byte: idx,
        start: Position { line, character: 0 },
        end: Position { line, character: 1 },
        text: node.text,
        parent,
        children: vec![],
    });
    let mut kids = Vec::new();
    for k in node.kids {
        kids.push(push(k, Some(idx), out));
    }
    out[idx].children = kids;
    idx
}

fn tree(root: N) -> SyntaxTree {
    let mut out = Vec::new();
    push(root, None, &mut out);
    SyntaxTree::from_nodes(out).expect("well-formed tree")
}

fn ctx(path: &str, language: &str, root: N) -> AstFileContext {
    AstFileContext { relative_path: path.to_string(), language: language.to_string(), tree: tree(root) }
}

fn member_call(object: &str, property: &str, args: Vec<N>) -> N {
    let text = format!("{}.{}(...)", object, property);
    n("call_expression", &text, vec![
        f("function", n("member_expression", &format!("{}.{}", object, property), vec![
            f("object", leaf("identifier", object)),
            tok("."),
            f("property", leaf("property_identifier", property)),
        ])),
        f("arguments", n("arguments", "(...)", args)),
    ])
}

// ---------------------------------------------------------------------------
// Routes
// ---------------------------------------------------------------------------

#[test]
fn express_member_call_route() {
    let c = ctx("src/app.js", "javascript", n("program", "", vec![n("expression_statement", "", vec![
        member_call("app", "GET", vec![tok("("), leaf("string", "'/users'"), tok(","), leaf("identifier", "listUsers"), tok(")")]),
    ])]));
    let routes = ExpressRouteDetector.detect(&c);
    assert_eq!(routes.len(), 1);
    let r = &routes[0];
    assert_eq!(r.method.as_deref(), Some("get"));
    assert_eq!(r.path.as_deref(), Some("/users"));
    assert_eq!(r.handler_name.as_deref(), Some("listUsers"));
    assert_eq!(r.framework, "express");
    assert_eq!(r.file_path, "src/app.js");
    assert_eq!(r.confidence, Confidence::High);
    assert_eq!(r.evidence.len(), 1);
    assert_eq!(r.evidence[0].kind, "member_expression_call");
    assert!(r.path_range.is_some() && r.handler_range.is_some());
}

#[test]
fn express_framework_from_object() {
    let c = ctx("a.js", "javascript", n("program", "", vec![
        member_call("fastify", "post", vec![leaf("template_string", "`/items`")]),
        member_call("c", "put", vec![leaf("string", "\"/x\"")]),
    ]));
    let routes = ExpressRouteDetector.detect(&c);
    assert_eq!(routes.len(), 2);
    assert_eq!(routes[0].framework, "fastify");
    assert_eq!(routes[0].path.as_deref(), Some("/items"));
    assert_eq!(routes[0].handler_name, None);
    assert_eq!(routes[1].framework, "hono");
}

#[test]
fn express_route_object() {
    let pair = |k: &str, v: N| n("pair", "", vec![f("key", leaf("property_identifier", k)), tok(":"), f("value", v)]);
    let obj = n("object", "{...}", vec![
        pair("method", leaf("string", "'GET'")),
        pair("url", leaf("string", "'/health'")),
        pair("handler", leaf("identifier", "health")),
    ]);
    let c = ctx("s.js", "javascript", member_call("server", "route", vec![obj]));
    let routes = ExpressRouteDetector.detect(&c);
    assert_eq!(routes.len(), 1);
    assert_eq!(routes[0].method.as_deref(), Some("get"));
    assert_eq!(routes[0].path.as_deref(), Some("/health"));
    assert_eq!(routes[0].handler_name.as_deref(), Some("health"));
    assert_eq!(routes[0].evidence[0].kind, "route_object");
}

#[test]
fn express_needs_a_string_path() {
    let c = ctx("a.js", "javascript", member_call("app", "get", vec![leaf("identifier", "path")]));
    assert!(ExpressRouteDetector.detect(&c).is_empty());
    let c = ctx("a.js", "javascript", member_call("app", "listen", vec![leaf("string", "'/x'")]));
    assert!(ExpressRouteDetector.detect(&c).is_empty());
}

fn decorated(decorator: &str, def_kind: &'static str, name: &str) -> N {
    n("decorated_definition", "", vec![
        leaf("decorator", decorator),
        f("definition", n(def_kind, "def ...", vec![tok("def"), f("name", leaf("identifier", name))])),
    ])
}

#[test]
fn flask_route_with_methods() {
    let c = ctx("app.py", "python", n("module", "", vec![
        decorated("@app.route('/items', methods=['POST', 'GET'])", "function_definition", "create"),
    ]));
    let routes = FlaskRouteDetector.detect(&c);
    // One route per listed method, in the list's order.
    assert_eq!(routes.len(), 2);
    assert_eq!(routes[0].method.as_deref(), Some("post"));
    assert_eq!(routes[1].method.as_deref(), Some("get"));
    for r in &routes {
        assert_eq!(r.path.as_deref(), Some("/items"));
        assert_eq!(r.handler_name.as_deref(), Some("create"));
        assert_eq!(r.handler_kind.as_deref(), Some("function"));
        assert_eq!(r.framework, "flask");
    }
    let empty_list = ctx("app.py", "python", decorated("@app.route('/e', methods=[])", "function_definition", "e"));
    let routes = FlaskRouteDetector.detect(&empty_list);
    assert_eq!(routes.len(), 1);
    assert_eq!(routes[0].method.as_deref(), Some("get"));
}

#[test]
fn flask_blueprint_defaults_to_get() {
    let c = ctx("views.py", "python", decorated("@blueprint.route(\"/x\")", "function_definition", "x"));
    let routes = FlaskRouteDetector.detect(&c);
    assert_eq!(routes.len(), 1);
    assert_eq!(routes[0].method.as_deref(), Some("get"));
    assert_eq!(routes[0].framework, "flask_blueprint");
    let empty = ctx("views.py", "python", decorated("@app.route('')", "function_definition", "x"));
    assert!(FlaskRouteDetector.detect(&empty).is_empty());
}

#[test]
fn flask_unclosed_methods_list_yields_nothing() {
    let c = ctx("app.py", "python", decorated("@app.route('/x', methods= ['GET')", "function_definition", "x"));
    assert!(!methods_lists_readable(&c.tree));
    assert!(FlaskRouteDetector.detect(&c).is_empty());
    let ok = ctx("app.py", "python", decorated("@app.route('/x', methods=['PUT')", "function_definition", "x"));
    assert!(methods_lists_readable(&ok.tree));
    assert_eq!(FlaskRouteDetector.detect(&ok)[0].method.as_deref(), Some("put')"));
}

#[test]
fn fastapi_routes() {
    let c = ctx("api.py", "python", n("module", "", vec![
        decorated("@router.post('/items')", "function_definition", "create_item"),
        decorated("@app.get", "function_definition", "index"),
        decorated("@app.middleware('http')", "function_definition", "mw"),
    ]));
    let routes = FastApiRouteDetector.detect(&c);
    assert_eq!(routes.len(), 2);
    assert_eq!(routes[0].framework, "fastapi_router");
    assert_eq!(routes[0].method.as_deref(), Some("post"));
    assert_eq!(routes[0].path.as_deref(), Some("/items"));
    assert_eq!(routes[0].handler_kind.as_deref(), Some("function_definition"));
    assert_eq!(routes[1].framework, "fastapi");
    assert_eq!(routes[1].path, None);
}

#[test]
fn django_url_patterns() {
    let call = |func: &str, arg: &str| n("call", "", vec![
        f("function", leaf("identifier", func)),
        f("arguments", n("argument_list", "", vec![leaf("string", arg), leaf("identifier", "view")])),
    ]);
    let c = ctx("urls.py", "python", n("module", "", vec![call("path", "'users/'"), call("include", "'x'")]));
    let routes = DjangoRouteDetector.detect(&c);
    assert_eq!(routes.len(), 1);
    assert_eq!(routes[0].path.as_deref(), Some("users/"));
    assert_eq!(routes[0].method, None);
    assert_eq!(routes[0].confidence, Confidence::Medium);
}

#[test]
fn go_handle_func() {
    let call = n("call_expression", "", vec![
        f("function", n("selector_expression", "http.HandleFunc", vec![leaf("identifier", "http"), f("field", leaf("field_identifier", "HandleFunc"))])),
        f("arguments", n("argument_list", "", vec![leaf("interpreted_string_literal", "\"/health\""), leaf("identifier", "h")])),
    ]);
    let routes = GoHttpRouteDetector.detect(&ctx("main.go", "go", call));
    assert_eq!(routes.len(), 1);
    assert_eq!(routes[0].method.as_deref(), Some("handlefunc"));
    assert_eq!(routes[0].path.as_deref(), Some("/health"));
    assert_eq!(routes[0].framework, "go_http");
}

#[test]
fn nextjs_app_router_path() {
    let root = n("program", "", vec![n("export_statement", "", vec![
        tok("export"),
        n("function_declaration", "function GET() {}", vec![f("name", leaf("identifier", "GET"))]),
    ])]);
    let routes = NextJsRouteDetector.detect(&ctx("app/users/[id]/route.ts", "typescript", root));
    assert_eq!(routes.len(), 1);
    assert_eq!(routes[0].method.as_deref(), Some("get"));
    assert_eq!(routes[0].path.as_deref(), Some("/users/:id"));
    assert_eq!(routes[0].handler_kind.as_deref(), Some("exported_function"));
}

#[test]
fn nextjs_pages_api_path() {
    let root = n("program", "", vec![n("lexical_declaration", "", vec![
        tok("const"),
        n("variable_declarator", "POST = ...", vec![f("name", leaf("identifier", "POST")), f("value", leaf("arrow_function", "() => 1"))]),
    ])]);
    let routes = NextJsRouteDetector.detect(&ctx("pages/api/users/index.ts", "typescript", root));
    assert_eq!(routes.len(), 1);
    assert_eq!(routes[0].path.as_deref(), Some("/api/users"));
    assert_eq!(routes[0].handler_kind.as_deref(), Some("arrow_function"));
    let other = n("function_declaration", "", vec![f("name", leaf("identifier", "PUT"))]);
    let routes = NextJsRouteDetector.detect(&ctx("lib/x.ts", "typescript", other));
    assert_eq!(routes[0].path, None);
    assert_eq!(routes[0].handler_kind.as_deref(), Some("function"));
}

#[test]
fn axum_method_router() {
    let call = n("call_expression", "get(list)", vec![
        f("function", leaf("identifier", "get")),
        f("arguments", n("arguments", "(list)", vec![tok("("), leaf("identifier", "list"), tok(")")])),
    ]);
    let routes = RustAxumRouteDetector.detect(&ctx("main.rs", "rust", call));
    assert_eq!(routes.len(), 1);
    assert_eq!(routes[0].method.as_deref(), Some("get"));
    assert_eq!(routes[0].handler_name.as_deref(), Some("list"));
    assert_eq!(routes[0].framework, "axum");
}

#[test]
fn axum_scoped_method_router_and_route_call() {
    let call = n("call_expression", "axum::routing::post(create)", vec![
        f("function", leaf("scoped_identifier", "axum::routing::post")),
        f("arguments", n("arguments", "(create)", vec![tok("("), leaf("identifier", "create"), tok(")")])),
    ]);
    let routes = RustAxumRouteDetector.detect(&ctx("main.rs", "rust", call));
    assert_eq!(routes.len(), 1);
    assert_eq!(routes[0].method.as_deref(), Some("post"));
    assert_eq!(routes[0].path, None);
    assert_eq!(routes[0].handler_name.as_deref(), Some("create"));

    let inner = n("call_expression", "get(list)", vec![
        f("function", leaf("identifier", "get")),
        f("arguments", n("arguments", "(list)", vec![tok("("), leaf("identifier", "list"), tok(")")])),
    ]);
    let route_call = n("call_expression", "Router::new().route(\"/users\", get(list))", vec![
        f("function", n("field_expression", "Router::new().route", vec![
            f("value", leaf("call_expression", "Router::new()")),
            tok("."),
            f("field", leaf("field_identifier", "route")),
        ])),
        f("arguments", n("arguments", "(\"/users\", get(list))", vec![
            tok("("), leaf("string_literal", "\"/users\""), tok(","), inner, tok(")"),
        ])),
    ]);
    let routes = RustAxumRouteDetector.detect(&ctx("main.rs", "rust", route_call));
    assert_eq!(routes[0].path.as_deref(), Some("/users"));
    assert_eq!(routes[0].method.as_deref(), Some("get"));
    assert_eq!(routes[0].handler_name, None);

    let other = n("call_expression", "foo(x)", vec![
        f("function", leaf("identifier", "foo")),
        f("arguments", n("arguments", "(x)", vec![tok("("), leaf("identifier", "x"), tok(")")])),
    ]);
    assert!(RustAxumRouteDetector.detect(&ctx("main.rs", "rust", other)).is_empty());
}

// ---------------------------------------------------------------------------
// Decorators
// ---------------------------------------------------------------------------

#[test]
fn python_decorator_name_and_arguments() {
    let c = ctx("t.py", "python", decorated("@pytest.fixture(scope='module')", "function_definition", "db"));
    let ds = PythonDecoratorDetector.detect(&c);
    assert_eq!(ds.len(), 1);
    assert_eq!(ds[0].name, "pytest.fixture");
    assert_eq!(ds[0].arguments_text, vec!["scope='module'".to_string()]);
    assert_eq!(ds[0].target_kind.as_deref(), Some("function_definition"));
    assert_eq!(ds[0].target_name.as_deref(), Some("db"));
    let plain = PythonDecoratorDetector.detect(&ctx("t.py", "python", decorated("@staticmethod", "function_definition", "f")));
    assert_eq!(plain[0].name, "staticmethod");
    assert!(plain[0].arguments_text.is_empty());
}

#[test]
fn rust_attribute_and_target() {
    let root = n("source_file", "", vec![
        leaf("attribute_item", "#[derive( Debug, Clone )]"),
        n("struct_item", "struct Point {}", vec![f("name", leaf("type_identifier", "Point"))]),
    ]);
    let ds = RustDecoratorDetector.detect(&ctx("lib.rs", "rust", root));
    assert_eq!(ds.len(), 1);
    assert_eq!(ds[0].name, "derive");
    assert_eq!(ds[0].arguments_text, vec!["Debug, Clone".to_string()]);
    assert_eq!(ds[0].target_kind.as_deref(), Some("struct_item"));
    assert_eq!(ds[0].target_name.as_deref(), Some("Point"));
}

#[test]
fn typescript_decorator_call() {
    let dec = n("decorator", "@Get('/x')", vec![tok("@"), n("call_expression", "Get('/x')", vec![
        f("function", leaf("identifier", "Get")),
        f("arguments", n("arguments", "('/x')", vec![leaf("string", "'/x'")])),
    ])]);
    let root = n("class_body", "", vec![dec, n("method_definition", "list() {}", vec![f("name", leaf("property_identifier", "list"))])]);
    let ds = TypeScriptDecoratorDetector.detect(&ctx("c.ts", "typescript", root));
    assert_eq!(ds.len(), 1);
    assert_eq!(ds[0].name, "Get");
    assert_eq!(ds[0].arguments_text, vec!["'/x'".to_string()]);
    assert_eq!(ds[0].target_name.as_deref(), Some("list"));
}

// ---------------------------------------------------------------------------
// Dependencies
// ---------------------------------------------------------------------------

#[test]
fn go_imports() {
    let root = n("source_file", "", vec![n("import_declaration", "", vec![tok("import"), n("import_spec_list", "", vec![
        n("import_spec", "\"fmt\"", vec![leaf("interpreted_string_literal", "\"fmt\"")]),
        n("import_spec", "\"./local\"", vec![leaf("interpreted_string_literal", "\"./local\"")]),
    ])])]);
    let es = GoDependencyDetector.detect(&ctx("main.go", "go", root));
    assert_eq!(es.len(), 2);
    assert_eq!(es[0].to_specifier, "fmt");
    assert!(!es[0].is_relative);
    assert!(es[1].is_relative);
    assert_eq!(es[0].kind, EdgeKind::Import);
}

#[test]
fn python_imports() {
    let root = n("module", "", vec![
        n("import_from_statement", "from .models import User", vec![tok("from"), leaf("dotted_name", ".models")]),
        n("import_statement", "import os", vec![tok("import"), leaf("dotted_name", "os")]),
    ]);
    let es = PythonDependencyDetector.detect(&ctx("a.py", "python", root));
    assert_eq!(es.len(), 2);
    assert_eq!(es[0].to_specifier, ".models");
    assert!(es[0].is_relative);
    assert_eq!(es[1].to_specifier, "os");
    assert_eq!(es[1].evidence[0].kind, "import_statement");
}

#[test]
fn rust_dependencies() {
    let root = n("source_file", "", vec![
        n("use_declaration", "use crate::config::{a, b};", vec![tok("use"), n("scoped_use_list", "", vec![
            leaf("scoped_identifier", "crate::config"),
            n("use_list", "{a, b}", vec![leaf("identifier", "a")]),
        ])]),
        n("mod_item", "mod parser;", vec![tok("mod"), leaf("identifier", "parser")]),
        n("extern_crate_declaration", "extern crate serde;", vec![leaf("identifier", "serde")]),
    ]);
    let es = RustDependencyDetector.detect(&ctx("lib.rs", "rust", root));
    assert_eq!(es.len(), 2);
    // the scoped use list is not entered, so the path is empty and no edge comes of it
    assert_eq!(es.iter().filter(|e| e.kind == EdgeKind::Use).count(), 0);
    let plain = n("use_declaration", "use std::fmt;", vec![tok("use"), leaf("scoped_identifier", "std::fmt")]);
    let es2 = RustDependencyDetector.detect(&ctx("lib.rs", "rust", plain));
    assert_eq!(es2[0].to_specifier, "std::fmt");
    assert!(!es2[0].is_relative);
    assert_eq!(es[0].kind, EdgeKind::Mod);
    assert!(es[0].is_relative);
    assert_eq!(es[1].kind, EdgeKind::Package);
}

#[test]
fn rust_use_path_joins_parts() {
    let decl = n("use_declaration", "", vec![tok("use"), n("use_as_clause", "", vec![
        leaf("scoped_identifier", "crate::a"),
        tok("as"),
        leaf("identifier", "b"),
    ])]);
    let es = RustDependencyDetector.detect(&ctx("lib.rs", "rust", decl));
    assert_eq!(es[0].to_specifier, "crate::a::b");
    assert!(es[0].is_relative);
}

#[test]
fn typescript_dependencies() {
    let root = n("program", "", vec![
        n("import_statement", "import type { A } from './a'", vec![tok("import"), tok("type"), n("from_clause", "", vec![tok("from"), leaf("string", "'./a'")])]),
        n("export_statement", "export * from 'lib'", vec![tok("export"), n("from_clause", "", vec![leaf("string", "\"lib\"")])]),
        n("call_expression", "require('fs')", vec![
            f("function", leaf("identifier", "require")),
            f("arguments", n("arguments", "", vec![leaf("string", "'fs'")])),
        ]),
    ]);
    let es = TypeScriptDependencyDetector.detect(&ctx("x.ts", "typescript", root));
    assert_eq!(es.len(), 3);
    assert_eq!(es[0].to_specifier, "./a");
    assert_eq!(es[0].is_type_only, Some(true));
    assert!(es[0].is_relative);
    assert_eq!(es[1].kind, EdgeKind::Export);
    assert_eq!(es[1].to_specifier, "lib");
    assert_eq!(es[2].kind, EdgeKind::Require);
    assert_eq!(es[2].to_specifier, "fs");
}

// ---------------------------------------------------------------------------
// Schemas
// ---------------------------------------------------------------------------

#[test]
fn rust_struct_fields() {
    let field = n("field_declaration", "pub name: String", vec![leaf("visibility_modifier", "pub"), leaf("field_identifier", "name"), tok(":"), leaf("type_identifier", "String")]);
    let root = n("struct_item", "struct User {}", vec![f("name", leaf("type_identifier", "User")), f("body", n("field_declaration_list", "", vec![field]))]);
    let c = ctx("lib.rs", "rust", root);
    assert!(struct_types_cuttable(&c.tree));
    let ss = RustStructDetector.detect(&c);
    assert_eq!(ss.len(), 1);
    assert_eq!(ss[0].kind, "rust_struct");
    assert_eq!(ss[0].name.as_deref(), Some("User"));
    assert_eq!(ss[0].fields.len(), 1);
    assert_eq!(ss[0].fields[0].name, "name");
    assert_eq!(ss[0].fields[0].type_text.as_deref(), Some("String"));
}

#[test]
fn rust_long_type_is_cut_to_200_bytes() {
    let long = "A".repeat(250);
    let field = n("field_declaration", "", vec![leaf("field_identifier", "x"), leaf("type_identifier", &long)]);
    let root = n("struct_item", "", vec![f("name", leaf("type_identifier", "S")), f("body", n("field_declaration_list", "", vec![field]))]);
    let ss = RustStructDetector.detect(&ctx("lib.rs", "rust", root));
    assert_eq!(ss[0].fields[0].type_text.as_ref().map(|t| t.len()), Some(200));
    let bad = format!("{}é", "A".repeat(199));
    let field = n("field_declaration", "", vec![leaf("field_identifier", "x"), leaf("type_identifier", &format!("{}xx", bad))]);
    let root = n("struct_item", "", vec![f("name", leaf("type_identifier", "S")), f("body", n("field_declaration_list", "", vec![field]))]);
    let c = ctx("lib.rs", "rust", root);
    assert!(!struct_types_cuttable(&c.tree));
    assert!(RustStructDetector.detect(&c).is_empty());
}

#[test]
fn rust_enum_variants() {
    let root = n("enum_item", "", vec![f("name", leaf("type_identifier", "Color")), f("body", n("enum_variant_list", "", vec![
        n("enum_variant", "Red", vec![f("name", leaf("identifier", "Red"))]),
        n("enum_variant", "Blue", vec![f("name", leaf("identifier", "Blue"))]),
    ]))]);
    let ss = RustStructDetector.detect(&ctx("lib.rs", "rust", root));
    assert_eq!(ss[0].kind, "rust_enum");
    let names: Vec<&str> = ss[0].fields.iter().map(|x| x.name.as_str()).collect();
    assert_eq!(names, vec!["Red", "Blue"]);
}

#[test]
fn typescript_interface_members() {
    let member = |text: &str, name: &str, ty: &str| n("property_signature", text, vec![f("name", leaf("property_identifier", name)), f("type", leaf("type_annotation", ty))]);
    let root = n("interface_declaration", "", vec![f("name", leaf("type_identifier", "User")), f("body", n("interface_body", "", vec![
        member("id: string", "id", ": string"),
        member("age?: number", "age", ": number"),
    ]))]);
    let ss = TypeScriptInterfaceDetector.detect(&ctx("u.ts", "typescript", root));
    assert_eq!(ss[0].kind, "typescript_interface");
    assert_eq!(ss[0].fields[0].required, Some(true));
    assert_eq!(ss[0].fields[1].required, Some(false));
    assert_eq!(ss[0].confidence, Confidence::Medium);
}

#[test]
fn zod_object_schema() {
    let pair = |k: &str, v: &str| n("pair", "", vec![f("key", leaf("property_identifier", k)), f("value", leaf("call_expression", v))]);
    let zcall = n("call_expression", "z.object({...})", vec![
        f("function", leaf("member_expression", "z.object")),
        f("arguments", n("arguments", "", vec![n("object", "{...}", vec![pair("name", "z.string()"), pair("age", "z.number().optional()")])])),
    ]);
    let root = n("lexical_declaration", "", vec![n("variable_declarator", "", vec![f("name", leaf("identifier", "User")), f("value", zcall)])]);
    let c = ctx("s.ts", "typescript", root);
    assert!(zod_tree_cuttable(&c.tree));
    let ss = ZodSchemaDetector.detect(&c);
    assert_eq!(ss.len(), 1);
    assert_eq!(ss[0].name.as_deref(), Some("User"));
    assert_eq!(ss[0].fields.len(), 2);
    assert_eq!(ss[0].fields[0].required, Some(true));
    assert_eq!(ss[0].fields[1].required, Some(false));
    assert_eq!(ss[0].fields[1].type_text.as_deref(), Some("z.number().optional()"));
}

#[test]
fn go_struct_schema() {
    let field = n("field_declaration", "Name string", vec![leaf("field_identifier", "Name"), leaf("type_identifier", "string")]);
    let root = n("type_declaration", "", vec![f("type_spec", n("type_spec", "", vec![
        f("name", leaf("type_identifier", "User")),
        f("body", n("field_declaration_list", "", vec![field])),
    ]))]);
    let ss = GoStructDetector.detect(&ctx("m.go", "go", root));
    assert_eq!(ss[0].kind, "go_struct");
    assert_eq!(ss[0].fields[0].type_text.as_deref(), Some("string"));
}

#[test]
fn dataclass_schema() {
    let body = n("block", "", vec![n("expression_statement", "", vec![n("assignment", "x: int = 1", vec![
        f("left", n("typed_target", "x: int", vec![f("name", leaf("identifier", "x")), f("type", leaf("type", "int"))])),
    ])])]);
    let root = n("decorated_definition", "", vec![
        leaf("decorator", "@dataclass"),
        f("definition", n("class_definition", "", vec![f("name", leaf("identifier", "Point")), f("body", body)])),
    ]);
    let ss = DataclassSchemaDetector.detect(&ctx("p.py", "python", root));
    assert_eq!(ss.len(), 1);
    assert_eq!(ss[0].name.as_deref(), Some("Point"));
    assert_eq!(ss[0].fields[0].name, "x");
    assert_eq!(ss[0].fields[0].type_text.as_deref(), Some("int"));
}

// ---------------------------------------------------------------------------
// React
// ---------------------------------------------------------------------------

#[test]
fn react_function_component_with_jsx_and_hook() {
    let hook_call = n("call_expression", "useState(0)", vec![f("function", leaf("identifier", "useState")), f("arguments", n("arguments", "(0)", vec![]))]);
    let jsx = n("jsx_element", "<div></div>", vec![n("jsx_opening_element", "<div>", vec![tok("<"), leaf("identifier", "div"), tok(">")])]);
    let root = n("program", "", vec![n("function_declaration", "function App() {}", vec![
        f("name", leaf("identifier", "App")),
        f("parameters", n("formal_parameters", "()", vec![])),
        n("statement_block", "", vec![hook_call, jsx]),
    ])]);
    let c = ctx("App.tsx", "typescriptreact", root);
    let cs = ReactComponentDetector.detect(&c);
    assert_eq!(cs.len(), 1);
    assert_eq!(cs[0].name, "App");
    assert_eq!(cs[0].kind, ComponentKind::FunctionComponent);
    assert_eq!(cs[0].jsx_root.as_deref(), Some("div"));
    assert_eq!(cs[0].confidence, Confidence::High);
    let hs = ReactHookDetector.detect(&c);
    assert_eq!(hs.len(), 1);
    assert_eq!(hs[0].name, "useState");
    assert_eq!(hs[0].kind, HookKind::BuiltinUsage);
    assert_eq!(hs[0].enclosing_component.as_deref(), Some("App"));
}

#[test]
fn react_custom_hook_definition() {
    let root = n("function_declaration", "function useThing() {}", vec![f("name", leaf("identifier", "useThing"))]);
    let hs = ReactHookDetector.detect(&ctx("h.ts", "typescript", root));
    assert_eq!(hs.len(), 1);
    assert_eq!(hs[0].kind, HookKind::CustomDefinition);
    let lower = n("function_declaration", "", vec![f("name", leaf("identifier", "user"))]);
    assert!(ReactHookDetector.detect(&ctx("h.ts", "typescript", lower)).is_empty());
}

// ---------------------------------------------------------------------------
// Tests
// ---------------------------------------------------------------------------

fn js_call(callee: &str, name: &str, body: Vec<N>) -> N {
    let mut args = vec![leaf("string", &format!("'{}'", name))];
    args.push(n("arrow_function", "() => {}", body));
    n("call_expression", "", vec![f("function", leaf("identifier", callee)), f("arguments", n("arguments", "", args))])
}

#[test]
fn jest_suites_and_tests() {
    let root = n("program", "", vec![js_call("describe", "math", vec![js_call("it", "adds", vec![]), js_call("beforeEach", "setup", vec![])]), js_call("test", "top", vec![])]);
    let ts = JavaScriptTestDetector.detect(&ctx("m.test.js", "javascript", root));
    assert_eq!(ts.len(), 4);
    assert_eq!(ts[0].kind, TestKind::Suite);
    assert_eq!(ts[0].parent_name, None);
    assert_eq!(ts[1].name.as_deref(), Some("adds"));
    assert_eq!(ts[1].parent_name.as_deref(), Some("math"));
    assert_eq!(ts[2].kind, TestKind::Hook);
    assert_eq!(ts[3].parent_name, None);
    assert_eq!(ts[3].framework, "jest");
}

#[test]
fn pytest_class_and_functions() {
    let method = n("function_definition", "def test_a(self): ...", vec![f("name", leaf("identifier", "test_a"))]);
    let class = n("class_definition", "", vec![
        f("name", leaf("identifier", "TestMath")),
        f("superclasses", leaf("argument_list", "(unittest.TestCase)")),
        f("body", n("block", "", vec![method])),
    ]);
    let fixture = decorated("@pytest.fixture", "function_definition", "db");
    let root = n("module", "", vec![class, fixture, n("function_definition", "", vec![f("name", leaf("identifier", "helper"))])]);
    let ts = PythonTestDetector.detect(&ctx("test_m.py", "python", root));
    assert_eq!(ts.len(), 3);
    assert_eq!(ts[0].kind, TestKind::Suite);
    assert_eq!(ts[0].framework, "unittest");
    assert_eq!(ts[1].name.as_deref(), Some("test_a"));
    assert_eq!(ts[1].parent_name.as_deref(), Some("TestMath"));
    assert_eq!(ts[2].kind, TestKind::Fixture);
    assert_eq!(ts[2].parent_name, None);
}

#[test]
fn go_and_rust_tests() {
    let go = n("source_file", "", vec![
        n("function_declaration", "", vec![f("name", leaf("identifier", "TestAdd"))]),
        n("function_declaration", "", vec![f("name", leaf("identifier", "helper"))]),
    ]);
    let ts = GoTestDetector.detect(&ctx("a_test.go", "go", go));
    assert_eq!(ts.len(), 1);
    assert_eq!(ts[0].framework, "go_testing");
    let rs = n("function_item", "", vec![leaf("attribute_item", "#[test]"), f("name", leaf("identifier", "adds"))]);
    let ts = RustTestDetector.detect(&ctx("lib.rs", "rust", rs));
    assert_eq!(ts[0].name.as_deref(), Some("adds"));
    assert_eq!(ts[0].framework, "rust_test");
}
