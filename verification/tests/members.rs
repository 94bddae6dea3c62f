use std::collections::HashMap;

use starlark::docs::{DocFunction, DocItem, DocMember, DocParams, DocStringKind};
use starlark::syntax::{AstModule, Dialect};
use starlark::typing::Ty;
use starlark_completion::item::{CompletionItemKind, MarkupKind, ResolvedPos, ResolvedSpan};
use starlark_completion::member::{
    dot_completion_options, load_of_symbol, member_completion_options, member_items_of_loaded,
    struct_field_completion_items, top_level_symbol_kind_and_docs,
};
use starlark_completion::module::{LoadEdits, LspModule, Statement};
use starlark_completion::provider::completion_provider;
use starlark_completion::symbol::ExportedSymbolKind;
use starlark_completion::syntax::{
    Argument, Call, LoadArg, LoadSite, StatementSyntax, Target, Value,
};
use starlark_syntax::syntax::ast::{AstLiteral, AstStmt, ExprP, StmtP};
use starlark_syntax::syntax::top_level_stmts::top_level_stmts;

const HELPERS: &str = r#"
def _render(config):
    """Render the config."""
    pass

def _validate(config):
    pass

helpers = struct(
    render = _render,
    validate = _validate,
)
"#;

fn docstring(body: &AstStmt) -> Option<String> {
    match &body.node {
        StmtP::Statements(statements) => statements.first().and_then(docstring),
        StmtP::Expression(expr) => match &expr.node {
            ExprP::Literal(AstLiteral::String(text)) => Some(text.node.clone()),
            _ => None,
        },
        _ => None,
    }
}

fn function_docs(text: &str) -> DocFunction {
    DocFunction::from_docstring(
        DocStringKind::Starlark,
        DocParams::default(),
        Ty::any(),
        Some(text),
    )
}

fn docs_of_def(ast: &AstModule, i: usize) -> Option<DocFunction> {
    match &top_level_stmts(ast.statement())[i].node {
        StmtP::Def(def) => docstring(&def.body).map(|text| function_docs(&text)),
        _ => None,
    }
}

fn parse(source: &str) -> Option<LspModule> {
    let ast = AstModule::parse("t.star", source.to_owned(), &Dialect::AllOptionsInternal).ok()?;
    Some(LspModule::new(&ast, |i| docs_of_def(&ast, i)))
}

fn lsp_module(source: &str) -> LspModule {
    parse(source).unwrap()
}

#[test]
fn test_struct_field_completion_items() {
    let module = lsp_module(
        r#"
def _render(config):
    """Render the config."""
    pass

helpers = struct(
    render = _render,
    version = "1.0",
)
"#,
    );
    let items = struct_field_completion_items(&module, "helpers");
    assert_eq!(items.len(), 2);
    assert_eq!(items[0].label, "render");
    assert_eq!(items[0].kind, Some(CompletionItemKind::Function));
    assert!(
        items[0].documentation.is_some(),
        "docstring of _render should be attached"
    );
    assert_eq!(items[1].label, "version");
    assert_eq!(items[1].kind, Some(CompletionItemKind::Field));

    assert!(struct_field_completion_items(&module, "nope").is_empty());
}

#[test]
fn test_struct_field_completion_items_non_struct_assign() {
    let module = lsp_module("helpers = [1, 2]\n");
    assert!(struct_field_completion_items(&module, "helpers").is_empty());
}

/// A document that is being edited, and the files beside it.
struct TestServer {
    files: HashMap<String, String>,
    text: String,
    last_valid_parse: LspModule,
}

impl TestServer {
    fn new(content: &str) -> TestServer {
        TestServer {
            files: HashMap::new(),
            text: content.to_owned(),
            last_valid_parse: lsp_module(content),
        }
    }

    fn set_file_contents(&mut self, uri: &str, content: &str) {
        self.files.insert(uri.to_owned(), content.to_owned());
    }

    fn change_file(&mut self, content: &str) {
        self.text = content.to_owned();
        if let Some(module) = parse(content) {
            self.last_valid_parse = module;
        }
    }

    fn completion_labels(&self, line: u32, character: u32) -> Vec<String> {
        let resolve = |path: &str| -> Result<String, String> { Ok(format!("file:///dir/{path}")) };
        let fetch = |uri: &String| -> Result<Option<LspModule>, String> {
            Ok(self.files.get(uri).map(|content| lsp_module(content)))
        };
        let text = self.text.lines().nth(line as usize).unwrap_or("");
        match dot_completion_options(text, character, &self.last_valid_parse, &resolve, &fetch) {
            Some(items) => {
                let mut labels: Vec<String> = items.into_iter().map(|item| item.label).collect();
                labels.sort();
                labels
            }
            None => panic!("expected a member access"),
        }
    }
}

/// A document that loads the helpers struct, edited into the given (possibly unparseable) state.
fn server_with_document(final_content: &str) -> TestServer {
    let mut server = TestServer::new("load(\"helpers.star\", \"helpers\")\nx = helpers\n");
    server.set_file_contents("file:///dir/helpers.star", HELPERS);
    server.change_file(final_content);
    server
}

#[test]
fn test_completion_trigger_characters_include_dot() {
    let completion = completion_provider();
    assert_eq!(completion.trigger_characters, Some(vec![".".to_owned()]));
}

#[test]
fn test_member_completion_on_unparseable_dot_state() {
    // `x = helpers.` does not parse; members must come from the latest text +
    // the stale AST's load statements.
    let content = "load(\"helpers.star\", \"helpers\")\nx = helpers.\n";
    assert!(parse(content).is_none());
    let server = server_with_document(content);
    assert_eq!(
        server.completion_labels(1, 12),
        vec!["render".to_owned(), "validate".to_owned()]
    );
}

#[test]
fn test_member_completion_with_partial_word() {
    let server = server_with_document("load(\"helpers.star\", \"helpers\")\nx = helpers.re\n");
    assert_eq!(
        server.completion_labels(1, 14),
        vec!["render".to_owned(), "validate".to_owned()]
    );
}

#[test]
fn test_member_completion_unresolvable_root_is_empty() {
    // Deliberate: no fallback to default completions after a dot.
    let server = server_with_document("load(\"helpers.star\", \"helpers\")\nx = nope.\n");
    assert_eq!(server.completion_labels(1, 9), Vec::<String>::new());
}

#[test]
fn test_member_completion_chained_access_is_empty() {
    let server = server_with_document("load(\"helpers.star\", \"helpers\")\ny = helpers.render.\n");
    // The final dot is at column 18; the cursor sits after it at column 19.
    assert_eq!(server.completion_labels(1, 19), Vec::<String>::new());
}

#[test]
fn test_member_completion_respects_load_rename() {
    // load("helpers.star", h = "helpers") binds local `h` to remote `helpers`.
    let mut server = TestServer::new("load(\"helpers.star\", h = \"helpers\")\nx = h\n");
    server.set_file_contents("file:///dir/helpers.star", HELPERS);
    server.change_file("load(\"helpers.star\", h = \"helpers\")\nx = h.\n");
    assert_eq!(
        server.completion_labels(1, 6),
        vec!["render".to_owned(), "validate".to_owned()]
    );
}

fn never_resolve(_path: &str) -> Result<String, String> {
    Err("no such path".to_owned())
}

fn resolve_to_itself(path: &str) -> Result<String, String> {
    Ok(path.to_owned())
}

fn never_fetch(_uri: &String) -> Result<Option<LspModule>, String> {
    Err("no such file".to_owned())
}

fn fetch_nothing(_uri: &String) -> Result<Option<LspModule>, String> {
    Ok(None)
}

#[test]
fn members_of_a_module_that_cannot_be_had_are_none() {
    let document = lsp_module("load(\"m\", \"h\")\nx = h\n");
    assert!(member_completion_options(&document, "h", &never_resolve, &never_fetch).is_empty());
    assert!(member_completion_options(&document, "h", &resolve_to_itself, &never_fetch).is_empty());
    assert!(
        member_completion_options(&document, "h", &resolve_to_itself, &fetch_nothing).is_empty()
    );
    let failed: Result<Option<LspModule>, String> = Err("x".to_owned());
    assert!(member_items_of_loaded(&failed, "helpers").is_empty());
    let loaded: Result<Option<LspModule>, String> = Ok(Some(lsp_module(HELPERS)));
    assert_eq!(member_items_of_loaded(&loaded, "helpers").len(), 2);
}

#[test]
fn the_path_in_the_load_is_what_is_resolved() {
    let document = lsp_module("load(\"a\", \"x\")\nload(\"b\", \"y\", z = \"w\")\n");
    let resolve = |path: &str| -> Result<String, String> {
        assert_eq!(path, "b");
        Ok("uri of b".to_owned())
    };
    let fetch = |uri: &String| -> Result<Option<LspModule>, String> {
        assert_eq!(uri, "uri of b");
        Ok(Some(lsp_module("w = struct(k = 1)\nz = struct(no = 1)\n")))
    };
    let items = member_completion_options(&document, "z", &resolve, &fetch);
    assert_eq!(items.len(), 1);
    assert_eq!(items[0].label, "k");
}

#[test]
fn no_member_access_leaves_completion_to_others() {
    let document = lsp_module("x = 1\n");
    let options = dot_completion_options("x = 1", 5, &document, &never_resolve, &never_fetch);
    assert_eq!(options, None);
    let options = dot_completion_options("# x.", 4, &document, &never_resolve, &never_fetch);
    assert_eq!(options, Some(vec![]));
}

#[test]
fn loads_are_found_by_local_name() {
    let document = lsp_module("load(\"m\", \"a\", h = \"helpers\")\nload(\"n\", h2 = \"x\")\n");
    let pair = |a: &str, b: &str| Some((a.to_owned(), b.to_owned()));
    assert_eq!(load_of_symbol(&document, "h"), pair("m", "helpers"));
    assert_eq!(load_of_symbol(&document, "a"), pair("m", "a"));
    assert_eq!(load_of_symbol(&document, "h2"), pair("n", "x"));
    assert_eq!(load_of_symbol(&document, "helpers"), None);

    let twice = lsp_module("load(\"m\", \"a\")\nload(\"n\", a = \"b\")\n");
    assert_eq!(load_of_symbol(&twice, "a"), pair("m", "a"));
}

#[test]
fn the_documentation_is_rendered_under_the_name_of_the_field() {
    let module = lsp_module(HELPERS);
    let items = struct_field_completion_items(&module, "helpers");
    let docs = items[0].documentation.as_ref().unwrap();
    assert_eq!(docs.kind, MarkupKind::Markdown);
    assert_eq!(
        docs.value,
        "## render\n\n```python\ndef render()\n```\n\nRender the config."
    );
    // `_validate` has no docstring.
    assert_eq!(items[1].documentation, None);
    assert_eq!(items[1].kind, Some(CompletionItemKind::Function));
}

#[test]
fn symbols_are_found_in_the_order_of_the_statements() {
    let module = lsp_module(
        "a = lambda p, *q, **r: 1\n(b, [c, d[0]]) = f()\ndef _g(x, /, y, *, z = 1):\n    pass\na = 2\n",
    );
    let function = |names: &[&str]| ExportedSymbolKind::Function {
        argument_names: names.iter().map(|n| (*n).to_owned()).collect(),
    };
    let kind = |name: &str| top_level_symbol_kind_and_docs(&module, name).map(|found| found.0);
    assert_eq!(kind("a"), Some(function(&["p", "q", "r"])));
    assert_eq!(kind("b"), Some(ExportedSymbolKind::Any));
    assert_eq!(kind("c"), Some(ExportedSymbolKind::Any));
    assert_eq!(kind("d"), None);
    assert_eq!(kind("_g"), Some(function(&["x", "y", "z"])));
    assert_eq!(kind("g"), None);
}

#[test]
fn fields_keep_their_order_and_positional_arguments_are_left_out() {
    let module = lsp_module("v = 1\ns = struct(1, z = v, y = w, x = 1 + v, *a, **k)\n");
    let items = struct_field_completion_items(&module, "s");
    let shown: Vec<(&str, CompletionItemKind)> =
        items.iter().map(|i| (i.label.as_str(), i.kind.unwrap())).collect();
    assert_eq!(
        shown,
        vec![
            ("z", CompletionItemKind::Constant),
            ("y", CompletionItemKind::Field),
            ("x", CompletionItemKind::Field),
        ]
    );
}

#[test]
fn the_first_struct_of_that_name_counts() {
    let module = lsp_module(
        "s = 1\ns, t = struct(no = 1), 2\ns = record(no = 1)\ns = m.struct(no = 1)\ns = struct(a = 1)\ns = struct(b = 1)\n",
    );
    let items = struct_field_completion_items(&module, "s");
    assert_eq!(items.len(), 1);
    assert_eq!(items[0].label, "a");
}

#[test]
fn a_module_holds_what_completion_reads() {
    let module = lsp_module("load(\"m\", \"a\", b = \"c\")\ns = struct(f = g, h = 1)\nx += 1\n");
    assert_eq!(module.statements.len(), 3);
    assert_eq!(
        module.statements[0],
        Statement::Load {
            module: "m".to_owned(),
            args: vec![
                LoadArg { local: "a".to_owned(), their: "a".to_owned() },
                LoadArg { local: "b".to_owned(), their: "c".to_owned() },
            ],
        }
    );
    assert_eq!(
        module.statements[1],
        Statement::Assign {
            target: Some("s".to_owned()),
            names: vec!["s".to_owned()],
            kind: ExportedSymbolKind::Any,
            value: Value::Call {
                function: Some("struct".to_owned()),
                arguments: vec![
                    Argument::Named { field: "f".to_owned(), identifier: Some("g".to_owned()) },
                    Argument::Named { field: "h".to_owned(), identifier: None },
                ],
            },
        }
    );
    assert_eq!(module.statements[2], Statement::Other);
}

#[test]
fn loads_know_where_they_stand() {
    let module = lsp_module("load(\"m\", \"a\")\nx = 1\nload(\"n\", \"b\")\nload(\"m\", \"c\")\n");
    assert_eq!(module.loads.sites.len(), 3);
    let last = module.loads.last_load().unwrap();
    assert_eq!((last.begin.line, last.begin.column), (3, 0));
    assert_eq!((last.end.line, last.end.column), (3, 14));
    assert_eq!(module.loads.get("m").unwrap().span, last);
    assert_eq!(module.loads.get("n").unwrap().span.begin.line, 2);
    assert_eq!(module.loads.get("n").unwrap().args[0].local, "b");
    assert!(module.loads.get("o").is_none());
    assert_eq!(lsp_module("x = 1\ny = 2\n").loads.last_load(), None);
}

#[test]
fn a_module_is_made_of_its_parts() {
    let empty = || Target { identifier: None, names: vec![] };
    let site = LoadSite {
        module: "m".to_owned(),
        args: vec![],
        span: ResolvedSpan {
            begin: ResolvedPos { line: 5, column: 0 },
            end: ResolvedPos { line: 5, column: 9 },
        },
    };
    let module = LspModule::from_parts(
        vec![
            StatementSyntax::Def {
                name: "f".to_owned(),
                parameters: vec![Some("a".to_owned()), None, Some("b".to_owned())],
            },
            StatementSyntax::Assign,
            StatementSyntax::Other,
        ],
        vec![
            empty(),
            Target { identifier: None, names: vec!["x".to_owned(), "y".to_owned()] },
            empty(),
        ],
        vec![None, Some(Call { function: None, arguments: vec![Argument::Other] }), None],
        vec![None, None, None],
        vec![None, Some(site.clone()), None],
        |i| {
            assert_eq!(i, 0);
            None
        },
    );
    assert_eq!(
        module.statements,
        vec![
            Statement::Def {
                name: "f".to_owned(),
                argument_names: vec!["a".to_owned(), "b".to_owned()],
                docs: None,
            },
            Statement::Assign {
                target: None,
                names: vec!["x".to_owned(), "y".to_owned()],
                kind: ExportedSymbolKind::Any,
                value: Value::Call { function: None, arguments: vec![Argument::Other] },
            },
            Statement::Other,
        ]
    );
    assert_eq!(module.loads.sites, vec![site]);
}

#[test]
fn a_function_is_documented_as_a_function() {
    let module = lsp_module("def f(a):\n    \"\"\"Do it.\"\"\"\ndef g():\n    pass\nx = 1\n");
    let docs = |name: &str| top_level_symbol_kind_and_docs(&module, name).unwrap().1;
    assert_eq!(
        docs("f"),
        Some(DocItem::Member(DocMember::Function(function_docs("Do it."))))
    );
    assert_eq!(docs("g"), None);
    assert_eq!(docs("x"), None);
}

#[test]
fn only_loads_decide_where_a_symbol_comes_from() {
    let a = lsp_module("load(\"m\", \"a\")\nload(\"n\", h = \"x\")\n");
    let b = lsp_module("h = 1\nload(\"m\", \"a\")\ndef a():\n    pass\nload(\"n\", h = \"x\")\n");
    for name in ["a", "h", "x", "m"] {
        assert_eq!(load_of_symbol(&a, name), load_of_symbol(&b, name));
    }
    assert_eq!(load_of_symbol(&b, "h"), Some(("n".to_owned(), "x".to_owned())));
}

#[test]
fn an_edit_is_told_of_the_loads_there_are() {
    let module = lsp_module("load(\"m\", \"a\")\nload(\"m\", \"b\")\nload(\"n\", \"c\")\n");
    let edit = |path: &str,
                symbol: &str,
                document: &LspModule,
                last: Option<ResolvedSpan>,
                site: Option<&LoadSite>|
     -> (String, usize, Option<usize>, Option<String>) {
        (
            format!("{symbol} of {path}"),
            document.statements.len(),
            last.map(|span| span.begin.line),
            site.map(|site| site.args[0].local.clone()),
        )
    };
    let edits = LoadEdits { document: &module, edit: &edit };
    assert_eq!(
        edits.text_edit("m", "z"),
        ("z of m".to_owned(), 3, Some(2), Some("b".to_owned()))
    );
    assert_eq!(
        edits.text_edit("o", "z"),
        ("z of o".to_owned(), 3, Some(2), None)
    );
    let bare = lsp_module("x = 1\ny = 2\n");
    assert_eq!(
        LoadEdits { document: &bare, edit: &edit }.text_edit("m", "z"),
        ("z of m".to_owned(), 2, None, None)
    );
}
