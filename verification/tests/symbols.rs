use starlark::docs::{
    DocFunction, DocItem, DocMember, DocParam, DocParams, DocProperty, DocString, DocStringKind,
};
use starlark::syntax::{AstModule, Dialect};
use starlark::typing::Ty;
use starlark_completion::default::{
    default_completion_options, extend_table, table_of_symbols, Offer, SymbolTable,
};
use starlark_completion::exported::{exported_symbol_options, import_completion_items};
use starlark_completion::item::{
    CompletionItem, CompletionItemKind, MarkupContent, MarkupKind, Position, Range, ResolvedPos,
    ResolvedSpan, TextEdit,
};
use starlark_completion::loading::load_module;
use starlark_completion::module::{LoadEdits, LspModule};
use starlark_completion::symbol::{
    ExportedSymbol, ExportedSymbolKind, Symbol, SymbolKind,
};
use starlark_completion::syntax::{LoadSite, Value};

fn function_docs(text: &str) -> DocItem {
    DocItem::Member(DocMember::Function(DocFunction::from_docstring(
        DocStringKind::Starlark,
        DocParams::default(),
        Ty::any(),
        Some(text),
    )))
}

fn property_docs(summary: &str) -> DocItem {
    DocItem::Member(DocMember::Property(DocProperty {
        docs: Some(doc_string(summary)),
        typ: Ty::any(),
    }))
}

fn doc_string(summary: &str) -> DocString {
    DocString {
        summary: summary.to_owned(),
        details: None,
        examples: None,
    }
}

fn param_docs(name: &str, summary: &str) -> DocParam {
    DocParam {
        name: name.to_owned(),
        docs: Some(doc_string(summary)),
        typ: Ty::any(),
        default_value: None,
    }
}

fn variable(name: &str) -> (String, Symbol) {
    let symbol = Symbol {
        name: name.to_owned(),
        detail: None,
        kind: SymbolKind::Variable,
        doc: None,
        param: None,
    };
    (name.to_owned(), symbol)
}

fn markdown(value: &str) -> Option<MarkupContent> {
    Some(MarkupContent {
        kind: MarkupKind::Markdown,
        value: value.to_owned(),
    })
}

fn document(source: &str) -> LspModule {
    let ast =
        AstModule::parse("t.star", source.to_owned(), &Dialect::AllOptionsInternal).unwrap();
    LspModule::new(&ast, |_i| None)
}

fn span() -> ResolvedSpan {
    ResolvedSpan {
        begin: ResolvedPos { line: 3, column: 7 },
        end: ResolvedPos { line: 3, column: 12 },
    }
}

#[test]
fn the_item_for_a_function_in_sight() {
    let symbol = Symbol {
        name: "render".to_owned(),
        detail: Some("from here".to_owned()),
        kind: SymbolKind::Method,
        doc: Some(function_docs("Render it.")),
        param: Some(("*args".to_owned(), param_docs("args", "Not shown."))),
    };
    assert_eq!(
        symbol.completion_item(),
        CompletionItem {
            label: "render".to_owned(),
            kind: Some(CompletionItemKind::Method),
            detail: Some("from here".to_owned()),
            documentation: markdown("## render\n\n```python\ndef render()\n```\n\nRender it."),
            insert_text: None,
            text_edit: None,
        }
    );
}

#[test]
fn the_item_for_a_parameter_in_sight() {
    let symbol = Symbol {
        name: "args".to_owned(),
        detail: None,
        kind: SymbolKind::Variable,
        doc: None,
        param: Some(("*args".to_owned(), param_docs("args", "What to render."))),
    };
    let item = symbol.completion_item();
    assert_eq!(item.label, "args");
    assert_eq!(item.kind, Some(CompletionItemKind::Variable));
    assert_eq!(
        item.documentation,
        markdown("* `*args`: (required)\n\n  What to render.\n\n")
    );
    assert_eq!(variable("x").1.completion_item().documentation, None);
}

#[test]
fn the_kind_of_a_value() {
    let lambda = Value::Lambda {
        parameters: vec![Some("a".to_owned()), None, Some("b".to_owned())],
    };
    let kind = ExportedSymbolKind::from_expr(&lambda);
    assert_eq!(
        kind,
        ExportedSymbolKind::Function {
            argument_names: vec!["a".to_owned(), "b".to_owned()],
        }
    );
    assert_eq!(kind.completion_kind(), CompletionItemKind::Function);
    let other = ExportedSymbolKind::from_expr(&Value::Other);
    assert_eq!(other, ExportedSymbolKind::Any);
    assert_eq!(other.completion_kind(), CompletionItemKind::Constant);
}

#[test]
fn a_table_holds_one_offer_for_each_name() {
    let symbols = vec![variable("a"), variable("b")];
    let mut table: SymbolTable<u32> = table_of_symbols(&symbols);
    assert!(table.contains_key("a"));
    assert!(!table.contains_key("c"));
    extend_table(&mut table, vec![("c".to_owned(), 1), ("a".to_owned(), 2)]);
    assert!(table.contains_key("c"));
    assert!(table.contains_key("b"));
    let mut fresh: SymbolTable<u32> = SymbolTable::new();
    assert!(!fresh.contains_key("a"));
    fresh.insert("a".to_owned(), Offer::Host(7));
    assert!(fresh.contains_key("a"));
}

type Edit = fn(&str, &str, &LspModule, Option<ResolvedSpan>, Option<&LoadSite>) -> String;

fn edit(
    module: &str,
    symbol: &str,
    _document: &LspModule,
    last: Option<ResolvedSpan>,
    existing: Option<&LoadSite>,
) -> String {
    let last = last.unwrap().begin.line;
    let existing = existing.map(|site| site.span.begin.line);
    format!("{symbol} of {module}: last {last}, existing {existing:?}")
}

fn offered(offers: Vec<Offer<String>>) -> Vec<String> {
    offers
        .into_iter()
        .map(|offer| match offer {
            Offer::Symbol(item) => format!("symbol {}", item.label),
            Offer::Host(item) => format!("host {item}"),
        })
        .collect()
}

#[test]
fn exported_symbols_come_in_place_of_those_in_sight() {
    let symbols_at = |pos: ResolvedPos| {
        assert_eq!(pos, ResolvedPos { line: 2, column: 4 });
        vec![variable("a"), variable("b")]
    };
    let exported = |except: Option<&u32>,
                    table: &SymbolTable<String>,
                    uri: &u32,
                    edits: &LoadEdits<Edit>|
     -> Vec<(String, String)> {
        assert_eq!((except, uri), (Some(&17), &17));
        assert!(table.contains_key("a") && table.contains_key("b"));
        assert!(!table.contains_key("c"));
        assert_eq!(edits.text_edit("m", "c"), "c of m: last 1, existing Some(0)");
        vec![
            ("c".to_owned(), edits.text_edit("o", "c")),
            ("a".to_owned(), "a1".to_owned()),
            ("c".to_owned(), edits.text_edit("n", "c")),
        ]
    };
    let offers = default_completion_options(
        &17,
        &document("load(\"m\", \"x\")\nload(\"n\", \"y\")\nz = 1\n"),
        2,
        4,
        2,
        &symbols_at,
        &exported,
        &(edit as Edit),
        vec!["global".to_owned()],
        vec!["if".to_owned(), "a".to_owned()],
    );
    assert_eq!(
        offered(offers),
        vec!["host a1", "symbol b", "host c of n: last 1, existing Some(1)", "host global", "host if", "host a"]
    );
}

#[test]
fn other_documents_are_not_asked_where_none_is_open() {
    for open_documents in [0, 1] {
        let symbols_at = |_pos: ResolvedPos| vec![variable("a"), variable("a")];
        let exported = |_except: Option<&u32>,
                        _table: &SymbolTable<String>,
                        _uri: &u32,
                        _edits: &LoadEdits<Edit>|
         -> Vec<(String, String)> { panic!("no other document is open") };
        let offers = default_completion_options(
            &17,
            &document("x = 1\n"),
            0,
            0,
            open_documents,
            &symbols_at,
            &exported,
            &(edit as Edit),
            vec![],
            vec!["if".to_owned()],
        );
        assert_eq!(offered(offers), vec!["symbol a", "host if"]);
    }
}

fn exports() -> Vec<ExportedSymbol> {
    vec![
        ExportedSymbol {
            name: "f".to_owned(),
            kind: ExportedSymbolKind::Function {
                argument_names: vec!["p".to_owned()],
            },
            docs: Some(property_docs("A thing.")),
        },
        ExportedSymbol {
            name: "g".to_owned(),
            kind: ExportedSymbolKind::Any,
            docs: None,
        },
        ExportedSymbol {
            name: "h".to_owned(),
            kind: ExportedSymbolKind::Any,
            docs: None,
        },
    ]
}

#[test]
fn loaded_names_are_not_offered_again() {
    let items = import_completion_items(&exports(), span(), &["g".to_owned(), "q".to_owned()]);
    let range = Range {
        start: Position { line: 3, character: 7 },
        end: Position { line: 3, character: 12 },
    };
    assert_eq!(items.len(), 2);
    assert_eq!(items[0].label, "f");
    assert_eq!(items[0].kind, Some(CompletionItemKind::Function));
    assert!(items[0].documentation.as_ref().unwrap().value.contains("A thing."));
    assert_eq!(
        items[0].text_edit,
        Some(TextEdit { range, new_text: "f".to_owned() })
    );
    assert_eq!(
        items[1],
        CompletionItem {
            label: "h".to_owned(),
            kind: Some(CompletionItemKind::Constant),
            detail: None,
            documentation: None,
            insert_text: None,
            text_edit: Some(TextEdit { range, new_text: "h".to_owned() }),
        }
    );
}

#[test]
fn each_further_loaded_name_removes_its_item() {
    let labels = |loaded: &[&str]| -> Vec<String> {
        let loaded: Vec<String> = loaded.iter().map(|name| (*name).to_owned()).collect();
        import_completion_items(&exports(), span(), &loaded)
            .into_iter()
            .map(|item| item.label)
            .collect()
    };
    assert_eq!(labels(&[]), vec!["f", "g", "h"]);
    assert_eq!(labels(&["h"]), vec!["f", "g"]);
    assert_eq!(labels(&["f", "h"]), vec!["g"]);
    assert_eq!(labels(&["f", "h", "f", "g"]), Vec::<String>::new());
}

#[test]
fn what_a_module_exports_is_offered_where_it_can_be_had() {
    let resolve = |path: &str| -> Result<String, String> {
        if path == "bad" {
            Err("bad path".to_owned())
        } else {
            Ok(format!("uri of {path}"))
        }
    };
    let fetch = |uri: &String| -> Result<Option<Vec<ExportedSymbol>>, String> {
        match uri.as_str() {
            "uri of m" => Ok(Some(exports())),
            "uri of none" => Ok(None),
            _ => Err("bad file".to_owned()),
        }
    };
    let labels = |path: &str| -> Vec<String> {
        exported_symbol_options(path, span(), &["f".to_owned()], &resolve, &fetch)
            .into_iter()
            .map(|item| item.label)
            .collect()
    };
    assert_eq!(labels("m"), vec!["g", "h"]);
    assert!(labels("bad").is_empty());
    assert!(labels("none").is_empty());
    assert!(labels("else").is_empty());
    assert_eq!(load_module("bad", &resolve, &fetch), Err("bad path".to_owned()));
    assert_eq!(load_module("else", &resolve, &fetch), Err("bad file".to_owned()));
    assert_eq!(load_module("none", &resolve, &fetch), Ok(None));
    assert_eq!(load_module("m", &resolve, &fetch), Ok(Some(exports())));
}

#[test]
fn a_span_is_cut_to_the_numbers_of_the_protocol() {
    let far = ResolvedSpan {
        begin: ResolvedPos { line: 1, column: u32::MAX as usize + 3 },
        end: ResolvedPos { line: 2, column: 4 },
    };
    let range = far.range();
    assert_eq!(range.start, Position { line: 1, character: 2 });
    assert_eq!(range.end, Position { line: 2, character: 4 });
}
