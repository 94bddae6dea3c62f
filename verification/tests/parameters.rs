use starlark::docs::{DocFunction, DocItem, DocMember, DocModule, DocParam, DocParams, DocProperty};
use starlark::typing::Ty;
use starlark_completion::definition::{Definition, DottedDefinition, IdentifierDefinition};
use starlark_completion::item::{CompletionItem, CompletionItemKind, ResolvedPos, ResolvedSpan};
use starlark_completion::parameter::{
    drop_used, exported_parameter_items, global_parameter_items, items_of_parameters,
    local_parameter_items,
    parameter_name_options, parameter_name_options_for_identifier_definition,
};
use starlark_completion::symbol::{ExportedSymbol, ExportedSymbolKind, Symbol, SymbolKind};

fn param(name: &str) -> DocParam {
    DocParam {
        name: name.to_owned(),
        docs: None,
        typ: Ty::any(),
        default_value: None,
    }
}

/// `def f(a, /, b, c, *args, d, **kwargs)`
fn function_docs() -> DocItem {
    DocItem::Member(DocMember::Function(DocFunction {
        params: DocParams {
            pos_only: vec![param("a")],
            pos_or_named: vec![param("b"), param("c")],
            args: Some(param("args")),
            named_only: vec![param("d")],
            kwargs: Some(param("kwargs")),
        },
        ..DocFunction::default()
    }))
}

fn property_docs() -> DocItem {
    DocItem::Member(DocMember::Property(DocProperty {
        docs: None,
        typ: Ty::any(),
    }))
}

fn symbol(name: &str, kind: SymbolKind, doc: Option<DocItem>) -> (String, Symbol) {
    let symbol = Symbol {
        name: name.to_owned(),
        detail: None,
        kind,
        doc,
        param: None,
    };
    (name.to_owned(), symbol)
}

fn strings(names: &[&str]) -> Vec<String> {
    names.iter().map(|name| (*name).to_owned()).collect()
}

fn labels(items: Option<Vec<CompletionItem>>) -> Option<Vec<String>> {
    items.map(|items| {
        items
            .into_iter()
            .map(|item| {
                assert_eq!(
                    item,
                    CompletionItem::plain(item.label.clone(), CompletionItemKind::Property)
                );
                item.label
            })
            .collect()
    })
}

fn exported(kind: ExportedSymbolKind) -> ExportedSymbol {
    ExportedSymbol {
        name: "f".to_owned(),
        kind,
        docs: None,
    }
}

fn exported_function() -> ExportedSymbol {
    exported(ExportedSymbolKind::Function {
        argument_names: strings(&["x", "y"]),
    })
}

#[test]
fn parameters_given_already_are_left_out() {
    let symbols = vec![
        symbol("f", SymbolKind::Method, Some(function_docs())),
        symbol("g", SymbolKind::Method, None),
        symbol("h", SymbolKind::Variable, Some(function_docs())),
        symbol("p", SymbolKind::Method, Some(property_docs())),
    ];
    let offered = |name: &str, used: &[&str]| {
        labels(local_parameter_items(&symbols, name, &strings(used)))
    };
    assert_eq!(offered("f", &[]), Some(strings(&["a", "b", "c", "d"])));
    assert_eq!(offered("f", &["c"]), Some(strings(&["a", "b", "d"])));
    assert_eq!(offered("f", &["c", "z", "a"]), Some(strings(&["b", "d"])));
    assert_eq!(offered("f", &["a", "b", "c", "d"]), Some(vec![]));
    assert_eq!(offered("g", &[]), None);
    assert_eq!(offered("h", &[]), None);
    assert_eq!(offered("p", &[]), None);
    assert_eq!(offered("missing", &[]), None);
}

#[test]
fn names_become_items_in_order() {
    let names = strings(&["b", "a", "b"]);
    assert_eq!(labels(Some(items_of_parameters(&names))), Some(names.clone()));
    assert_eq!(drop_used(&names, &strings(&["a"])), strings(&["b", "b"]));
    assert_eq!(drop_used(&names, &[]), names);
}

#[test]
fn the_last_symbol_of_a_name_counts() {
    let symbols = vec![
        symbol("f", SymbolKind::Method, None),
        symbol("f", SymbolKind::Method, Some(function_docs())),
    ];
    assert_eq!(
        labels(local_parameter_items(&symbols, "f", &[])),
        Some(strings(&["a", "b", "c", "d"]))
    );
}

#[test]
fn parameters_of_an_exported_function() {
    assert_eq!(
        labels(exported_parameter_items(&Some(exported_function()))),
        Some(strings(&["x", "y"]))
    );
    let value = Some(exported(ExportedSymbolKind::Any));
    assert_eq!(labels(exported_parameter_items(&value)), None);
    assert_eq!(labels(exported_parameter_items(&None)), None);
}

#[test]
fn parameters_of_a_global_function() {
    let entries = vec![
        ("p".to_owned(), property_docs()),
        ("f".to_owned(), function_docs()),
        ("f".to_owned(), property_docs()),
    ];
    assert_eq!(
        labels(global_parameter_items(&entries, "f")),
        Some(strings(&["a", "b", "c", "d"]))
    );
    assert_eq!(labels(global_parameter_items(&entries, "p")), None);
    assert_eq!(labels(global_parameter_items(&entries, "q")), None);
}

fn here() -> ResolvedSpan {
    ResolvedSpan {
        begin: ResolvedPos { line: 4, column: 2 },
        end: ResolvedPos { line: 4, column: 9 },
    }
}

fn symbols_at(pos: ResolvedPos) -> Vec<(String, Symbol)> {
    assert_eq!(pos, here().begin);
    vec![symbol("f", SymbolKind::Method, Some(function_docs()))]
}

fn resolve(path: &str) -> Result<String, String> {
    if path == "bad" {
        Err("bad path".to_owned())
    } else {
        Ok(format!("uri of {path}"))
    }
}

fn fetch(uri: &String) -> Result<Option<u32>, String> {
    match uri.as_str() {
        "uri of m" => Ok(Some(7)),
        "uri of none" => Ok(None),
        _ => Err("bad file".to_owned()),
    }
}

fn exported_symbol(module: &u32, name: &str) -> Option<ExportedSymbol> {
    assert_eq!(*module, 7);
    if name == "f" {
        Some(exported_function())
    } else {
        None
    }
}

fn environment() -> DocModule {
    DocModule {
        docs: None,
        members: vec![
            ("p".to_owned(), property_docs()),
            ("len".to_owned(), function_docs()),
        ]
        .into_iter()
        .collect(),
    }
}

fn options(definition: &IdentifierDefinition) -> Result<Option<Vec<String>>, String> {
    parameter_name_options_for_identifier_definition(
        definition,
        &strings(&["b", "x"]),
        &symbols_at,
        &resolve,
        &fetch,
        &exported_symbol,
        &environment,
    )
    .map(labels)
}

fn location(name: &str) -> IdentifierDefinition {
    IdentifierDefinition::Location {
        destination: here(),
        name: name.to_owned(),
    }
}

fn loaded(path: &str, name: &str) -> IdentifierDefinition {
    IdentifierDefinition::LoadedLocation {
        path: path.to_owned(),
        name: name.to_owned(),
    }
}

fn unresolved(name: &str) -> IdentifierDefinition {
    IdentifierDefinition::Unresolved {
        name: name.to_owned(),
    }
}

#[test]
fn what_is_called_decides_which_parameters_are_offered() {
    assert_eq!(options(&location("f")), Ok(Some(strings(&["a", "c", "d"]))));
    assert_eq!(options(&location("q")), Ok(None));
    assert_eq!(options(&loaded("m", "f")), Ok(Some(strings(&["x", "y"]))));
    assert_eq!(options(&loaded("m", "q")), Ok(None));
    assert_eq!(options(&loaded("none", "f")), Ok(None));
    assert_eq!(options(&loaded("bad", "f")), Err("bad path".to_owned()));
    assert_eq!(options(&loaded("else", "f")), Err("bad file".to_owned()));
    assert_eq!(options(&unresolved("len")), Ok(Some(strings(&["a", "b", "c", "d"]))));
    assert_eq!(options(&unresolved("p")), Ok(None));
    assert_eq!(options(&unresolved("q")), Ok(None));
    assert_eq!(options(&IdentifierDefinition::LoadPath), Ok(None));
    assert_eq!(options(&IdentifierDefinition::StringLiteral), Ok(None));
    assert_eq!(options(&IdentifierDefinition::NotFound), Ok(None));
}

fn offered(definition: Definition) -> Vec<String> {
    let definition_at = |line: u32, column: u32| {
        assert_eq!((line, column), (4, 2));
        definition.clone()
    };
    let items = parameter_name_options(
        &here(),
        &strings(&["b"]),
        &definition_at,
        &symbols_at,
        &resolve,
        &fetch,
        &exported_symbol,
        &environment,
    );
    labels(Some(items)).unwrap()
}

#[test]
fn parameters_are_offered_for_what_stands_at_the_name() {
    assert_eq!(
        offered(Definition::Identifier(location("f"))),
        strings(&["a", "c", "d"])
    );
    let dotted = Definition::Dotted(DottedDefinition {
        root_definition_location: loaded("m", "f"),
    });
    assert_eq!(offered(dotted), strings(&["x", "y"]));
    assert!(offered(Definition::Identifier(loaded("bad", "f"))).is_empty());
    assert!(offered(Definition::Identifier(unresolved("q"))).is_empty());
}
