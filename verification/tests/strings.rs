use starlark_completion::item::{
    CompletionItem, CompletionItemKind, Position, Range, ResolvedPos, ResolvedSpan, TextEdit,
};
use starlark_completion::provider::type_completion_options;
use starlark_completion::string_literal::{
    columns_are_in_range, string_completion_items, string_completion_options, LspOpError,
    StringCompletionResult, StringCompletionType,
};

fn span() -> ResolvedSpan {
    ResolvedSpan {
        begin: ResolvedPos { line: 1, column: 6 },
        end: ResolvedPos { line: 1, column: 11 },
    }
}

fn results() -> Vec<StringCompletionResult> {
    vec![
        StringCompletionResult {
            value: "dir/file.star".to_owned(),
            insert_text: Some("file.star".to_owned()),
            insert_text_offset: 4,
            kind: CompletionItemKind::File,
        },
        StringCompletionResult {
            value: "other".to_owned(),
            insert_text: None,
            insert_text_offset: 0,
            kind: CompletionItemKind::Folder,
        },
    ]
}

fn edit(character: u32, new_text: &str) -> Option<TextEdit> {
    Some(TextEdit {
        range: Range {
            start: Position { line: 1, character },
            end: Position { line: 1, character: 11 },
        },
        new_text: new_text.to_owned(),
    })
}

fn items() -> Vec<CompletionItem> {
    vec![
        CompletionItem {
            label: "dir/file.star".to_owned(),
            kind: Some(CompletionItemKind::File),
            detail: None,
            documentation: None,
            insert_text: Some("file.star".to_owned()),
            text_edit: edit(10, "file.star"),
        },
        CompletionItem {
            label: "other".to_owned(),
            kind: Some(CompletionItemKind::Folder),
            detail: None,
            documentation: None,
            insert_text: None,
            text_edit: edit(6, "other"),
        },
    ]
}

#[test]
fn each_result_replaces_the_string_from_its_offset() {
    assert_eq!(string_completion_items(&results(), span()), items());
    assert_eq!(string_completion_items(&vec![], span()), vec![]);
}

#[test]
fn the_host_says_how_a_string_can_be_completed() {
    let options = |kind: StringCompletionType, value: &str| {
        assert_eq!(value, "dir/");
        match kind {
            StringCompletionType::LoadPath => Ok(results()),
            StringCompletionType::String => Err("no strings".to_owned()),
        }
    };
    assert_eq!(
        string_completion_options(StringCompletionType::LoadPath, "dir/", span(), &options),
        Ok(items())
    );
    assert_eq!(
        string_completion_options(StringCompletionType::String, "dir/", span(), &options),
        Err(LspOpError::FromContext("no strings".to_owned()))
    );
}

#[test]
fn a_column_may_be_the_last_one() {
    let last = ResolvedSpan {
        begin: ResolvedPos { line: 0, column: 5 },
        end: ResolvedPos { line: 0, column: 9 },
    };
    let result = StringCompletionResult {
        value: "v".to_owned(),
        insert_text: None,
        insert_text_offset: u32::MAX as usize - 5,
        kind: CompletionItemKind::Text,
    };
    let mut results = vec![result];
    assert!(columns_are_in_range(&results, last));
    let items = string_completion_items(&results, last);
    assert_eq!(items[0].text_edit.as_ref().unwrap().range.start.character, u32::MAX);
    results[0].insert_text_offset += 1;
    assert!(!columns_are_in_range(&results, last));
    results[0].insert_text_offset = u32::MAX as usize + 1;
    assert!(columns_are_in_range(&results, last));
}

#[test]
fn the_types_that_can_be_written() {
    let items = type_completion_options();
    let labels: Vec<&str> = items.iter().map(|item| item.label.as_str()).collect();
    assert_eq!(labels, vec!["str", "int", "bool", "None", "float"]);
    for item in &items {
        assert_eq!(
            *item,
            CompletionItem::plain(item.label.clone(), CompletionItemKind::TypeParameter)
        );
    }
}
