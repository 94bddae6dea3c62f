//! What the completion provider says of itself, and what it offers without looking at anything.

use vstd::prelude::*;

use crate::item::{item_views, plain_item, CompletionItem, CompletionItemKind, ItemView};

verus! {

/// What the server announces about completion.
#[derive(Debug, Clone, PartialEq, Eq)]
pub struct CompletionProvider {
    /// The characters that make an editor ask for completions when they are typed.
    pub trigger_characters: Option<Vec<String>>,
}

/// What the server announces about completion: besides names, a dot asks for completions.
pub fn completion_provider() -> (r: CompletionProvider)
    ensures
        r.trigger_characters matches Some(characters) && characters@.len() == 1 && characters@[0]@
            == "."@,
{
    let mut characters: Vec<String> = Vec::new();
    characters.push(".".to_owned());
    CompletionProvider { trigger_characters: Some(characters) }
}

/// The item for the type `name`.
pub open spec fn type_item(name: Seq<char>) -> ItemView {
    plain_item(name, CompletionItemKind::TypeParameter)
}

/// The items to offer where a type is to be written.
pub fn type_completion_options() -> (r: Vec<CompletionItem>)
    ensures
        item_views(r@) == seq![
            type_item("str"@),
            type_item("int"@),
            type_item("bool"@),
            type_item("None"@),
            type_item("float"@),
        ],
{
    let mut items: Vec<CompletionItem> = Vec::new();
    items.push(CompletionItem::plain("str".to_owned(), CompletionItemKind::TypeParameter));
    items.push(CompletionItem::plain("int".to_owned(), CompletionItemKind::TypeParameter));
    items.push(CompletionItem::plain("bool".to_owned(), CompletionItemKind::TypeParameter));
    items.push(CompletionItem::plain("None".to_owned(), CompletionItemKind::TypeParameter));
    items.push(CompletionItem::plain("float".to_owned(), CompletionItemKind::TypeParameter));
    assert(item_views(items@) =~= seq![
        type_item("str"@),
        type_item("int"@),
        type_item("bool"@),
        type_item("None"@),
        type_item("float"@),
    ]);
    items
}

} // verus!
