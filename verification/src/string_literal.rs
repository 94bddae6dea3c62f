//! Completion within a string literal. What can stand there is for the host to say.

use vstd::prelude::*;

use crate::item::{
    copy_opt_text, item_views, opt_text, CompletionItem, CompletionItemKind, ItemView, Position,
    Range, ResolvedSpan, TextEdit, TextEditView,
};

verus! {

/// Where the string stands that is to be completed.
#[derive(Debug, Clone, Copy, PartialEq, Eq, Structural)]
pub enum StringCompletionType {
    /// It is the first argument of a `load`.
    LoadPath,
    /// It stands elsewhere.
    String,
}

/// One way to complete a string.
#[derive(Debug, Clone, PartialEq, Eq)]
pub struct StringCompletionResult {
    /// The completed value.
    pub value: String,
    /// The text to insert, if it is not the value.
    pub insert_text: Option<String>,
    /// Where to insert it, counted from the beginning of the string.
    pub insert_text_offset: usize,
    /// What kind of thing it is, for example a file or a folder.
    pub kind: CompletionItemKind,
}

/// The mathematical counterpart of [`StringCompletionResult`].
pub struct StringResultView {
    /// The completed value.
    pub value: Seq<char>,
    /// The text to insert, if it is not the value.
    pub insert_text: Option<Seq<char>>,
    /// Where to insert it, counted from the beginning of the string.
    pub insert_text_offset: usize,
    /// What kind of thing it is.
    pub kind: CompletionItemKind,
}

impl View for StringCompletionResult {
    type V = StringResultView;

    open spec fn view(&self) -> StringResultView {
        StringResultView {
            value: self.value@,
            insert_text: opt_text(self.insert_text),
            insert_text_offset: self.insert_text_offset,
            kind: self.kind,
        }
    }
}

/// The counterparts of each result.
pub open spec fn result_views(results: Seq<StringCompletionResult>) -> Seq<StringResultView> {
    results.map_values(|result: StringCompletionResult| result@)
}

/// Why an operation failed.
#[derive(Debug, Clone, PartialEq, Eq)]
pub enum LspOpError<C> {
    /// The host reported this error.
    FromContext(C),
}

/// The column at which a result is inserted into a string that begins at `span`.
pub open spec fn insert_column(result: StringResultView, span: ResolvedSpan) -> int {
    span.begin.column as u32 + result.insert_text_offset as u32
}

/// Whether each result is inserted at a column that the protocol has a number for.
pub open spec fn columns_fit(results: Seq<StringResultView>, span: ResolvedSpan) -> bool {
    forall|i: int|
        0 <= i < results.len() ==> insert_column(#[trigger] results[i], span) <= u32::MAX
}

/// The item for one result.
pub open spec fn string_item(result: StringResultView, span: ResolvedSpan) -> ItemView {
    ItemView {
        label: result.value,
        kind: Some(result.kind),
        detail: None,
        documentation: None,
        insert_text: result.insert_text,
        text_edit: Some(
            TextEditView {
                range: Range {
                    start: Position {
                        line: span.spec_range().start.line,
                        character: insert_column(result, span) as u32,
                    },
                    end: span.spec_range().end,
                },
                new_text: match result.insert_text {
                    Some(text) => text,
                    None => result.value,
                },
            },
        ),
    }
}

/// The items for results, in order.
pub open spec fn string_items(results: Seq<StringResultView>, span: ResolvedSpan) -> Seq<ItemView> {
    results.map_values(|result: StringResultView| string_item(result, span))
}

/// Whether each of `results` is inserted at a column that the protocol has a number for.
pub fn columns_are_in_range(
    results: &Vec<StringCompletionResult>,
    current_span: ResolvedSpan,
) -> (r: bool)
    ensures
        r == columns_fit(result_views(results@), current_span),
{
    let ghost all = result_views(results@);
    let begin: u32 = current_span.begin.column as u32;
    let mut i: usize = 0;
    while i < results.len()
        invariant
            i <= results@.len(),
            all == result_views(results@),
            begin == current_span.begin.column as u32,
            forall|j: int|
                0 <= j < i ==> insert_column(#[trigger] all[j], current_span) <= u32::MAX,
        decreases results@.len() - i,
    {
        let offset: u32 = results[i].insert_text_offset as u32;
        assert(insert_column(all[i as int], current_span) == begin + offset);
        if offset > u32::MAX - begin {
            return false;
        }
        i = i + 1;
    }
    true
}

/// The items for `results`, in order. Each replaces what is left of the string from the place
/// where it is to be inserted.
pub fn string_completion_items(
    results: &Vec<StringCompletionResult>,
    current_span: ResolvedSpan,
) -> (r: Vec<CompletionItem>)
    requires
        columns_fit(result_views(results@), current_span),
    ensures
        item_views(r@) == string_items(result_views(results@), current_span),
{
    let ghost all = result_views(results@);
    let mut items: Vec<CompletionItem> = Vec::new();
    let mut i: usize = 0;
    while i < results.len()
        invariant
            i <= results@.len(),
            all == result_views(results@),
            columns_fit(all, current_span),
            items@.len() == i,
            forall|j: int|
                0 <= j < i ==> (#[trigger] items@[j])@ == string_item(all[j], current_span),
        decreases results@.len() - i,
    {
        let result = &results[i];
        assert(all[i as int] == result@);
        let mut range = current_span.range();
        range.start.character = range.start.character + result.insert_text_offset as u32;
        let new_text = match &result.insert_text {
            Some(text) => text.clone(),
            None => result.value.clone(),
        };
        items.push(
            CompletionItem {
                label: result.value.clone(),
                kind: Some(result.kind),
                detail: None,
                documentation: None,
                insert_text: copy_opt_text(&result.insert_text),
                text_edit: Some(TextEdit { range, new_text }),
            },
        );
        i = i + 1;
    }
    assert(item_views(items@) =~= string_items(all, current_span));
    items
}

/// The items to offer for a string with the value `current_value` that stands in `current_span`.
/// `options` is the host's answer to what can stand there; [`columns_are_in_range`] tests what it
/// has to keep to.
pub fn string_completion_options<
    C,
    F: Fn(StringCompletionType, &str) -> Result<Vec<StringCompletionResult>, C>,
>(kind: StringCompletionType, current_value: &str, current_span: ResolvedSpan, options: &F) -> (r:
    Result<Vec<CompletionItem>, LspOpError<C>>)
    requires
        call_requires(*options, (kind, current_value)),
        forall|results: Vec<StringCompletionResult>| #[trigger]
            call_ensures(*options, (kind, current_value), Ok(results)) ==> columns_fit(
                result_views(results@),
                current_span,
            ),
    ensures
        exists|reply: Result<Vec<StringCompletionResult>, C>|
            {
                &&& #[trigger] call_ensures(*options, (kind, current_value), reply)
                &&& match reply {
                    Ok(results) => r matches Ok(items) && item_views(items@) == string_items(
                        result_views(results@),
                        current_span,
                    ),
                    Err(error) => r == Err::<Vec<CompletionItem>, LspOpError<C>>(
                        LspOpError::FromContext(error),
                    ),
                }
            },
{
    let reply = options(kind, current_value);
    let ghost outcome = reply;
    assert(call_ensures(*options, (kind, current_value), outcome));
    match reply {
        Ok(results) => Ok(string_completion_items(&results, current_span)),
        Err(error) => Err(LspOpError::FromContext(error)),
    }
}

} // verus!
