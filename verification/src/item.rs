//! The completion items that are offered to an editor, and the places in a text that they
//! speak of.

use vstd::prelude::*;

verus! {

/// The kind of a completion item, as the language server protocol lists them.
#[derive(Debug, Clone, Copy, PartialEq, Eq, Structural)]
pub enum CompletionItemKind {
    /// Plain text.
    Text,
    /// A method.
    Method,
    /// A function.
    Function,
    /// A constructor.
    Constructor,
    /// A field.
    Field,
    /// A variable.
    Variable,
    /// A class.
    Class,
    /// An interface.
    Interface,
    /// A module.
    Module,
    /// A property.
    Property,
    /// A unit of measurement.
    Unit,
    /// A value.
    Value,
    /// An enumeration.
    Enum,
    /// A keyword.
    Keyword,
    /// A snippet.
    Snippet,
    /// A colour.
    Color,
    /// A file.
    File,
    /// A reference.
    Reference,
    /// A folder.
    Folder,
    /// A member of an enumeration.
    EnumMember,
    /// A constant.
    Constant,
    /// A structure.
    Struct,
    /// An event.
    Event,
    /// An operator.
    Operator,
    /// A type parameter.
    TypeParameter,
}

/// How the text of a documentation is written.
#[derive(Debug, Clone, Copy, PartialEq, Eq, Structural)]
pub enum MarkupKind {
    /// As plain text.
    PlainText,
    /// In Markdown.
    Markdown,
}

/// A documentation text.
#[derive(Debug, Clone, PartialEq, Eq)]
pub struct MarkupContent {
    /// How `value` is written.
    pub kind: MarkupKind,
    /// The text.
    pub value: String,
}

/// The mathematical counterpart of [`MarkupContent`].
pub struct MarkupView {
    /// How `value` is written.
    pub kind: MarkupKind,
    /// The text.
    pub value: Seq<char>,
}

impl View for MarkupContent {
    type V = MarkupView;

    open spec fn view(&self) -> MarkupView {
        MarkupView { kind: self.kind, value: self.value@ }
    }
}

/// A place in a source text, with both numbers counted from zero.
#[derive(Debug, Clone, Copy, PartialEq, Eq, Structural)]
pub struct ResolvedPos {
    /// The line.
    pub line: usize,
    /// The column, in characters.
    pub column: usize,
}

/// A part of a source text.
#[derive(Debug, Clone, Copy, PartialEq, Eq, Structural)]
pub struct ResolvedSpan {
    /// Where it begins.
    pub begin: ResolvedPos,
    /// Where it ends.
    pub end: ResolvedPos,
}

/// A place in a document, as the protocol writes it.
#[derive(Debug, Clone, Copy, PartialEq, Eq, Structural)]
pub struct Position {
    /// The line.
    pub line: u32,
    /// The column.
    pub character: u32,
}

/// A part of a document, as the protocol writes it.
#[derive(Debug, Clone, Copy, PartialEq, Eq, Structural)]
pub struct Range {
    /// Where it begins.
    pub start: Position,
    /// Where it ends.
    pub end: Position,
}

/// A change to a document: `new_text` takes the place of what stands in `range`.
#[derive(Debug, Clone, PartialEq, Eq)]
pub struct TextEdit {
    /// What is replaced.
    pub range: Range,
    /// What replaces it.
    pub new_text: String,
}

/// The mathematical counterpart of [`TextEdit`].
pub struct TextEditView {
    /// What is replaced.
    pub range: Range,
    /// What replaces it.
    pub new_text: Seq<char>,
}

impl View for TextEdit {
    type V = TextEditView;

    open spec fn view(&self) -> TextEditView {
        TextEditView { range: self.range, new_text: self.new_text@ }
    }
}

/// One completion that is offered.
#[derive(Debug, Clone, PartialEq, Eq)]
pub struct CompletionItem {
    /// What is shown to the user.
    pub label: String,
    /// What kind of thing it is.
    pub kind: Option<CompletionItemKind>,
    /// A short remark about it.
    pub detail: Option<String>,
    /// Its documentation.
    pub documentation: Option<MarkupContent>,
    /// What is inserted, if it is not the label.
    pub insert_text: Option<String>,
    /// The change to make when it is chosen.
    pub text_edit: Option<TextEdit>,
}

/// The mathematical counterpart of [`CompletionItem`].
pub struct ItemView {
    /// What is shown to the user.
    pub label: Seq<char>,
    /// What kind of thing it is.
    pub kind: Option<CompletionItemKind>,
    /// A short remark about it.
    pub detail: Option<Seq<char>>,
    /// Its documentation.
    pub documentation: Option<MarkupView>,
    /// What is inserted, if it is not the label.
    pub insert_text: Option<Seq<char>>,
    /// The change to make when it is chosen.
    pub text_edit: Option<TextEditView>,
}

impl View for CompletionItem {
    type V = ItemView;

    open spec fn view(&self) -> ItemView {
        ItemView {
            label: self.label@,
            kind: self.kind,
            detail: opt_text(self.detail),
            documentation: match self.documentation {
                Some(markup) => Some(markup@),
                None => None,
            },
            insert_text: opt_text(self.insert_text),
            text_edit: match self.text_edit {
                Some(edit) => Some(edit@),
                None => None,
            },
        }
    }
}

/// The characters of an optional string.
pub open spec fn opt_text(text: Option<String>) -> Option<Seq<char>> {
    match text {
        Some(s) => Some(s@),
        None => None,
    }
}

/// The characters of each string.
pub open spec fn texts(strings: Seq<String>) -> Seq<Seq<char>> {
    strings.map_values(|s: String| s@)
}

/// The counterparts of each item.
pub open spec fn item_views(items: Seq<CompletionItem>) -> Seq<ItemView> {
    items.map_values(|item: CompletionItem| item@)
}

/// An item with nothing but a label and a kind.
pub open spec fn plain_item(label: Seq<char>, kind: CompletionItemKind) -> ItemView {
    ItemView {
        label,
        kind: Some(kind),
        detail: None,
        documentation: None,
        insert_text: None,
        text_edit: None,
    }
}

/// Documentation in Markdown.
pub open spec fn markdown_view(value: Seq<char>) -> MarkupView {
    MarkupView { kind: MarkupKind::Markdown, value }
}

impl MarkupContent {
    /// Documentation in Markdown.
    pub fn markdown(value: String) -> (r: MarkupContent)
        ensures
            r@ == markdown_view(value@),
    {
        MarkupContent { kind: MarkupKind::Markdown, value }
    }
}

impl CompletionItem {
    /// An item with nothing but a label and a kind.
    pub fn plain(label: String, kind: CompletionItemKind) -> (r: CompletionItem)
        ensures
            r@ == plain_item(label@, kind),
    {
        CompletionItem {
            label,
            kind: Some(kind),
            detail: None,
            documentation: None,
            insert_text: None,
            text_edit: None,
        }
    }
}

impl ResolvedSpan {
    /// The span as the protocol writes it. The protocol has 32 bits for each number.
    pub open spec fn spec_range(self) -> Range {
        Range {
            start: Position { line: self.begin.line as u32, character: self.begin.column as u32 },
            end: Position { line: self.end.line as u32, character: self.end.column as u32 },
        }
    }

    /// The span as the protocol writes it, each number cut to the 32 bits that the protocol has.
    pub fn range(self) -> (r: Range)
        ensures
            r == self.spec_range(),
    {
        Range {
            start: Position { line: self.begin.line as u32, character: self.begin.column as u32 },
            end: Position { line: self.end.line as u32, character: self.end.column as u32 },
        }
    }
}

/// A copy of an optional string.
pub(crate) fn copy_opt_text(text: &Option<String>) -> (r: Option<String>)
    ensures
        opt_text(r) == opt_text(*text),
{
    match text {
        Some(s) => Some(s.clone()),
        None => None,
    }
}

/// A copy of each string.
pub(crate) fn copy_texts(strings: &Vec<String>) -> (r: Vec<String>)
    ensures
        texts(r@) == texts(strings@),
{
    let mut copies: Vec<String> = Vec::new();
    let mut i: usize = 0;
    while i < strings.len()
        invariant
            i <= strings@.len(),
            copies@.len() == i,
            forall|j: int| 0 <= j < i ==> #[trigger] copies@[j]@ == strings@[j]@,
        decreases strings@.len() - i,
    {
        copies.push(strings[i].clone());
        i = i + 1;
    }
    assert(texts(copies@) =~= texts(strings@));
    copies
}

/// Whether `strings` hold `wanted`.
pub(crate) fn has_text(strings: &[String], wanted: &String) -> (r: bool)
    ensures
        r == texts(strings@).contains(wanted@),
{
    let mut i: usize = 0;
    while i < strings.len()
        invariant
            i <= strings@.len(),
            forall|j: int| 0 <= j < i ==> #[trigger] strings@[j]@ != wanted@,
        decreases strings@.len() - i,
    {
        if strings[i] == *wanted {
            assert(texts(strings@)[i as int] == wanted@);
            return true;
        }
        i = i + 1;
    }
    assert forall|j: int| 0 <= j < texts(strings@).len() implies texts(strings@)[j] != wanted@ by {
        assert(strings@[j]@ != wanted@);
    }
    false
}

} // verus!
