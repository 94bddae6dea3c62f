//! The symbols that completion speaks of: those that are visible at a place in a document, and
//! those that a module exports.

use starlark::docs::{DocItem, DocParam};
use vstd::prelude::*;

use crate::docs::{render_item, render_param, rendered_item, rendered_param};
use crate::item::{
    copy_opt_text, copy_texts, markdown_view, opt_text, texts, CompletionItem, CompletionItemKind,
    ItemView, MarkupContent, MarkupView,
};
use crate::syntax::{opt_texts, Value, ValueView};

verus! {

/// What an exported symbol is.
#[derive(Debug, Clone, PartialEq, Eq)]
pub enum ExportedSymbolKind {
    /// Some value.
    Any,
    /// A function.
    Function {
        /// The names of its parameters, in order.
        argument_names: Vec<String>,
    },
}

/// The mathematical counterpart of [`ExportedSymbolKind`].
pub enum KindView {
    /// Some value.
    Any,
    /// A function.
    Function {
        /// The names of its parameters, in order.
        argument_names: Seq<Seq<char>>,
    },
}

impl View for ExportedSymbolKind {
    type V = KindView;

    open spec fn view(&self) -> KindView {
        match self {
            ExportedSymbolKind::Any => KindView::Any,
            ExportedSymbolKind::Function { argument_names } => KindView::Function {
                argument_names: texts(argument_names@),
            },
        }
    }
}

/// The names among `parameters`, in order: what has no name is left out.
pub open spec fn named_parameters(parameters: Seq<Option<Seq<char>>>) -> Seq<Seq<char>>
    decreases parameters.len(),
{
    if parameters.len() == 0 {
        Seq::empty()
    } else {
        let before = named_parameters(parameters.drop_last());
        match parameters.last() {
            Some(name) => before.push(name),
            None => before,
        }
    }
}

/// What a symbol is that is bound to `value`.
pub open spec fn kind_of_value(value: ValueView) -> KindView {
    match value {
        ValueView::Lambda { parameters } => KindView::Function {
            argument_names: named_parameters(parameters),
        },
        _ => KindView::Any,
    }
}

/// The kind of completion item for a symbol.
pub open spec fn completion_kind(kind: KindView) -> CompletionItemKind {
    match kind {
        KindView::Any => CompletionItemKind::Constant,
        KindView::Function { .. } => CompletionItemKind::Function,
    }
}

/// The names of `parameters`, in order.
pub(crate) fn collect_names(parameters: &Vec<Option<String>>) -> (r: Vec<String>)
    ensures
        texts(r@) == named_parameters(opt_texts(parameters@)),
{
    let ghost all = opt_texts(parameters@);
    let mut names: Vec<String> = Vec::new();
    let mut i: usize = 0;
    assert(texts(names@) =~= Seq::<Seq<char>>::empty());
    while i < parameters.len()
        invariant
            i <= parameters@.len(),
            all == opt_texts(parameters@),
            texts(names@) == named_parameters(all.take(i as int)),
        decreases parameters@.len() - i,
    {
        assert(all.take(i + 1).drop_last() =~= all.take(i as int));
        assert(all.take(i + 1).last() == all[i as int]);
        match &parameters[i] {
            Some(name) => {
                let ghost before = names@;
                names.push(name.clone());
                assert(texts(names@) =~= texts(before).push(name@));
            },
            None => {},
        }
        i = i + 1;
    }
    assert(all.take(i as int) =~= all);
    names
}

impl ExportedSymbolKind {
    /// What a symbol is that is bound to `value`: a function where it is a lambda.
    pub fn from_expr(value: &Value) -> (r: ExportedSymbolKind)
        ensures
            r@ == kind_of_value(value@),
    {
        match value {
            Value::Lambda { parameters } => ExportedSymbolKind::Function {
                argument_names: collect_names(parameters),
            },
            _ => ExportedSymbolKind::Any,
        }
    }

    /// The kind of completion item for such a symbol.
    pub fn completion_kind(&self) -> (r: CompletionItemKind)
        ensures
            r == completion_kind(self@),
    {
        match self {
            ExportedSymbolKind::Any => CompletionItemKind::Constant,
            ExportedSymbolKind::Function { .. } => CompletionItemKind::Function,
        }
    }
}

/// The documentation that an item shows under `name`.
pub open spec fn item_documentation(name: Seq<char>, docs: Option<DocItem>) -> Option<MarkupView> {
    match docs {
        Some(docs) => Some(markdown_view(rendered_item(name, docs))),
        None => None,
    }
}

/// Renders the documentation of a symbol, for an item that shows it under `name`.
pub(crate) fn render_documentation(name: &str, docs: Option<&DocItem>) -> (r: Option<MarkupContent>)
    ensures
        (match r {
            Some(markup) => Some(markup@),
            None => None,
        }) == item_documentation(
            name@,
            match docs {
                Some(docs) => Some(*docs),
                None => None,
            },
        ),
{
    match docs {
        Some(docs) => Some(MarkupContent::markdown(render_item(name, docs))),
        None => None,
    }
}

/// A copy of a kind.
pub(crate) fn copy_kind(kind: &ExportedSymbolKind) -> (r: ExportedSymbolKind)
    ensures
        r@ == kind@,
{
    match kind {
        ExportedSymbolKind::Any => ExportedSymbolKind::Any,
        ExportedSymbolKind::Function { argument_names } => ExportedSymbolKind::Function {
            argument_names: copy_texts(argument_names),
        },
    }
}

/// What a symbol in sight is.
#[derive(Debug, Clone, Copy, PartialEq, Eq, Structural)]
pub enum SymbolKind {
    /// A function.
    Method,
    /// A variable.
    Variable,
}

/// A symbol that is in sight at some place of a document.
#[derive(Debug, Clone, PartialEq)]
pub struct Symbol {
    /// Its name.
    pub name: String,
    /// A short remark about it.
    pub detail: Option<String>,
    /// What it is.
    pub kind: SymbolKind,
    /// Its documentation.
    pub doc: Option<DocItem>,
    /// For a parameter: its name with the stars in front of it, and its documentation.
    pub param: Option<(String, DocParam)>,
}

/// The mathematical counterpart of [`Symbol`].
pub struct SymbolView {
    /// Its name.
    pub name: Seq<char>,
    /// A short remark about it.
    pub detail: Option<Seq<char>>,
    /// What it is.
    pub kind: SymbolKind,
    /// Its documentation.
    pub doc: Option<DocItem>,
    /// For a parameter: its name with the stars in front of it, and its documentation.
    pub param: Option<(Seq<char>, DocParam)>,
}

impl View for Symbol {
    type V = SymbolView;

    open spec fn view(&self) -> SymbolView {
        SymbolView {
            name: self.name@,
            detail: opt_text(self.detail),
            kind: self.kind,
            doc: self.doc,
            param: match self.param {
                Some((starred_name, docs)) => Some((starred_name@, docs)),
                None => None,
            },
        }
    }
}

/// The documentation of a symbol in sight: its own or, where it has none, that of the parameter
/// that it is.
pub open spec fn symbol_documentation(symbol: SymbolView) -> Option<MarkupView> {
    match symbol.doc {
        Some(docs) => Some(markdown_view(rendered_item(symbol.name, docs))),
        None => match symbol.param {
            Some((starred_name, docs)) => Some(
                markdown_view(rendered_param(starred_name, docs)),
            ),
            None => None,
        },
    }
}

/// The item for a symbol in sight.
pub open spec fn symbol_item(symbol: SymbolView) -> ItemView {
    ItemView {
        label: symbol.name,
        kind: Some(
            match symbol.kind {
                SymbolKind::Method => CompletionItemKind::Method,
                SymbolKind::Variable => CompletionItemKind::Variable,
            },
        ),
        detail: symbol.detail,
        documentation: symbol_documentation(symbol),
        insert_text: None,
        text_edit: None,
    }
}

impl Symbol {
    /// The item for the symbol.
    pub fn completion_item(&self) -> (r: CompletionItem)
        ensures
            r@ == symbol_item(self@),
    {
        let kind = match self.kind {
            SymbolKind::Method => CompletionItemKind::Method,
            SymbolKind::Variable => CompletionItemKind::Variable,
        };
        let documentation = match &self.doc {
            Some(docs) => Some(MarkupContent::markdown(render_item(self.name.as_str(), docs))),
            None => match &self.param {
                Some((starred_name, docs)) => Some(
                    MarkupContent::markdown(render_param(starred_name.clone(), docs)),
                ),
                None => None,
            },
        };
        CompletionItem {
            label: self.name.clone(),
            kind: Some(kind),
            detail: copy_opt_text(&self.detail),
            documentation,
            insert_text: None,
            text_edit: None,
        }
    }
}

/// A symbol that a module exports.
#[derive(Debug, Clone, PartialEq)]
pub struct ExportedSymbol {
    /// Its name.
    pub name: String,
    /// What it is.
    pub kind: ExportedSymbolKind,
    /// Its documentation.
    pub docs: Option<DocItem>,
}

/// The mathematical counterpart of [`ExportedSymbol`].
pub struct ExportedView {
    /// Its name.
    pub name: Seq<char>,
    /// What it is.
    pub kind: KindView,
    /// Its documentation.
    pub docs: Option<DocItem>,
}

impl View for ExportedSymbol {
    type V = ExportedView;

    open spec fn view(&self) -> ExportedView {
        ExportedView { name: self.name@, kind: self.kind@, docs: self.docs }
    }
}

/// The item for an exported symbol.
pub open spec fn exported_item(symbol: ExportedView) -> ItemView {
    ItemView {
        label: symbol.name,
        kind: Some(completion_kind(symbol.kind)),
        detail: None,
        documentation: item_documentation(symbol.name, symbol.docs),
        insert_text: None,
        text_edit: None,
    }
}

impl ExportedSymbol {
    /// The item for the symbol.
    pub fn completion_item(&self) -> (r: CompletionItem)
        ensures
            r@ == exported_item(self@),
    {
        CompletionItem {
            label: self.name.clone(),
            kind: Some(self.kind.completion_kind()),
            detail: None,
            documentation: render_documentation(self.name.as_str(), self.docs.as_ref()),
            insert_text: None,
            text_edit: None,
        }
    }
}

} // verus!
