//! Completion of the names in a `load`: what the loaded module exports.

use vstd::prelude::*;

use crate::item::{
    has_text, item_views, texts, CompletionItem, ItemView, ResolvedSpan, TextEdit, TextEditView,
};
use crate::loading::{can_load, load_module};
use crate::symbol::{exported_item, ExportedSymbol, ExportedView};

verus! {

/// The counterparts of each symbol.
pub open spec fn exported_views(symbols: Seq<ExportedSymbol>) -> Seq<ExportedView> {
    symbols.map_values(|symbol: ExportedSymbol| symbol@)
}

/// The symbols whose names are not among `loaded`.
pub open spec fn not_loaded(symbols: Seq<ExportedView>, loaded: Seq<Seq<char>>) -> Seq<
    ExportedView,
> {
    symbols.filter(|symbol: ExportedView| !loaded.contains(symbol.name))
}

/// The item for an exported symbol whose name is to stand in `span`.
pub open spec fn import_item(symbol: ExportedView, span: ResolvedSpan) -> ItemView {
    ItemView {
        text_edit: Some(TextEditView { range: span.spec_range(), new_text: symbol.name }),
        ..exported_item(symbol)
    }
}

/// The items for `symbols` but for those that are among `loaded`.
pub open spec fn import_items(
    symbols: Seq<ExportedView>,
    loaded: Seq<Seq<char>>,
    span: ResolvedSpan,
) -> Seq<ItemView> {
    not_loaded(symbols, loaded).map_values(|symbol: ExportedView| import_item(symbol, span))
}

/// The items for the symbols of a module, where it could be had.
pub open spec fn imports_of_loaded<E>(
    reply: Result<Option<Vec<ExportedSymbol>>, E>,
    loaded: Seq<Seq<char>>,
    span: ResolvedSpan,
) -> Seq<ItemView> {
    match reply {
        Ok(Some(symbols)) => import_items(exported_views(symbols@), loaded, span),
        _ => Seq::empty(),
    }
}

/// The items for `symbols` but for those that are among `previously_loaded`. Each puts the name
/// of its symbol in the place of `current_span`.
pub fn import_completion_items(
    symbols: &Vec<ExportedSymbol>,
    current_span: ResolvedSpan,
    previously_loaded: &[String],
) -> (r: Vec<CompletionItem>)
    ensures
        item_views(r@) == import_items(
            exported_views(symbols@),
            texts(previously_loaded@),
            current_span,
        ),
{
    let ghost all = exported_views(symbols@);
    let ghost loaded = texts(previously_loaded@);
    let ghost make = |symbol: ExportedView| import_item(symbol, current_span);
    let mut items: Vec<CompletionItem> = Vec::new();
    let mut i: usize = 0;
    proof {
        reveal(Seq::filter);
        assert(item_views(items@) =~= import_items(all.take(0), loaded, current_span));
    }
    while i < symbols.len()
        invariant
            i <= symbols@.len(),
            all == exported_views(symbols@),
            loaded == texts(previously_loaded@),
            make == (|symbol: ExportedView| import_item(symbol, current_span)),
            item_views(items@) == import_items(all.take(i as int), loaded, current_span),
        decreases symbols@.len() - i,
    {
        let ghost kept = not_loaded(all.take(i as int), loaded);
        let ghost before = items@;
        proof {
            reveal(Seq::filter);
            assert(all.take(i + 1).drop_last() =~= all.take(i as int));
            assert(all.take(i + 1).last() == symbols@[i as int]@);
        }
        if !has_text(previously_loaded, &symbols[i].name) {
            let mut item = symbols[i].completion_item();
            let edit = TextEdit { range: current_span.range(), new_text: item.label.clone() };
            item.text_edit = Some(edit);
            items.push(item);
            proof {
                let symbol = symbols@[i as int]@;
                assert(item@ == import_item(symbol, current_span));
                assert(not_loaded(all.take(i + 1), loaded) == kept.push(symbol));
                assert(kept.push(symbol).map_values(make) =~= kept.map_values(make).push(
                    import_item(symbol, current_span),
                ));
                assert(item_views(items@) =~= item_views(before).push(item@));
            }
        }
        i = i + 1;
    }
    assert(all.take(i as int) =~= all);
    items
}

/// The items for the names that can be loaded from `load_path`, but for those that are loaded
/// already: none, where the module cannot be had. Each puts its name in the place of
/// `current_span`. `fetch` gives the symbols that a module exports.
pub fn exported_symbol_options<
    U,
    E,
    R: Fn(&str) -> Result<U, E>,
    L: Fn(&U) -> Result<Option<Vec<ExportedSymbol>>, E>,
>(
    load_path: &str,
    current_span: ResolvedSpan,
    previously_loaded: &[String],
    resolve: &R,
    fetch: &L,
) -> (r: Vec<CompletionItem>)
    requires
        forall|p: &str| #[trigger] call_requires(*resolve, (p,)),
        forall|uri: &U| #[trigger] call_requires(*fetch, (uri,)),
    ensures
        exists|reply: Result<Option<Vec<ExportedSymbol>>, E>| #[trigger]
            can_load(load_path@, *resolve, *fetch, reply) && item_views(r@) == imports_of_loaded(
                reply,
                texts(previously_loaded@),
                current_span,
            ),
{
    let reply = load_module(load_path, resolve, fetch);
    let ghost outcome = reply;
    let items = match &reply {
        Ok(Some(symbols)) => import_completion_items(symbols, current_span, previously_loaded),
        _ => {
            let none: Vec<CompletionItem> = Vec::new();
            assert(item_views(none@) =~= Seq::<ItemView>::empty());
            none
        },
    };
    assert(can_load(load_path@, *resolve, *fetch, outcome));
    items
}

/// No name that is loaded already is offered again, every other symbol of the module is, and
/// what an item puts in the place of the name being typed is its label.
pub proof fn imports_are_the_names_not_loaded(
    symbols: Seq<ExportedView>,
    loaded: Seq<Seq<char>>,
    span: ResolvedSpan,
)
    ensures
        forall|i: int|
            0 <= i < import_items(symbols, loaded, span).len() ==> {
                let item = #[trigger] import_items(symbols, loaded, span)[i];
                &&& !loaded.contains(item.label)
                &&& item.text_edit == Some(
                    TextEditView { range: span.spec_range(), new_text: item.label },
                )
            },
        forall|j: int|
            0 <= j < symbols.len() && !loaded.contains((#[trigger] symbols[j]).name)
                ==> import_items(symbols, loaded, span).contains(import_item(symbols[j], span)),
{
    let kept = not_loaded(symbols, loaded);
    let items = import_items(symbols, loaded, span);
    let wanted = |symbol: ExportedView| !loaded.contains(symbol.name);
    assert forall|i: int| 0 <= i < items.len() implies {
        let item = #[trigger] items[i];
        &&& !loaded.contains(item.label)
        &&& item.text_edit == Some(
            TextEditView { range: span.spec_range(), new_text: item.label },
        )
    } by {
        symbols.lemma_filter_pred(wanted, i);
        assert(wanted(kept[i]));
        assert(items[i] == import_item(kept[i], span));
    }
    assert forall|j: int|
        0 <= j < symbols.len() && !loaded.contains(
            (#[trigger] symbols[j]).name,
        ) implies items.contains(import_item(symbols[j], span)) by {
        symbols.lemma_filter_contains(wanted, j);
        assert(kept.contains(symbols[j]));
        let k = choose|k: int| 0 <= k < kept.len() && kept[k] == symbols[j];
        assert(items[k] == import_item(symbols[j], span));
    }
}

/// Where nothing is loaded yet, every symbol of the module is offered, in its order. Each further
/// loaded name takes away the items with that label, and nothing else changes.
pub proof fn further_loaded_names_are_removed(
    symbols: Seq<ExportedView>,
    shorter: Seq<Seq<char>>,
    longer: Seq<Seq<char>>,
    span: ResolvedSpan,
)
    requires
        forall|name: Seq<char>| #[trigger] shorter.contains(name) ==> longer.contains(name),
    ensures
        import_items(symbols, Seq::empty(), span) == symbols.map_values(
            |symbol: ExportedView| import_item(symbol, span),
        ),
        import_items(symbols, longer, span) == import_items(symbols, shorter, span).filter(
            |item: ItemView| !longer.contains(item.label),
        ),
    decreases symbols.len(),
{
    reveal(Seq::filter);
    let nothing = Seq::<Seq<char>>::empty();
    let make = |symbol: ExportedView| import_item(symbol, span);
    let kept = |item: ItemView| !longer.contains(item.label);
    if symbols.len() > 0 {
        let rest = symbols.drop_last();
        let symbol = symbols.last();
        let item = make(symbol);
        further_loaded_names_are_removed(rest, shorter, longer, span);
        assert(not_loaded(symbols, nothing) == not_loaded(rest, nothing).push(symbol));
        assert(import_items(symbols, nothing, span) =~= import_items(rest, nothing, span).push(
            item,
        ));
        assert(symbols.map_values(make) =~= rest.map_values(make).push(item));
        if !longer.contains(symbol.name) {
            assert(not_loaded(symbols, longer) == not_loaded(rest, longer).push(symbol));
            assert(import_items(symbols, longer, span) =~= import_items(rest, longer, span).push(
                item,
            ));
        }
        if !shorter.contains(symbol.name) {
            let before = import_items(rest, shorter, span);
            assert(not_loaded(symbols, shorter) == not_loaded(rest, shorter).push(symbol));
            assert(import_items(symbols, shorter, span) =~= before.push(item));
            assert(before.push(item).drop_last() =~= before);
        }
    } else {
        assert(import_items(symbols, nothing, span) =~= symbols.map_values(make));
        assert(import_items(symbols, longer, span) =~= import_items(symbols, shorter, span).filter(
            kept,
        ));
    }
}

} // verus!
