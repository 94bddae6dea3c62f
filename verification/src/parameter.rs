//! Completion of parameter names in a call.

use starlark::docs::{DocItem, DocModule};
use vstd::prelude::*;

use crate::default::keyed_symbols;
use crate::definition::{Definition, IdentifierDefinition};
use crate::docs::{function_parameters, members, module_members, regular_parameters};
use crate::item::{
    has_text, item_views, plain_item, texts, CompletionItem, CompletionItemKind, ItemView,
    ResolvedPos, ResolvedSpan,
};
use crate::loading::{can_load, load_module};
use crate::symbol::{
    ExportedSymbol, ExportedSymbolKind, ExportedView, KindView, Symbol, SymbolKind, SymbolView,
};

verus! {

/// The items for parameters with these names, in order.
pub open spec fn parameter_items(names: Seq<Seq<char>>) -> Seq<ItemView> {
    names.map_values(|name: Seq<char>| plain_item(name, CompletionItemKind::Property))
}

/// The names that are not among `used`, in order.
pub open spec fn unused_names(names: Seq<Seq<char>>, used: Seq<Seq<char>>) -> Seq<Seq<char>> {
    names.filter(|name: Seq<char>| !used.contains(name))
}

/// The symbol that has the key `name`. Where several have, the last one counts.
pub open spec fn symbol_named(symbols: Seq<(Seq<char>, SymbolView)>, name: Seq<char>) -> Option<
    SymbolView,
>
    decreases symbols.len(),
{
    if symbols.len() == 0 {
        None
    } else if symbols.last().0 == name {
        Some(symbols.last().1)
    } else {
        symbol_named(symbols.drop_last(), name)
    }
}

/// The parameters to offer for a call of `name`, where `symbols` are in sight at its definition
/// and `used` are given in the call already; `None` where it is no documented function.
pub open spec fn local_parameters(
    symbols: Seq<(Seq<char>, SymbolView)>,
    name: Seq<char>,
    used: Seq<Seq<char>>,
) -> Option<Seq<ItemView>> {
    match symbol_named(symbols, name) {
        Some(SymbolView { kind: SymbolKind::Method, doc: Some(docs), .. }) => {
            match function_parameters(docs) {
                Some(names) => Some(parameter_items(unused_names(names, used))),
                None => None,
            }
        },
        _ => None,
    }
}

/// The parameters to offer for a call of a symbol that another module exports; `None` where it is
/// no function.
pub open spec fn exported_parameters(symbol: Option<ExportedView>) -> Option<Seq<ItemView>> {
    match symbol {
        Some(ExportedView { kind: KindView::Function { argument_names }, .. }) => Some(
            parameter_items(argument_names),
        ),
        _ => None,
    }
}

/// What is documented under `name` first.
pub open spec fn member_named(members: Seq<(Seq<char>, DocItem)>, name: Seq<char>) -> Option<
    DocItem,
>
    decreases members.len(),
{
    if members.len() == 0 {
        None
    } else if members[0].0 == name {
        Some(members[0].1)
    } else {
        member_named(members.drop_first(), name)
    }
}

/// The parameters to offer for a call of the global `name`, where `members` are the global
/// symbols; `None` where it is no function.
pub open spec fn global_parameters(members: Seq<(Seq<char>, DocItem)>, name: Seq<char>) -> Option<
    Seq<ItemView>,
> {
    match member_named(members, name) {
        Some(docs) => match function_parameters(docs) {
            Some(names) => Some(parameter_items(names)),
            None => None,
        },
        None => None,
    }
}

/// The counterparts of optional items.
pub open spec fn opt_items(items: Option<Vec<CompletionItem>>) -> Option<Seq<ItemView>> {
    match items {
        Some(items) => Some(item_views(items@)),
        None => None,
    }
}

/// The counterpart of an optional symbol.
pub open spec fn opt_exported(symbol: Option<ExportedSymbol>) -> Option<ExportedView> {
    match symbol {
        Some(symbol) => Some(symbol@),
        None => None,
    }
}

/// The counterparts of documented names.
pub open spec fn member_views(entries: Seq<(String, DocItem)>) -> Seq<(Seq<char>, DocItem)> {
    entries.map_values(|entry: (String, DocItem)| (entry.0@, entry.1))
}

/// The items for parameters with these names, in order.
pub fn items_of_parameters(names: &Vec<String>) -> (r: Vec<CompletionItem>)
    ensures
        item_views(r@) == parameter_items(texts(names@)),
{
    let mut items: Vec<CompletionItem> = Vec::new();
    let mut i: usize = 0;
    while i < names.len()
        invariant
            i <= names@.len(),
            items@.len() == i,
            forall|j: int|
                0 <= j < i ==> (#[trigger] items@[j])@ == plain_item(
                    names@[j]@,
                    CompletionItemKind::Property,
                ),
        decreases names@.len() - i,
    {
        items.push(CompletionItem::plain(names[i].clone(), CompletionItemKind::Property));
        i = i + 1;
    }
    assert(item_views(items@) =~= parameter_items(texts(names@)));
    items
}

/// The names that are not among `used`, in order.
pub fn drop_used(names: &Vec<String>, used: &[String]) -> (r: Vec<String>)
    ensures
        texts(r@) == unused_names(texts(names@), texts(used@)),
{
    let ghost all = texts(names@);
    let mut kept: Vec<String> = Vec::new();
    let mut i: usize = 0;
    proof {
        reveal(Seq::filter);
        assert(texts(kept@) =~= unused_names(all.take(0), texts(used@)));
    }
    while i < names.len()
        invariant
            i <= names@.len(),
            all == texts(names@),
            texts(kept@) == unused_names(all.take(i as int), texts(used@)),
        decreases names@.len() - i,
    {
        let ghost before = kept@;
        proof {
            reveal(Seq::filter);
            assert(all.take(i + 1).drop_last() =~= all.take(i as int));
            assert(all.take(i + 1).last() == names@[i as int]@);
        }
        if !has_text(used, &names[i]) {
            kept.push(names[i].clone());
            assert(texts(kept@) =~= texts(before).push(names@[i as int]@));
        }
        i = i + 1;
    }
    assert(all.take(i as int) =~= all);
    kept
}

/// The parameters to offer for a call of `name`, where `symbols` are in sight at its definition
/// and `used` are given in the call already; `None` where it is no documented function.
pub fn local_parameter_items(
    symbols: &Vec<(String, Symbol)>,
    name: &str,
    used: &[String],
) -> (r: Option<Vec<CompletionItem>>)
    ensures
        opt_items(r) == local_parameters(keyed_symbols(symbols@), name@, texts(used@)),
{
    let ghost all = keyed_symbols(symbols@);
    let wanted: String = name.to_owned();
    let mut i: usize = symbols.len();
    assert(all.take(i as int) =~= all);
    while i > 0
        invariant
            i <= symbols@.len(),
            all == keyed_symbols(symbols@),
            wanted@ == name@,
            symbol_named(all, name@) == symbol_named(all.take(i as int), name@),
        decreases i,
    {
        assert(all.take(i as int).last() == all[i - 1]);
        assert(all.take(i as int).drop_last() =~= all.take(i - 1));
        i = i - 1;
        if symbols[i].0 == wanted {
            let symbol = &symbols[i].1;
            assert(symbol_named(all, name@) == Some(symbol@));
            return match (symbol.kind, &symbol.doc) {
                (SymbolKind::Method, Some(docs)) => match regular_parameters(docs) {
                    Some(names) => Some(items_of_parameters(&drop_used(&names, used))),
                    None => None,
                },
                _ => None,
            };
        }
    }
    None
}

/// The parameters to offer for a call of a symbol that another module exports; `None` where it is
/// no function.
pub fn exported_parameter_items(symbol: &Option<ExportedSymbol>) -> (r: Option<Vec<CompletionItem>>)
    ensures
        opt_items(r) == exported_parameters(opt_exported(*symbol)),
{
    match symbol {
        Some(symbol) => match &symbol.kind {
            ExportedSymbolKind::Any => None,
            ExportedSymbolKind::Function { argument_names } => Some(
                items_of_parameters(argument_names),
            ),
        },
        None => None,
    }
}

/// The parameters to offer for a call of the global `name`, where `entries` are the global
/// symbols; `None` where it is no function.
pub fn global_parameter_items(entries: &Vec<(String, DocItem)>, name: &str) -> (r: Option<
    Vec<CompletionItem>,
>)
    ensures
        opt_items(r) == global_parameters(member_views(entries@), name@),
{
    let ghost all = member_views(entries@);
    let wanted: String = name.to_owned();
    let mut i: usize = 0;
    assert(all.skip(0) =~= all);
    while i < entries.len()
        invariant
            i <= entries@.len(),
            all == member_views(entries@),
            wanted@ == name@,
            member_named(all, name@) == member_named(all.skip(i as int), name@),
        decreases entries@.len() - i,
    {
        assert(all.skip(i as int)[0] == all[i as int]);
        assert(all.skip(i as int).drop_first() =~= all.skip(i + 1));
        if entries[i].0 == wanted {
            assert(member_named(all, name@) == Some(entries@[i as int].1));
            return match regular_parameters(&entries[i].1) {
                Some(names) => Some(items_of_parameters(&names)),
                None => None,
            };
        }
        i = i + 1;
    }
    None
}

/// Whether `outcome` can be the result of asking for the parameters of what `definition` is.
///
/// For something that the document defines, the symbols in sight at its definition decide; for
/// something loaded, the symbol that the other module exports under its name; for anything else
/// that has a name, the global symbols. What is left are no functions.
pub open spec fn can_have_parameters<
    U,
    M,
    E,
    S: Fn(ResolvedPos) -> Vec<(String, Symbol)>,
    R: Fn(&str) -> Result<U, E>,
    L: Fn(&U) -> Result<Option<M>, E>,
    X: Fn(&M, &str) -> Option<ExportedSymbol>,
    G: Fn() -> DocModule,
>(
    definition: IdentifierDefinition,
    used: Seq<Seq<char>>,
    symbols_at: S,
    resolve: R,
    fetch: L,
    exported_symbol: X,
    environment: G,
    outcome: Result<Option<Seq<ItemView>>, E>,
) -> bool {
    match definition {
        IdentifierDefinition::Location { destination, name } => exists|
            symbols: Vec<(String, Symbol)>,
        |
            {
                &&& #[trigger] call_ensures(symbols_at, (destination.begin,), symbols)
                &&& outcome == Ok::<_, E>(local_parameters(keyed_symbols(symbols@), name@, used))
            },
        IdentifierDefinition::LoadedLocation { path, name } => exists|reply: Result<Option<M>, E>|
            {
                &&& #[trigger] can_load(path@, resolve, fetch, reply)
                &&& match reply {
                    Ok(Some(module)) => exists|asked: &str, symbol: Option<ExportedSymbol>|
                        {
                            &&& asked@ == name@
                            &&& #[trigger] call_ensures(exported_symbol, (&module, asked), symbol)
                            &&& outcome == Ok::<_, E>(exported_parameters(opt_exported(symbol)))
                        },
                    Ok(None) => outcome == Ok::<Option<Seq<ItemView>>, E>(None),
                    Err(error) => outcome == Err::<Option<Seq<ItemView>>, E>(error),
                }
            },
        IdentifierDefinition::Unresolved { name } => exists|globals: DocModule|
            {
                &&& #[trigger] call_ensures(environment, (), globals)
                &&& outcome == Ok::<_, E>(global_parameters(module_members(globals), name@))
            },
        _ => outcome == Ok::<Option<Seq<ItemView>>, E>(None),
    }
}

/// The counterpart of an outcome.
pub open spec fn outcome_view<E>(outcome: Result<Option<Vec<CompletionItem>>, E>) -> Result<
    Option<Seq<ItemView>>,
    E,
> {
    match outcome {
        Ok(items) => Ok(opt_items(items)),
        Err(error) => Err(error),
    }
}

/// The parameters to offer for a call of what `identifier_definition` is; `None` where it is no
/// function, and an error where the module that it is loaded from could not be had.
///
/// Parameters that the call gives already are left out for a function of the same document.
///
/// The other arguments are the host's: which symbols are in sight at a place, how a path is
/// resolved and a module fetched, which symbol a module exports under a name, and which global
/// symbols there are.
pub fn parameter_name_options_for_identifier_definition<
    U,
    M,
    E,
    S: Fn(ResolvedPos) -> Vec<(String, Symbol)>,
    R: Fn(&str) -> Result<U, E>,
    L: Fn(&U) -> Result<Option<M>, E>,
    X: Fn(&M, &str) -> Option<ExportedSymbol>,
    G: Fn() -> DocModule,
>(
    identifier_definition: &IdentifierDefinition,
    previously_used_named_parameters: &[String],
    symbols_at: &S,
    resolve: &R,
    fetch: &L,
    exported_symbol: &X,
    environment: &G,
) -> (r: Result<Option<Vec<CompletionItem>>, E>)
    requires
        forall|pos: ResolvedPos| #[trigger] call_requires(*symbols_at, (pos,)),
        forall|p: &str| #[trigger] call_requires(*resolve, (p,)),
        forall|uri: &U| #[trigger] call_requires(*fetch, (uri,)),
        forall|module: &M, name: &str| #[trigger] call_requires(*exported_symbol, (module, name)),
        call_requires(*environment, ()),
    ensures
        can_have_parameters(
            *identifier_definition,
            texts(previously_used_named_parameters@),
            *symbols_at,
            *resolve,
            *fetch,
            *exported_symbol,
            *environment,
            outcome_view(r),
        ),
{
    match identifier_definition {
        IdentifierDefinition::Location { destination, name } => {
            let symbols = symbols_at(destination.begin);
            Ok(local_parameter_items(&symbols, name.as_str(), previously_used_named_parameters))
        },
        IdentifierDefinition::LoadedLocation { path, name } => {
            let reply = load_module(path.as_str(), resolve, fetch);
            let ghost outcome = reply;
            assert(can_load(path@, *resolve, *fetch, outcome));
            match reply {
                Ok(Some(module)) => {
                    let symbol = exported_symbol(&module, name.as_str());
                    Ok(exported_parameter_items(&symbol))
                },
                Ok(None) => Ok(None),
                Err(error) => Err(error),
            }
        },
        IdentifierDefinition::Unresolved { name } => {
            let globals = environment();
            let entries = members(globals);
            assert(member_views(entries@) == module_members(globals));
            Ok(global_parameter_items(&entries, name.as_str()))
        },
        IdentifierDefinition::LoadPath
        | IdentifierDefinition::StringLiteral
        | IdentifierDefinition::NotFound => Ok(None),
    }
}

/// The parameters to offer in a call of the function whose name stands in `function_name_span`:
/// none, where it is no function or cannot be had. Of a dotted name the first part decides.
/// `definition_at` gives what stands at a line and column of the document; the other arguments
/// are those of [`parameter_name_options_for_identifier_definition`].
pub fn parameter_name_options<
    U,
    M,
    E,
    D: Fn(u32, u32) -> Definition,
    S: Fn(ResolvedPos) -> Vec<(String, Symbol)>,
    R: Fn(&str) -> Result<U, E>,
    L: Fn(&U) -> Result<Option<M>, E>,
    X: Fn(&M, &str) -> Option<ExportedSymbol>,
    G: Fn() -> DocModule,
>(
    function_name_span: &ResolvedSpan,
    previously_used_named_parameters: &[String],
    definition_at: &D,
    symbols_at: &S,
    resolve: &R,
    fetch: &L,
    exported_symbol: &X,
    environment: &G,
) -> (r: Vec<CompletionItem>)
    requires
        forall|line: u32, column: u32| #[trigger] call_requires(*definition_at, (line, column)),
        forall|pos: ResolvedPos| #[trigger] call_requires(*symbols_at, (pos,)),
        forall|p: &str| #[trigger] call_requires(*resolve, (p,)),
        forall|uri: &U| #[trigger] call_requires(*fetch, (uri,)),
        forall|module: &M, name: &str| #[trigger] call_requires(*exported_symbol, (module, name)),
        call_requires(*environment, ()),
    ensures
        exists|definition: Definition, outcome: Result<Option<Seq<ItemView>>, E>|
            {
                &&& call_ensures(
                    *definition_at,
                    (
                        function_name_span.begin.line as u32,
                        function_name_span.begin.column as u32,
                    ),
                    definition,
                )
                &&& #[trigger] can_have_parameters(
                    definition.spec_root(),
                    texts(previously_used_named_parameters@),
                    *symbols_at,
                    *resolve,
                    *fetch,
                    *exported_symbol,
                    *environment,
                    outcome,
                )
                &&& item_views(r@) == (match outcome {
                    Ok(Some(items)) => items,
                    _ => Seq::empty(),
                })
            },
{
    let definition = definition_at(
        function_name_span.begin.line as u32,
        function_name_span.begin.column as u32,
    );
    let options = parameter_name_options_for_identifier_definition(
        definition.root(),
        previously_used_named_parameters,
        symbols_at,
        resolve,
        fetch,
        exported_symbol,
        environment,
    );
    let ghost outcome = outcome_view(options);
    let items = match options {
        Ok(Some(items)) => items,
        _ => {
            let none: Vec<CompletionItem> = Vec::new();
            assert(item_views(none@) =~= Seq::<ItemView>::empty());
            none
        },
    };
    assert(can_have_parameters(
        definition.spec_root(),
        texts(previously_used_named_parameters@),
        *symbols_at,
        *resolve,
        *fetch,
        *exported_symbol,
        *environment,
        outcome,
    ));
    items
}

/// In a call of a function of the same document, no parameter that is given already is offered
/// again. Where none is given yet, all are offered, in order; each further one that is given takes
/// away the items with that label, and nothing else changes.
pub proof fn given_parameters_are_not_offered(
    symbols: Seq<(Seq<char>, SymbolView)>,
    name: Seq<char>,
    shorter: Seq<Seq<char>>,
    longer: Seq<Seq<char>>,
)
    requires
        forall|used: Seq<char>| #[trigger] shorter.contains(used) ==> longer.contains(used),
    ensures
        local_parameters(symbols, name, longer) matches Some(items) ==> forall|i: int|
            0 <= i < items.len() ==> !longer.contains((#[trigger] items[i]).label),
        local_parameters(symbols, name, Seq::empty()) matches Some(all) ==> {
            &&& function_parameters(symbol_named(symbols, name)->0.doc->0) matches Some(names)
            &&& all == parameter_items(names)
        },
        match local_parameters(symbols, name, shorter) {
            Some(all) => local_parameters(symbols, name, longer) == Some(
                all.filter(|item: ItemView| !longer.contains(item.label)),
            ),
            None => local_parameters(symbols, name, longer) is None,
        },
{
    if local_parameters(symbols, name, longer) is Some {
        let names = function_parameters(symbol_named(symbols, name)->0.doc->0)->0;
        let wanted = |n: Seq<char>| !longer.contains(n);
        let items = local_parameters(symbols, name, longer)->0;
        assert forall|i: int| 0 <= i < items.len() implies !longer.contains(
            (#[trigger] items[i]).label,
        ) by {
            names.lemma_filter_pred(wanted, i);
            assert(wanted(unused_names(names, longer)[i]));
        }
        lemma_nothing_used(names);
        lemma_unused_items(names, shorter, longer);
    }
}

proof fn lemma_nothing_used(names: Seq<Seq<char>>)
    ensures
        unused_names(names, Seq::empty()) == names,
    decreases names.len(),
{
    reveal(Seq::filter);
    if names.len() > 0 {
        lemma_nothing_used(names.drop_last());
        assert(names.drop_last().push(names.last()) =~= names);
    } else {
        assert(unused_names(names, Seq::empty()) =~= names);
    }
}

proof fn lemma_unused_items(
    names: Seq<Seq<char>>,
    shorter: Seq<Seq<char>>,
    longer: Seq<Seq<char>>,
)
    requires
        forall|used: Seq<char>| #[trigger] shorter.contains(used) ==> longer.contains(used),
    ensures
        parameter_items(unused_names(names, longer)) == parameter_items(
            unused_names(names, shorter),
        ).filter(|item: ItemView| !longer.contains(item.label)),
    decreases names.len(),
{
    reveal(Seq::filter);
    let kept = |item: ItemView| !longer.contains(item.label);
    if names.len() > 0 {
        let rest = names.drop_last();
        let name = names.last();
        let item = plain_item(name, CompletionItemKind::Property);
        lemma_unused_items(rest, shorter, longer);
        if !longer.contains(name) {
            assert(unused_names(names, longer) == unused_names(rest, longer).push(name));
            assert(parameter_items(unused_names(names, longer)) =~= parameter_items(
                unused_names(rest, longer),
            ).push(item));
        }
        if !shorter.contains(name) {
            let before = parameter_items(unused_names(rest, shorter));
            assert(unused_names(names, shorter) == unused_names(rest, shorter).push(name));
            assert(parameter_items(unused_names(names, shorter)) =~= before.push(item));
            assert(before.push(item).drop_last() =~= before);
        }
    } else {
        assert(parameter_items(unused_names(names, longer)) =~= parameter_items(
            unused_names(names, shorter),
        ).filter(kept));
    }
}

} // verus!
