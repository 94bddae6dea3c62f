//! Completion where nothing more special applies: the symbols in sight, those that other
//! documents export, the global ones and the keywords.

use vstd::prelude::*;

use crate::item::{has_text, texts, CompletionItem, ItemView, ResolvedPos, ResolvedSpan};
use crate::module::{LoadEdits, LspModule};
use crate::parameter::symbol_named;
use crate::symbol::{symbol_item, Symbol, SymbolView};
use crate::syntax::LoadSite;

verus! {

/// One thing that is offered.
#[derive(Debug, Clone, PartialEq, Eq)]
pub enum Offer<I> {
    /// A symbol of the document.
    Symbol(CompletionItem),
    /// An item that the host made; it is passed on as it is.
    Host(I),
}

/// The mathematical counterpart of [`Offer`].
pub enum OfferView<I> {
    /// A symbol of the document.
    Symbol(ItemView),
    /// An item that the host made.
    Host(I),
}

impl<I> View for Offer<I> {
    type V = OfferView<I>;

    open spec fn view(&self) -> OfferView<I> {
        match self {
            Offer::Symbol(item) => OfferView::Symbol(item@),
            Offer::Host(item) => OfferView::Host(*item),
        }
    }
}

/// The counterparts of each offer.
pub open spec fn offer_views<I>(offers: Seq<Offer<I>>) -> Seq<OfferView<I>> {
    offers.map_values(|offer: Offer<I>| offer@)
}

/// What is offered under each name, in the order in which the names came up.
pub struct SymbolTable<I> {
    keys: Vec<String>,
    offers: Vec<Offer<I>>,
}

/// The mathematical counterpart of [`SymbolTable`]: `offers[i]` is offered under `keys[i]`.
pub struct TableView<I> {
    /// The names.
    pub keys: Seq<Seq<char>>,
    /// What is offered under each of them.
    pub offers: Seq<OfferView<I>>,
}

impl<I> View for SymbolTable<I> {
    type V = TableView<I>;

    closed spec fn view(&self) -> TableView<I> {
        TableView { keys: texts(self.keys@), offers: offer_views(self.offers@) }
    }
}

impl<I> TableView<I> {
    /// A table without entries.
    pub open spec fn empty() -> TableView<I> {
        TableView { keys: Seq::empty(), offers: Seq::empty() }
    }

    /// A table has one offer for each name, and no name twice.
    pub open spec fn well_formed(self) -> bool {
        &&& self.keys.len() == self.offers.len()
        &&& self.keys.no_duplicates()
    }

    /// The table with `offer` under `key`, in place of what was there.
    pub open spec fn insert(self, key: Seq<char>, offer: OfferView<I>) -> TableView<I> {
        if self.keys.contains(key) {
            TableView {
                keys: self.keys,
                offers: Seq::new(
                    self.offers.len(),
                    |i: int|
                        if self.keys[i] == key {
                            offer
                        } else {
                            self.offers[i]
                        },
                ),
            }
        } else {
            TableView { keys: self.keys.push(key), offers: self.offers.push(offer) }
        }
    }

    /// What is offered under `key`.
    pub open spec fn get(self, key: Seq<char>) -> Option<OfferView<I>> {
        if self.keys.contains(key) {
            Some(self.offers[self.keys.index_of(key)])
        } else {
            None
        }
    }

    /// The table with the items of `symbols` put in, one after the other.
    pub open spec fn insert_symbols(self, symbols: Seq<(Seq<char>, SymbolView)>) -> TableView<I>
        decreases symbols.len(),
    {
        if symbols.len() == 0 {
            self
        } else {
            let (key, symbol) = symbols.last();
            self.insert_symbols(symbols.drop_last()).insert(
                key,
                OfferView::Symbol(symbol_item(symbol)),
            )
        }
    }

    /// The table with `items` put in, one after the other.
    pub open spec fn insert_hosts(self, items: Seq<(Seq<char>, I)>) -> TableView<I>
        decreases items.len(),
    {
        if items.len() == 0 {
            self
        } else {
            let (key, item) = items.last();
            self.insert_hosts(items.drop_last()).insert(key, OfferView::Host(item))
        }
    }
}

/// The counterparts of symbols with their keys.
pub open spec fn keyed_symbols(symbols: Seq<(String, Symbol)>) -> Seq<(Seq<char>, SymbolView)> {
    symbols.map_values(|entry: (String, Symbol)| (entry.0@, entry.1@))
}

/// The counterparts of items with their labels.
pub open spec fn keyed_items<I>(items: Seq<(String, I)>) -> Seq<(Seq<char>, I)> {
    items.map_values(|entry: (String, I)| (entry.0@, entry.1))
}

/// Items of the host, each as an offer.
pub open spec fn host_offers<I>(items: Seq<I>) -> Seq<OfferView<I>> {
    items.map_values(|item: I| OfferView::Host(item))
}

impl<I> SymbolTable<I> {
    /// A table without entries.
    pub fn new() -> (r: SymbolTable<I>)
        ensures
            r@ == TableView::<I>::empty(),
            r@.well_formed(),
    {
        let table = SymbolTable { keys: Vec::new(), offers: Vec::new() };
        assert(table@.keys =~= Seq::<Seq<char>>::empty());
        assert(table@.offers =~= Seq::<OfferView<I>>::empty());
        table
    }

    /// Puts `offer` under `key`, in place of what was there.
    pub fn insert(&mut self, key: String, offer: Offer<I>)
        requires
            old(self)@.well_formed(),
        ensures
            final(self)@ == old(self)@.insert(key@, offer@),
            final(self)@.well_formed(),
    {
        let ghost before = self@;
        let mut i: usize = 0;
        while i < self.keys.len()
            invariant
                self@ == before,
                before == old(self)@,
                before.well_formed(),
                i <= self.keys@.len(),
                forall|j: int| 0 <= j < i ==> before.keys[j] != key@,
            decreases self.keys@.len() - i,
        {
            assert(before.keys[i as int] == self.keys@[i as int]@);
            if self.keys[i] == key {
                self.offers.set(i, offer);
                assert(before.keys.contains(key@));
                assert(self@.offers =~= before.insert(key@, offer@).offers);
                return;
            }
            i = i + 1;
        }
        assert(!before.keys.contains(key@));
        self.keys.push(key);
        self.offers.push(offer);
        assert(self@.keys =~= before.keys.push(key@));
        assert(self@.offers =~= before.offers.push(offer@));
    }

    /// Whether something is offered under `key`.
    pub fn contains_key(&self, key: &str) -> (r: bool)
        ensures
            r == self@.keys.contains(key@),
    {
        let wanted: String = key.to_owned();
        has_text(self.keys.as_slice(), &wanted)
    }
}

/// What is offered in `document` at some place: `symbols` are in sight there, `exported` are the
/// items for symbols of other documents, `globals` and `keywords` those for what is always there.
pub open spec fn default_offers<I>(
    symbols: Seq<(Seq<char>, SymbolView)>,
    exported: Seq<(Seq<char>, I)>,
    globals: Seq<I>,
    keywords: Seq<I>,
) -> Seq<OfferView<I>> {
    TableView::empty().insert_symbols(symbols).insert_hosts(exported).offers + host_offers(globals)
        + host_offers(keywords)
}

/// Whether `exported` can be what the host finds in other documents, where `symbols` are in sight
/// in `document`. The host is told to leave out this document, what is in sight in it, and what
/// makes the changes to it that load a symbol: `edit`, told of the document's own `load`
/// statements. With no other document open, it is not asked.
pub open spec fn can_export<
    D,
    I,
    T,
    W: Fn(&str, &str, &LspModule, Option<ResolvedSpan>, Option<&LoadSite>) -> T,
    X: Fn(Option<&D>, &SymbolTable<I>, &D, &LoadEdits<W>) -> Vec<(String, I)>,
>(
    symbols: Seq<(Seq<char>, SymbolView)>,
    document_uri: D,
    document: LspModule,
    open_documents: usize,
    exported_symbols: X,
    edit: W,
    exported: Seq<(Seq<char>, I)>,
) -> bool {
    if open_documents > 1 {
        exists|table: SymbolTable<I>, edits: LoadEdits<W>, found: Vec<(String, I)>|
            {
                &&& table@ == TableView::<I>::empty().insert_symbols(symbols)
                &&& table@.well_formed()
                &&& *edits.document == document
                &&& *edits.edit == edit
                &&& #[trigger] call_ensures(
                    exported_symbols,
                    (Some(&document_uri), &table, &document_uri, &edits),
                    found,
                )
                &&& exported == keyed_items(found@)
            }
    } else {
        exported == Seq::<(Seq<char>, I)>::empty()
    }
}

/// The table of the items for `symbols`.
pub fn table_of_symbols<I>(symbols: &Vec<(String, Symbol)>) -> (r: SymbolTable<I>)
    ensures
        r@ == TableView::<I>::empty().insert_symbols(keyed_symbols(symbols@)),
        r@.well_formed(),
{
    let ghost all = keyed_symbols(symbols@);
    let mut table: SymbolTable<I> = SymbolTable::new();
    let mut i: usize = 0;
    while i < symbols.len()
        invariant
            i <= symbols@.len(),
            all == keyed_symbols(symbols@),
            table@.well_formed(),
            table@ == TableView::<I>::empty().insert_symbols(all.take(i as int)),
        decreases symbols@.len() - i,
    {
        assert(all.take(i + 1).drop_last() =~= all.take(i as int));
        assert(all.take(i + 1).last() == all[i as int]);
        let item = symbols[i].1.completion_item();
        table.insert(symbols[i].0.clone(), Offer::Symbol(item));
        i = i + 1;
    }
    assert(all.take(i as int) =~= all);
    table
}

/// Puts `items` into `table`, one after the other, each under its label.
pub fn extend_table<I>(table: &mut SymbolTable<I>, items: Vec<(String, I)>)
    requires
        old(table)@.well_formed(),
    ensures
        final(table)@ == old(table)@.insert_hosts(keyed_items(items@)),
        final(table)@.well_formed(),
{
    let ghost all = keyed_items(items@);
    let ghost before = table@;
    for entry in iter: items
        invariant
            all == keyed_items(iter.seq()),
            before == old(table)@,
            table@.well_formed(),
            table@ == before.insert_hosts(all.take(iter.index() as int)),
    {
        let ghost n = iter.index() as int;
        assert(all.take(n + 1).drop_last() =~= all.take(n));
        assert(all.take(n + 1).last() == all[n]);
        let (key, item) = entry;
        table.insert(key, Offer::Host(item));
    }
    assert(all.take(all.len() as int) =~= all);
}

/// What is offered once everything is known: `table` holds the symbols in sight, with those of
/// other documents.
fn offers_of_table<I>(table: SymbolTable<I>, globals: Vec<I>, keywords: Vec<I>) -> (r: Vec<
    Offer<I>,
>)
    ensures
        offer_views(r@) == table@.offers + host_offers(globals@) + host_offers(keywords@),
{
    let mut offers = table.offers;
    push_hosts(&mut offers, globals);
    push_hosts(&mut offers, keywords);
    offers
}

/// Puts `items` behind `offers`.
fn push_hosts<I>(offers: &mut Vec<Offer<I>>, items: Vec<I>)
    ensures
        offer_views(final(offers)@) == offer_views(old(offers)@) + host_offers(items@),
{
    let ghost before = offer_views(offers@);
    let ghost all = host_offers(items@);
    assert(before + all.take(0) =~= before);
    for item in iter: items
        invariant
            all == host_offers(iter.seq()),
            before == offer_views(old(offers)@),
            offer_views(offers@) == before + all.take(iter.index() as int),
    {
        let ghost n = iter.index() as int;
        let ghost offers0 = offers@;
        offers.push(Offer::Host(item));
        assert(offer_views(offers@) =~= offer_views(offers0).push(all[n]));
        assert(all.take(n + 1) =~= all.take(n).push(all[n]));
        assert(before + all.take(n + 1) =~= (before + all.take(n)).push(all[n]));
    }
    assert(all.take(all.len() as int) =~= all);
}

/// The offers at line `line`, column `character` of `document`, where nothing more special
/// applies. The symbols in sight come first; those that other documents export take the place of
/// a symbol of the same name. The global symbols and the keywords follow.
///
/// `symbols_at` gives the symbols that are in sight at a place, each with its name;
/// `exported_symbols` gives the items for what other documents export, each with its label. It is
/// told which document to leave out, what is in sight already, for which document it is asked, and
/// what makes the changes to that document that load a symbol. It is asked only where another
/// document is open besides this one. `edit` makes one such change, as [`LoadEdits`] says.
pub fn default_completion_options<
    D,
    I,
    T,
    S: Fn(ResolvedPos) -> Vec<(String, Symbol)>,
    W: Fn(&str, &str, &LspModule, Option<ResolvedSpan>, Option<&LoadSite>) -> T,
    X: Fn(Option<&D>, &SymbolTable<I>, &D, &LoadEdits<W>) -> Vec<(String, I)>,
>(
    document_uri: &D,
    document: &LspModule,
    line: u32,
    character: u32,
    open_documents: usize,
    symbols_at: &S,
    exported_symbols: &X,
    edit: &W,
    globals: Vec<I>,
    keywords: Vec<I>,
) -> (r: Vec<Offer<I>>)
    requires
        forall|pos: ResolvedPos| #[trigger] call_requires(*symbols_at, (pos,)),
        forall|table: &SymbolTable<I>, edits: &LoadEdits<W>|
            table@.well_formed() && *edits.document == *document && *edits.edit == *edit
                ==> #[trigger] call_requires(
                *exported_symbols,
                (Some(document_uri), table, document_uri, edits),
            ),
    ensures
        exists|symbols: Vec<(String, Symbol)>, exported: Seq<(Seq<char>, I)>|
            {
                &&& call_ensures(
                    *symbols_at,
                    (ResolvedPos { line: line as usize, column: character as usize },),
                    symbols,
                )
                &&& #[trigger] can_export(
                    keyed_symbols(symbols@),
                    *document_uri,
                    *document,
                    open_documents,
                    *exported_symbols,
                    *edit,
                    exported,
                )
                &&& offer_views(r@) == default_offers(
                    keyed_symbols(symbols@),
                    exported,
                    globals@,
                    keywords@,
                )
            },
{
    let cursor = ResolvedPos { line: line as usize, column: character as usize };
    let symbols = symbols_at(cursor);
    let mut table: SymbolTable<I> = table_of_symbols(&symbols);
    let ghost in_sight = table;
    let ghost mut exported: Seq<(Seq<char>, I)> = Seq::empty();
    if open_documents > 1 {
        let edits = LoadEdits { document, edit };
        let found = exported_symbols(Some(document_uri), &table, document_uri, &edits);
        proof {
            exported = keyed_items(found@);
            assert(call_ensures(
                *exported_symbols,
                (Some(document_uri), &in_sight, document_uri, &edits),
                found,
            ));
        }
        extend_table(&mut table, found);
    }
    let offers = offers_of_table(table, globals, keywords);
    assert(can_export(
        keyed_symbols(symbols@),
        *document_uri,
        *document,
        open_documents,
        *exported_symbols,
        *edit,
        exported,
    ));
    offers
}

/// A table behaves like a map: what was put under a name is found under it, and nothing else
/// changes. It stays well-formed.
pub proof fn insert_then_get<I>(
    table: TableView<I>,
    key: Seq<char>,
    offer: OfferView<I>,
    other: Seq<char>,
)
    requires
        table.well_formed(),
    ensures
        table.insert(key, offer).well_formed(),
        table.insert(key, offer).get(other) == if other == key {
            Some(offer)
        } else {
            table.get(other)
        },
{
    let after = table.insert(key, offer);
    if table.keys.contains(key) {
        if table.keys.contains(other) {
            let i = table.keys.index_of(other);
            assert(0 <= i < table.keys.len() && table.keys[i] == other);
        }
    } else {
        assert(after.keys.no_duplicates()) by {
            assert forall|i: int, j: int|
                0 <= i < after.keys.len() && 0 <= j < after.keys.len() && i
                    != j implies after.keys[i] != after.keys[j] by {
                if i == table.keys.len() {
                    assert(table.keys.contains(after.keys[j]));
                } else if j == table.keys.len() {
                    assert(table.keys.contains(after.keys[i]));
                }
            }
        }
        if other == key {
            assert(after.keys[table.keys.len() as int] == key);
            assert(after.keys.contains(key));
            let i = after.keys.index_of(key);
            assert(0 <= i < after.keys.len() && after.keys[i] == key);
            assert(i == table.keys.len());
        } else if table.keys.contains(other) {
            let i = table.keys.index_of(other);
            assert(0 <= i < table.keys.len() && table.keys[i] == other);
            assert(after.keys[i] == other);
            assert(after.keys.contains(other));
            let j = after.keys.index_of(other);
            assert(0 <= j < after.keys.len() && after.keys[j] == other);
            assert(i == j);
        } else {
            if after.keys.contains(other) {
                let j = choose|j: int| 0 <= j < after.keys.len() && after.keys[j] == other;
                assert(j < table.keys.len());
                assert(table.keys[j] == other);
            }
        }
    }
}

/// The last of `items` with this label.
pub open spec fn last_labelled<I>(items: Seq<(Seq<char>, I)>, label: Seq<char>) -> Option<I>
    decreases items.len(),
{
    if items.len() == 0 {
        None
    } else if items.last().0 == label {
        Some(items.last().1)
    } else {
        last_labelled(items.drop_last(), label)
    }
}

/// Each symbol in sight is offered, under its name and once.
pub proof fn symbols_in_sight_are_offered<I>(symbols: Seq<(Seq<char>, SymbolView)>, key: Seq<char>)
    ensures
        TableView::<I>::empty().insert_symbols(symbols).well_formed(),
        TableView::<I>::empty().insert_symbols(symbols).get(key) == (match symbol_named(
            symbols,
            key,
        ) {
            Some(symbol) => Some(OfferView::<I>::Symbol(symbol_item(symbol))),
            None => None,
        }),
    decreases symbols.len(),
{
    if symbols.len() > 0 {
        let (last, symbol) = symbols.last();
        symbols_in_sight_are_offered::<I>(symbols.drop_last(), key);
        insert_then_get(
            TableView::<I>::empty().insert_symbols(symbols.drop_last()),
            last,
            OfferView::Symbol(symbol_item(symbol)),
            key,
        );
    }
}

/// A symbol of another document is offered in place of a symbol in sight of the same name; what
/// has another name stays. No name is offered twice.
pub proof fn exported_symbols_take_precedence<I>(
    table: TableView<I>,
    exported: Seq<(Seq<char>, I)>,
    key: Seq<char>,
)
    requires
        table.well_formed(),
    ensures
        table.insert_hosts(exported).well_formed(),
        table.insert_hosts(exported).get(key) == (match last_labelled(exported, key) {
            Some(item) => Some(OfferView::Host(item)),
            None => table.get(key),
        }),
    decreases exported.len(),
{
    if exported.len() > 0 {
        let (label, item) = exported.last();
        exported_symbols_take_precedence(table, exported.drop_last(), key);
        insert_then_get(
            table.insert_hosts(exported.drop_last()),
            label,
            OfferView::Host(item),
            key,
        );
    }
}

/// The global symbols and the keywords are always offered, behind everything else.
pub proof fn globals_and_keywords_follow<I>(
    symbols: Seq<(Seq<char>, SymbolView)>,
    exported: Seq<(Seq<char>, I)>,
    globals: Seq<I>,
    keywords: Seq<I>,
)
    ensures
        ({
            let offers = default_offers(symbols, exported, globals, keywords);
            let count = offers.len() - globals.len() - keywords.len();
            &&& count >= 0
            &&& offers.skip(count) == host_offers(globals) + host_offers(keywords)
            &&& offers.take(count) == TableView::empty().insert_symbols(symbols).insert_hosts(
                exported,
            ).offers
        }),
{
    let table = TableView::empty().insert_symbols(symbols).insert_hosts(exported).offers;
    let offers = default_offers(symbols, exported, globals, keywords);
    let count = offers.len() - globals.len() - keywords.len();
    assert(count == table.len());
    assert(offers.skip(count) =~= host_offers(globals) + host_offers(keywords));
    assert(offers.take(count) =~= table);
}

} // verus!
