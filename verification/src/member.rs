//! Completion behind a dot: the fields of a loaded `struct`.

use starlark::docs::{DocFunction, DocItem};
use vstd::prelude::*;
use vstd::string::*;

use crate::docs::{function_item, function_parameters, item_of_function};
use crate::dot::{dot_context, scan_dot_context, DotContext, DotView};
use crate::item::{
    copy_texts, has_text, item_views, opt_text, CompletionItem, CompletionItemKind, ItemView,
};
use crate::loading::{can_load, load_module};
use crate::module::{LspModule, ModuleView, Statement, StatementView};
use crate::symbol::{
    completion_kind, copy_kind, item_documentation, render_documentation, ExportedSymbolKind,
    KindView,
};
use crate::syntax::{load_args, Argument, ArgumentView, LoadArg, LoadArgView, Value, ValueView};

verus! {

/// The documentation of a function, as that of a symbol.
pub open spec fn function_docs(docs: Option<DocFunction>) -> Option<DocItem> {
    match docs {
        Some(function) => Some(function_item(function)),
        None => None,
    }
}

/// What `statement` binds `name` to, and how that is documented; `None` where it does not bind
/// it.
pub open spec fn binding(statement: StatementView, name: Seq<char>) -> Option<
    (KindView, Option<DocItem>),
> {
    match statement {
        StatementView::Def { name: defined, argument_names, docs } => if defined == name {
            Some((KindView::Function { argument_names }, function_docs(docs)))
        } else {
            None
        },
        StatementView::Assign { names, kind, .. } => if names.contains(name) {
            Some((kind, None))
        } else {
            None
        },
        _ => None,
    }
}

/// What the first of `statements` that binds `name` binds it to.
pub open spec fn top_level_symbol(statements: Seq<StatementView>, name: Seq<char>) -> Option<
    (KindView, Option<DocItem>),
>
    decreases statements.len(),
{
    if statements.len() == 0 {
        None
    } else {
        match binding(statements[0], name) {
            Some(found) => Some(found),
            None => top_level_symbol(statements.drop_first(), name),
        }
    }
}

/// The arguments of `root = struct(...)`, where `statement` is that.
pub open spec fn struct_arguments(statement: StatementView, root: Seq<char>) -> Option<
    Seq<ArgumentView>,
> {
    match statement {
        StatementView::Assign {
            target: Some(target),
            value: ValueView::Call { function: Some(function), arguments },
            ..
        } => if target == root && function == "struct"@ {
            Some(arguments)
        } else {
            None
        },
        _ => None,
    }
}

/// The arguments of the first of `statements` that is `root = struct(...)`.
pub open spec fn find_struct(statements: Seq<StatementView>, root: Seq<char>) -> Option<
    Seq<ArgumentView>,
>
    decreases statements.len(),
{
    if statements.len() == 0 {
        None
    } else {
        match struct_arguments(statements[0], root) {
            Some(arguments) => Some(arguments),
            None => find_struct(statements.drop_first(), root),
        }
    }
}

/// The item for `field = value` in a module with these statements. Where the value is an
/// identifier that a top-level statement binds, the item has the kind and the documentation of
/// what it is bound to.
pub open spec fn field_item(
    statements: Seq<StatementView>,
    field: Seq<char>,
    identifier: Option<Seq<char>>,
) -> ItemView {
    let referenced = match identifier {
        Some(name) => top_level_symbol(statements, name),
        None => None,
    };
    ItemView {
        label: field,
        kind: Some(
            match referenced {
                Some((kind, _)) => completion_kind(kind),
                None => CompletionItemKind::Field,
            },
        ),
        detail: None,
        documentation: match referenced {
            Some((_, docs)) => item_documentation(field, docs),
            None => None,
        },
        insert_text: None,
        text_edit: None,
    }
}

/// The items for the named arguments among `arguments`, in order.
pub open spec fn field_items(
    statements: Seq<StatementView>,
    arguments: Seq<ArgumentView>,
) -> Seq<ItemView>
    decreases arguments.len(),
{
    if arguments.len() == 0 {
        Seq::empty()
    } else {
        let before = field_items(statements, arguments.drop_last());
        match arguments.last() {
            ArgumentView::Named { field, identifier } => before.push(
                field_item(statements, field, identifier),
            ),
            ArgumentView::Other => before,
        }
    }
}

/// The items for the fields of `root` in `module`.
pub open spec fn struct_items(module: ModuleView, root: Seq<char>) -> Seq<ItemView> {
    match find_struct(module.statements, root) {
        Some(arguments) => field_items(module.statements, arguments),
        None => Seq::empty(),
    }
}

/// What the top-level symbol `name` of `module` is, and how it is documented.
///
/// Names that begin with an underscore count like any other: the fields of a struct often refer
/// to such helpers (`render = _render`).
pub fn top_level_symbol_kind_and_docs(module: &LspModule, name: &str) -> (r: Option<
    (ExportedSymbolKind, Option<DocItem>),
>)
    ensures
        top_level_symbol(module@.statements, name@) == (match r {
            Some((kind, docs)) => Some((kind@, docs)),
            None => None,
        }),
        r matches Some((kind, Some(docs))) ==> kind is Function && function_parameters(
            docs,
        ) is Some,
{
    let ghost all = module@.statements;
    let wanted: String = name.to_owned();
    let mut i: usize = 0;
    assert(all.skip(0) =~= all);
    while i < module.statements.len()
        invariant
            i <= module.statements@.len(),
            all == module@.statements,
            wanted@ == name@,
            top_level_symbol(all, name@) == top_level_symbol(all.skip(i as int), name@),
        decreases module.statements@.len() - i,
    {
        assert(all.skip(i as int)[0] == module.statements@[i as int]@);
        assert(all.skip(i as int).drop_first() =~= all.skip(i + 1));
        match &module.statements[i] {
            Statement::Def { name: defined, argument_names, docs } => {
                if *defined == wanted {
                    let kind = ExportedSymbolKind::Function {
                        argument_names: copy_texts(argument_names),
                    };
                    let docs = match docs {
                        Some(function) => Some(item_of_function(function)),
                        None => None,
                    };
                    return Some((kind, docs));
                }
            },
            Statement::Assign { names, kind, .. } => {
                if has_text(names.as_slice(), &wanted) {
                    return Some((copy_kind(kind), None));
                }
            },
            _ => {},
        }
        i = i + 1;
    }
    None
}

/// The items for the fields of a top-level `root = struct(field = value, ...)` in `module`, in
/// the order in which they are written.
///
/// Where the value of a field is an identifier that names a top-level symbol (the
/// `render = _render` idiom), the item has the kind and the documentation of that symbol.
pub fn struct_field_completion_items(module: &LspModule, root: &str) -> (r: Vec<CompletionItem>)
    ensures
        item_views(r@) == struct_items(module@, root@),
{
    let ghost all = module@.statements;
    let wanted: String = root.to_owned();
    let constructor: String = "struct".to_owned();
    let mut i: usize = 0;
    assert(all.skip(0) =~= all);
    while i < module.statements.len()
        invariant
            i <= module.statements@.len(),
            all == module@.statements,
            wanted@ == root@,
            constructor@ == "struct"@,
            find_struct(all, root@) == find_struct(all.skip(i as int), root@),
        decreases module.statements@.len() - i,
    {
        assert(all.skip(i as int)[0] == module.statements@[i as int]@);
        assert(all.skip(i as int).drop_first() =~= all.skip(i + 1));
        if let Statement::Assign {
            target: Some(target),
            value: Value::Call { function: Some(function), arguments },
            ..
        } = &module.statements[i] {
            if *target == wanted && *function == constructor {
                return items_of_fields(module, arguments);
            }
        }
        i = i + 1;
    }
    let none: Vec<CompletionItem> = Vec::new();
    assert(item_views(none@) =~= Seq::<ItemView>::empty());
    none
}

/// The items for the named arguments among `arguments`, in order.
fn items_of_fields(module: &LspModule, arguments: &Vec<Argument>) -> (r: Vec<CompletionItem>)
    ensures
        item_views(r@) == field_items(
            module@.statements,
            arguments@.map_values(|argument: Argument| argument@),
        ),
{
    let ghost all = arguments@.map_values(|argument: Argument| argument@);
    let mut items: Vec<CompletionItem> = Vec::new();
    let mut i: usize = 0;
    assert(item_views(items@) =~= Seq::<ItemView>::empty());
    while i < arguments.len()
        invariant
            i <= arguments@.len(),
            all == arguments@.map_values(|argument: Argument| argument@),
            item_views(items@) == field_items(module@.statements, all.take(i as int)),
        decreases arguments@.len() - i,
    {
        assert(all.take(i + 1).drop_last() =~= all.take(i as int));
        assert(all.take(i + 1).last() == arguments@[i as int]@);
        if let Argument::Named { field, identifier } = &arguments[i] {
            let ghost before = items@;
            let item = item_of_field(module, field, identifier);
            items.push(item);
            assert(item_views(items@) =~= item_views(before).push(item@));
        }
        i = i + 1;
    }
    assert(all.take(i as int) =~= all);
    items
}

/// The item for `field = value`.
fn item_of_field(module: &LspModule, field: &String, identifier: &Option<String>) -> (r:
    CompletionItem)
    ensures
        r@ == field_item(module@.statements, field@, opt_text(*identifier)),
{
    let referenced = match identifier {
        Some(name) => top_level_symbol_kind_and_docs(module, name.as_str()),
        None => None,
    };
    let (kind, documentation) = match referenced {
        Some((kind, docs)) => (
            kind.completion_kind(),
            render_documentation(field.as_str(), docs.as_ref()),
        ),
        None => (CompletionItemKind::Field, None),
    };
    CompletionItem {
        label: field.clone(),
        kind: Some(kind),
        detail: None,
        documentation,
        insert_text: None,
        text_edit: None,
    }
}

/// The name that the first of `args` that binds `local` loads.
pub open spec fn loaded_name(args: Seq<LoadArgView>, local: Seq<char>) -> Option<Seq<char>>
    decreases args.len(),
{
    if args.len() == 0 {
        None
    } else if args[0].local == local {
        Some(args[0].their)
    } else {
        loaded_name(args.drop_first(), local)
    }
}

/// What a symbol is loaded from.
pub struct LoadTarget {
    /// The path of the module.
    pub path: Seq<char>,
    /// The name that the symbol has there.
    pub name: Seq<char>,
}

/// What `statement` loads `local` from; `None` where it does not load it.
pub open spec fn load_target(statement: StatementView, local: Seq<char>) -> Option<LoadTarget> {
    match statement {
        StatementView::Load { module, args } => match loaded_name(args, local) {
            Some(name) => Some(LoadTarget { path: module, name }),
            None => None,
        },
        _ => None,
    }
}

/// What the first of `statements` that loads `local` loads it from.
pub open spec fn find_load(statements: Seq<StatementView>, local: Seq<char>) -> Option<LoadTarget>
    decreases statements.len(),
{
    if statements.len() == 0 {
        None
    } else {
        match load_target(statements[0], local) {
            Some(target) => Some(target),
            None => find_load(statements.drop_first(), local),
        }
    }
}

/// The members to offer for a symbol that has the name `remote` in the loaded module.
pub open spec fn members_of_loaded<E>(
    reply: Result<Option<LspModule>, E>,
    remote: Seq<char>,
) -> Seq<ItemView> {
    match reply {
        Ok(Some(module)) => struct_items(module@, remote),
        _ => Seq::empty(),
    }
}

/// Whether `items` can be offered behind `root.` in `document`.
pub open spec fn can_offer_members<
    U,
    E,
    R: Fn(&str) -> Result<U, E>,
    L: Fn(&U) -> Result<Option<LspModule>, E>,
>(document: ModuleView, root: Seq<char>, resolve: R, fetch: L, items: Seq<ItemView>) -> bool {
    match find_load(document.statements, root) {
        Some(target) => exists|reply: Result<Option<LspModule>, E>| #[trigger]
            can_load(target.path, resolve, fetch, reply) && items == members_of_loaded(
                reply,
                target.name,
            ),
        None => items == Seq::<ItemView>::empty(),
    }
}

/// The path of the module that `root` is loaded from by `document`, and the name that it has
/// there: `load("m", h = "helpers")` binds the local `h` to the remote `helpers`.
///
/// Loads are matched by name and not by place: a place in the latest text may not fit the last
/// state of the document that could be parsed, but names do.
pub fn load_of_symbol(document: &LspModule, root: &str) -> (r: Option<(String, String)>)
    ensures
        find_load(document@.statements, root@) == (match r {
            Some((path, remote)) => Some(LoadTarget { path: path@, name: remote@ }),
            None => None,
        }),
{
    let ghost all = document@.statements;
    let wanted: String = root.to_owned();
    let mut i: usize = 0;
    assert(all.skip(0) =~= all);
    while i < document.statements.len()
        invariant
            i <= document.statements@.len(),
            all == document@.statements,
            wanted@ == root@,
            find_load(all, root@) == find_load(all.skip(i as int), root@),
        decreases document.statements@.len() - i,
    {
        assert(all.skip(i as int)[0] == document.statements@[i as int]@);
        assert(all.skip(i as int).drop_first() =~= all.skip(i + 1));
        if let Statement::Load { module, args } = &document.statements[i] {
            if let Some(their) = name_of_loaded(args, &wanted) {
                return Some((module.clone(), their));
            }
        }
        i = i + 1;
    }
    None
}

/// The name that the first of `args` that binds `local` loads.
fn name_of_loaded(args: &Vec<LoadArg>, local: &String) -> (r: Option<String>)
    ensures
        loaded_name(load_args(args@), local@) == opt_text(r),
{
    let ghost all = load_args(args@);
    let mut i: usize = 0;
    assert(all.skip(0) =~= all);
    while i < args.len()
        invariant
            i <= args@.len(),
            all == load_args(args@),
            loaded_name(all, local@) == loaded_name(all.skip(i as int), local@),
        decreases args@.len() - i,
    {
        assert(all.skip(i as int)[0] == args@[i as int]@);
        assert(all.skip(i as int).drop_first() =~= all.skip(i + 1));
        if args[i].local == *local {
            return Some(args[i].their.clone());
        }
        i = i + 1;
    }
    None
}

/// The members to offer for a symbol that has the name `remote` in the loaded module: none,
/// where the module could not be had.
pub fn member_items_of_loaded<E>(reply: &Result<Option<LspModule>, E>, remote: &str) -> (r: Vec<
    CompletionItem,
>)
    ensures
        item_views(r@) == members_of_loaded(*reply, remote@),
{
    match reply {
        Ok(Some(module)) => struct_field_completion_items(module, remote),
        _ => {
            let none: Vec<CompletionItem> = Vec::new();
            assert(item_views(none@) =~= Seq::<ItemView>::empty());
            none
        },
    }
}

/// The items to offer behind `root.`, where `root` is a symbol that `document` loads. There are
/// none where it is not, where the loaded module cannot be had, and where that has no matching
/// `name = struct(...)`: behind a dot the usual completions would be noise.
pub fn member_completion_options<
    U,
    E,
    R: Fn(&str) -> Result<U, E>,
    L: Fn(&U) -> Result<Option<LspModule>, E>,
>(document: &LspModule, root: &str, resolve: &R, fetch: &L) -> (r: Vec<CompletionItem>)
    requires
        forall|p: &str| #[trigger] call_requires(*resolve, (p,)),
        forall|uri: &U| #[trigger] call_requires(*fetch, (uri,)),
    ensures
        can_offer_members(document@, root@, *resolve, *fetch, item_views(r@)),
{
    match load_of_symbol(document, root) {
        Some((path, remote)) => {
            let reply = load_module(path.as_str(), resolve, fetch);
            let items = member_items_of_loaded(&reply, remote.as_str());
            proof {
                let target = find_load(document@.statements, root@)->0;
                assert(can_load(target.path, *resolve, *fetch, reply));
                assert(item_views(items@) == members_of_loaded(reply, target.name));
            }
            items
        },
        None => {
            let none: Vec<CompletionItem> = Vec::new();
            assert(item_views(none@) =~= Seq::<ItemView>::empty());
            none
        },
    }
}

/// The items to offer at byte column `character` of `line` where a member access stands to its
/// left; `None` where there is none, and completion goes on as usual. `document` is the last
/// state of the document that could be parsed.
pub fn dot_completion_options<
    U,
    E,
    R: Fn(&str) -> Result<U, E>,
    L: Fn(&U) -> Result<Option<LspModule>, E>,
>(line: &str, character: u32, document: &LspModule, resolve: &R, fetch: &L) -> (r: Option<
    Vec<CompletionItem>,
>)
    requires
        forall|p: &str| #[trigger] call_requires(*resolve, (p,)),
        forall|uri: &U| #[trigger] call_requires(*fetch, (uri,)),
    ensures
        match dot_context(line.spec_bytes(), character as int) {
            None => r is None,
            Some(DotView::Suppress) => r is Some && item_views(r->0@) == Seq::<ItemView>::empty(),
            Some(DotView::Member { root }) => r is Some && can_offer_members(
                document@,
                root,
                *resolve,
                *fetch,
                item_views(r->0@),
            ),
        },
{
    match scan_dot_context(line, character) {
        None => None,
        Some(DotContext::Suppress) => {
            let none: Vec<CompletionItem> = Vec::new();
            assert(item_views(none@) =~= Seq::<ItemView>::empty());
            Some(none)
        },
        Some(DotContext::Member { root }) => Some(
            member_completion_options(document, root.as_str(), resolve, fetch),
        ),
    }
}

/// The names of the named arguments among `arguments`, in order.
pub open spec fn field_names(arguments: Seq<ArgumentView>) -> Seq<Seq<char>>
    decreases arguments.len(),
{
    if arguments.len() == 0 {
        Seq::empty()
    } else {
        let before = field_names(arguments.drop_last());
        match arguments.last() {
            ArgumentView::Named { field, .. } => before.push(field),
            ArgumentView::Other => before,
        }
    }
}

/// The fields of a struct are offered all, once each, and in the order in which they are
/// written.
pub proof fn fields_are_offered_in_order(
    statements: Seq<StatementView>,
    arguments: Seq<ArgumentView>,
)
    ensures
        field_items(statements, arguments).map_values(|item: ItemView| item.label) == field_names(
            arguments,
        ),
    decreases arguments.len(),
{
    let label = |item: ItemView| item.label;
    let items = field_items(statements, arguments);
    if arguments.len() > 0 {
        fields_are_offered_in_order(statements, arguments.drop_last());
        let before = field_items(statements, arguments.drop_last());
        match arguments.last() {
            ArgumentView::Named { field, identifier } => {
                assert(items == before.push(field_item(statements, field, identifier)));
                assert(items.map_values(label) =~= before.map_values(label).push(field));
            },
            ArgumentView::Other => {},
        }
    } else {
        assert(items.map_values(label) =~= Seq::<Seq<char>>::empty());
    }
}

/// A name that some top-level statement binds is found, whatever the name is: the first such
/// statement says what it is.
pub proof fn symbol_is_first_binding(statements: Seq<StatementView>, name: Seq<char>, i: int)
    requires
        0 <= i < statements.len(),
        binding(statements[i], name) is Some,
        forall|j: int| 0 <= j < i ==> binding(#[trigger] statements[j], name) is None,
    ensures
        top_level_symbol(statements, name) == binding(statements[i], name),
    decreases i,
{
    if i > 0 {
        let rest = statements.drop_first();
        assert(rest[i - 1] == statements[i]);
        assert forall|j: int| 0 <= j < i - 1 implies binding(
            #[trigger] rest[j],
            name,
        ) is None by {
            assert(rest[j] == statements[j + 1]);
        }
        assert(binding(statements[0], name) is None);
        symbol_is_first_binding(rest, name, i - 1);
    }
}

/// A name that no top-level statement binds is not found.
pub proof fn unbound_symbol_is_not_found(statements: Seq<StatementView>, name: Seq<char>)
    requires
        forall|i: int|
            0 <= i < statements.len() ==> binding(#[trigger] statements[i], name) is None,
    ensures
        top_level_symbol(statements, name) is None,
    decreases statements.len(),
{
    if statements.len() > 0 {
        let rest = statements.drop_first();
        assert forall|i: int| 0 <= i < rest.len() implies binding(
            #[trigger] rest[i],
            name,
        ) is None by {
            assert(rest[i] == statements[i + 1]);
        }
        assert(binding(statements[0], name) is None);
        unbound_symbol_is_not_found(rest, name);
    }
}

/// A symbol is looked up where the first `load` that binds its local name says, under the name
/// that it has there: `load("m", h = "helpers")` leads from `h` to `helpers` in `m`.
pub proof fn load_target_is_first_binding(statements: Seq<StatementView>, local: Seq<char>, i: int)
    requires
        0 <= i < statements.len(),
        load_target(statements[i], local) is Some,
        forall|j: int| 0 <= j < i ==> load_target(#[trigger] statements[j], local) is None,
    ensures
        find_load(statements, local) == load_target(statements[i], local),
    decreases i,
{
    if i > 0 {
        let rest = statements.drop_first();
        assert(rest[i - 1] == statements[i]);
        assert forall|j: int| 0 <= j < i - 1 implies load_target(
            #[trigger] rest[j],
            local,
        ) is None by {
            assert(rest[j] == statements[j + 1]);
        }
        assert(load_target(statements[0], local) is None);
        load_target_is_first_binding(rest, local, i - 1);
    }
}

/// A name that no `load` binds leads nowhere.
pub proof fn unloaded_symbol_has_no_target(statements: Seq<StatementView>, local: Seq<char>)
    requires
        forall|i: int|
            0 <= i < statements.len() ==> load_target(#[trigger] statements[i], local) is None,
    ensures
        find_load(statements, local) is None,
    decreases statements.len(),
{
    if statements.len() > 0 {
        let rest = statements.drop_first();
        assert forall|i: int| 0 <= i < rest.len() implies load_target(
            #[trigger] rest[i],
            local,
        ) is None by {
            assert(rest[i] == statements[i + 1]);
        }
        assert(load_target(statements[0], local) is None);
        unloaded_symbol_has_no_target(rest, local);
    }
}

/// The `load` statements among `statements`, in order.
pub open spec fn load_statements(statements: Seq<StatementView>) -> Seq<StatementView>
    decreases statements.len(),
{
    if statements.len() == 0 {
        Seq::empty()
    } else if statements[0] is Load {
        seq![statements[0]] + load_statements(statements.drop_first())
    } else {
        load_statements(statements.drop_first())
    }
}

/// Statements other than `load` have no say in what a symbol is loaded from.
proof fn lemma_target_among_loads(statements: Seq<StatementView>, local: Seq<char>)
    ensures
        find_load(statements, local) == find_load(load_statements(statements), local),
    decreases statements.len(),
{
    if statements.len() > 0 {
        let rest = statements.drop_first();
        lemma_target_among_loads(rest, local);
        if statements[0] is Load {
            let loads = load_statements(statements);
            assert(loads[0] == statements[0]);
            assert(loads.drop_first() =~= load_statements(rest));
        }
    }
}

/// Loads are matched by name: documents with the same `load` statements in the same order load
/// each symbol from the same place and offer the same behind its dot, whatever else they hold and
/// wherever the statements stand.
pub proof fn loads_alone_decide_members<
    U,
    E,
    R: Fn(&str) -> Result<U, E>,
    L: Fn(&U) -> Result<Option<LspModule>, E>,
>(a: ModuleView, b: ModuleView, root: Seq<char>, resolve: R, fetch: L, items: Seq<ItemView>)
    requires
        load_statements(a.statements) == load_statements(b.statements),
    ensures
        find_load(a.statements, root) == find_load(b.statements, root),
        can_offer_members(a, root, resolve, fetch, items) == can_offer_members(
            b,
            root,
            resolve,
            fetch,
            items,
        ),
{
    lemma_target_among_loads(a.statements, root);
    lemma_target_among_loads(b.statements, root);
}

/// The fields of `root` are those of the first top-level `root = struct(...)`.
pub proof fn struct_is_first_definition(statements: Seq<StatementView>, root: Seq<char>, i: int)
    requires
        0 <= i < statements.len(),
        struct_arguments(statements[i], root) is Some,
        forall|j: int| 0 <= j < i ==> struct_arguments(#[trigger] statements[j], root) is None,
    ensures
        find_struct(statements, root) == struct_arguments(statements[i], root),
    decreases i,
{
    if i > 0 {
        let rest = statements.drop_first();
        assert(rest[i - 1] == statements[i]);
        assert forall|j: int| 0 <= j < i - 1 implies struct_arguments(
            #[trigger] rest[j],
            root,
        ) is None by {
            assert(rest[j] == statements[j + 1]);
        }
        assert(struct_arguments(statements[0], root) is None);
        struct_is_first_definition(rest, root, i - 1);
    }
}

/// Where no top-level statement is `root = struct(...)`, there are no fields to offer.
pub proof fn undefined_struct_is_not_found(statements: Seq<StatementView>, root: Seq<char>)
    requires
        forall|i: int|
            0 <= i < statements.len() ==> struct_arguments(#[trigger] statements[i], root) is None,
    ensures
        find_struct(statements, root) is None,
    decreases statements.len(),
{
    if statements.len() > 0 {
        let rest = statements.drop_first();
        assert forall|i: int| 0 <= i < rest.len() implies struct_arguments(
            #[trigger] rest[i],
            root,
        ) is None by {
            assert(rest[i] == statements[i + 1]);
        }
        assert(struct_arguments(statements[0], root) is None);
        undefined_struct_is_not_found(rest, root);
    }
}

/// A `load` names, for a local name, the remote name that stands beside it.
pub proof fn loaded_name_is_beside_local(args: Seq<LoadArgView>, local: Seq<char>)
    ensures
        match loaded_name(args, local) {
            Some(name) => exists|i: int|
                0 <= i < args.len() && (#[trigger] args[i]).local == local && args[i].their == name,
            None => forall|i: int| 0 <= i < args.len() ==> (#[trigger] args[i]).local != local,
        },
    decreases args.len(),
{
    if args.len() > 0 && args[0].local != local {
        let rest = args.drop_first();
        loaded_name_is_beside_local(rest, local);
        match loaded_name(rest, local) {
            Some(name) => {
                let i = choose|i: int|
                    0 <= i < rest.len() && (#[trigger] rest[i]).local == local && rest[i].their
                        == name;
                assert(args[i + 1] == rest[i]);
            },
            None => {
                assert forall|i: int| 0 <= i < args.len() implies (#[trigger] args[i]).local
                    != local by {
                    if i > 0 {
                        assert(args[i] == rest[i - 1]);
                    }
                }
            },
        }
    }
}

/// Behind the dot of a symbol that the document does not load, nothing is offered, whatever the
/// host would resolve and fetch.
pub proof fn no_members_of_unloaded<
    U,
    E,
    R: Fn(&str) -> Result<U, E>,
    L: Fn(&U) -> Result<Option<LspModule>, E>,
>(document: ModuleView, root: Seq<char>, resolve: R, fetch: L, items: Seq<ItemView>)
    requires
        forall|i: int|
            0 <= i < document.statements.len() ==> load_target(
                #[trigger] document.statements[i],
                root,
            ) is None,
        can_offer_members(document, root, resolve, fetch, items),
    ensures
        items == Seq::<ItemView>::empty(),
{
    unloaded_symbol_has_no_target(document.statements, root);
}

/// Behind the dot of a loaded symbol, the fields of the struct that it names in the loaded module
/// are offered, where the host can get at that module: the path and the name are those of the
/// first `load` that binds the symbol.
pub proof fn fields_of_loaded_struct_are_offered<
    U,
    E,
    R: Fn(&str) -> Result<U, E>,
    L: Fn(&U) -> Result<Option<LspModule>, E>,
>(
    document: ModuleView,
    root: Seq<char>,
    resolve: R,
    fetch: L,
    items: Seq<ItemView>,
    i: int,
    loaded: ModuleView,
)
    requires
        can_offer_members(document, root, resolve, fetch, items),
        0 <= i < document.statements.len(),
        load_target(document.statements[i], root) is Some,
        forall|j: int|
            0 <= j < i ==> load_target(#[trigger] document.statements[j], root) is None,
        forall|reply: Result<Option<LspModule>, E>| #[trigger]
            can_load(load_target(document.statements[i], root)->0.path, resolve, fetch, reply) ==> {
                &&& reply matches Ok(Some(module))
                &&& module@ == loaded
            },
    ensures
        items == struct_items(loaded, load_target(document.statements[i], root)->0.name),
        find_struct(
            loaded.statements,
            load_target(document.statements[i], root)->0.name,
        ) matches Some(arguments) ==> items.map_values(|item: ItemView| item.label) == field_names(
            arguments,
        ),
{
    load_target_is_first_binding(document.statements, root, i);
    let target = load_target(document.statements[i], root)->0;
    if let Some(arguments) = find_struct(loaded.statements, target.name) {
        fields_are_offered_in_order(loaded.statements, arguments);
    }
}

/// Where the host cannot get at the module that a symbol is loaded from, nothing is offered
/// behind its dot.
pub proof fn no_members_of_missing_module<
    U,
    E,
    R: Fn(&str) -> Result<U, E>,
    L: Fn(&U) -> Result<Option<LspModule>, E>,
>(document: ModuleView, root: Seq<char>, resolve: R, fetch: L, items: Seq<ItemView>)
    requires
        can_offer_members(document, root, resolve, fetch, items),
        find_load(document.statements, root) matches Some(target) ==> forall|
            reply: Result<Option<LspModule>, E>,
        | #[trigger]
            can_load(target.path, resolve, fetch, reply) ==> !(reply matches Ok(Some(_))),
    ensures
        items == Seq::<ItemView>::empty(),
{
}

} // verus!
