//! What holds of the completions, said of the inputs and the results themselves.

use starlark::docs::{DocFunction, DocItem, DocModule};
use vstd::prelude::*;

use crate::default::{
    can_export, default_offers, host_offers, insert_then_get, keyed_items, keyed_symbols,
    offer_views, Offer, OfferView, SymbolTable, TableView,
};
use crate::definition::{Definition, IdentifierDefinition};
use crate::docs::{
    function_item, function_parameters, module_members, rendered_item, rendered_param,
};
use crate::dot::{
    digit_byte, dot_context, ident_byte, opens_comment, quote_after, run_start, DotContext,
    DotView, Quote,
};
use crate::exported::{exported_views, import_items, imports_of_loaded};
use crate::item::{
    item_views, plain_item, texts, CompletionItem, CompletionItemKind, ItemView, MarkupKind,
    MarkupView, ResolvedPos, ResolvedSpan,
};
use crate::loading::can_load;
use crate::member::{
    binding, can_offer_members, field_items, find_load, find_struct, load_target,
    load_target_is_first_binding, loaded_name, members_of_loaded, struct_arguments,
    struct_is_first_definition, struct_items, symbol_is_first_binding, top_level_symbol,
    unbound_symbol_is_not_found, undefined_struct_is_not_found, unloaded_symbol_has_no_target,
};
use crate::module::{
    call_views, can_edit, lambda_views, last_load_of_module_counts, last_site, last_span,
    made_of_parts, present_sites, site_views, syntax_views, target_views, LoadEdits, LspModule,
    ModuleView, Statement, StatementView,
};
use crate::parameter::{
    can_have_parameters, exported_parameters, global_parameters, local_parameters, member_named,
    member_views, opt_exported, parameter_items, symbol_named, unused_names,
};
use crate::provider::type_item;
use crate::string_literal::{
    columns_fit, insert_column, result_views, string_items, StringCompletionResult,
    StringResultView,
};
use crate::symbol::{
    completion_kind, exported_item, kind_of_value, named_parameters, symbol_item, ExportedSymbol,
    ExportedSymbolKind, ExportedView, KindView, Symbol, SymbolKind, SymbolView,
};
use crate::syntax::{
    opt_call, opt_lambda, opt_site, Argument, ArgumentView, Call, CallView, LoadArg, LoadArgView,
    LoadSite, LoadSiteView, StatementSyntax, SyntaxView, Target, TargetView, Value, ValueView,
};

verus! {

/// An identifier is written with the letters, digits and the underscore of ASCII.
pub proof fn identifiers_are_written_in_ascii(b: u8)
    ensures
        ident_byte(b) <==> {
            ||| 'a' as u8 <= b <= 'z' as u8
            ||| 'A' as u8 <= b <= 'Z' as u8
            ||| '0' as u8 <= b <= '9' as u8
            ||| b == '_' as u8
        },
        digit_byte(b) <==> '0' as u8 <= b <= '9' as u8,
{
}

/// A quote opens a string where none is open, and the same quote closes it. No other byte matters:
/// neither the other quote nor a `#` within a string, nor a backslash anywhere.
pub proof fn quotes_open_and_close_strings(bytes: Seq<u8>, b: u8)
    ensures
        quote_after(Seq::empty()) == Quote::Outside,
        b != '\'' as u8 && b != '"' as u8 ==> quote_after(bytes.push(b)) == quote_after(bytes),
        b == '\'' as u8 ==> {
            &&& quote_after(bytes) == Quote::Outside <==> quote_after(bytes.push(b))
                == Quote::Single
            &&& quote_after(bytes) == Quote::Single <==> quote_after(bytes.push(b))
                == Quote::Outside
            &&& quote_after(bytes) == Quote::Double <==> quote_after(bytes.push(b))
                == Quote::Double
        },
        b == '"' as u8 ==> {
            &&& quote_after(bytes) == Quote::Outside <==> quote_after(bytes.push(b))
                == Quote::Double
            &&& quote_after(bytes) == Quote::Double <==> quote_after(bytes.push(b))
                == Quote::Outside
            &&& quote_after(bytes) == Quote::Single <==> quote_after(bytes.push(b))
                == Quote::Single
        },
{
    assert(bytes.push(b).drop_last() =~= bytes);
}

/// The identifier at `start .. dot` has a dot behind it, and the cursor stands behind that dot, at
/// most with the beginning of a name between them.
pub open spec fn dotted_identifier(bytes: Seq<u8>, cursor: int, start: int, dot: int) -> bool {
    &&& 0 <= start < dot < cursor <= bytes.len()
    &&& bytes[dot] == '.' as u8
    &&& forall|j: int| start <= j < dot ==> ident_byte(#[trigger] bytes[j])
    &&& forall|j: int| dot < j < cursor ==> ident_byte(#[trigger] bytes[j])
    &&& !('0' as u8 <= bytes[start] <= '9' as u8)
    &&& start > 0 ==> !ident_byte(bytes[start - 1])
}

/// There is a `#` before `end` that no string holds.
pub open spec fn hash_before(bytes: Seq<u8>, end: int) -> bool {
    exists|k: int|
        0 <= k < end && #[trigger] bytes[k] == '#' as u8 && quote_after(bytes.take(k))
            == Quote::Outside
}

proof fn lemma_run_of_shape(bytes: Seq<u8>, start: int, end: int)
    requires
        0 <= start <= end <= bytes.len(),
        forall|j: int| start <= j < end ==> ident_byte(#[trigger] bytes[j]),
        start > 0 ==> !ident_byte(bytes[start - 1]),
    ensures
        run_start(bytes, end) == start,
    decreases end,
{
    if start < end {
        assert(ident_byte(bytes[end - 1]));
        lemma_run_of_shape(bytes, start, end - 1);
    }
}

proof fn lemma_shape_of_run(bytes: Seq<u8>, end: int)
    requires
        0 <= end <= bytes.len(),
    ensures
        0 <= run_start(bytes, end) <= end,
        forall|j: int| run_start(bytes, end) <= j < end ==> ident_byte(#[trigger] bytes[j]),
        run_start(bytes, end) > 0 ==> !ident_byte(bytes[run_start(bytes, end) - 1]),
    decreases end,
{
    if end > 0 && ident_byte(bytes[end - 1]) {
        lemma_shape_of_run(bytes, end - 1);
    }
}

proof fn lemma_hash_opens_comment(bytes: Seq<u8>, end: int)
    requires
        0 <= end <= bytes.len(),
    ensures
        opens_comment(bytes.take(end)) <==> hash_before(bytes, end),
{
    let prefix = bytes.take(end);
    if hash_before(bytes, end) {
        let k = choose|k: int|
            0 <= k < end && #[trigger] bytes[k] == '#' as u8 && quote_after(bytes.take(k))
                == Quote::Outside;
        assert(prefix[k] == bytes[k]);
        assert(prefix.take(k) =~= bytes.take(k));
    }
    if opens_comment(prefix) {
        let k = choose|k: int|
            0 <= k < prefix.len() && #[trigger] prefix[k] == '#' as u8 && quote_after(
                prefix.take(k),
            ) == Quote::Outside;
        assert(prefix.take(k) =~= bytes.take(k));
        assert(bytes[k] == '#' as u8);
    }
}

/// Behind a dotted identifier its members are wanted, under exactly the bytes of the identifier,
/// but for two cases: it is itself a member of something else, or it stands behind a `#` that no
/// string holds.
pub proof fn dotted_identifier_gives_context(bytes: Seq<u8>, cursor: int, start: int, dot: int)
    requires
        dotted_identifier(bytes, cursor, start, dot),
    ensures
        start > 0 && bytes[start - 1] == '.' as u8 ==> dot_context(bytes, cursor) == Some(
            DotView::Suppress,
        ),
        hash_before(bytes, start) ==> dot_context(bytes, cursor) == Some(DotView::Suppress),
        !(start > 0 && bytes[start - 1] == '.' as u8) && !hash_before(bytes, start) ==> {
            &&& dot_context(bytes, cursor) matches Some(DotView::Member { root })
            &&& root.len() == dot - start
            &&& forall|i: int|
                0 <= i < root.len() ==> #[trigger] root[i] == bytes[start + i] as char
        },
{
    lemma_run_of_shape(bytes, dot + 1, cursor);
    lemma_run_of_shape(bytes, start, dot);
    lemma_hash_opens_comment(bytes, start);
}

/// Without a dotted identifier to the left of the cursor there is no context.
pub proof fn no_context_without_dotted_identifier(bytes: Seq<u8>, cursor: int)
    requires
        0 <= cursor <= bytes.len(),
        forall|start: int, dot: int| !#[trigger] dotted_identifier(bytes, cursor, start, dot),
    ensures
        dot_context(bytes, cursor) is None,
{
    lemma_shape_of_run(bytes, cursor);
    let word = run_start(bytes, cursor);
    if word > 0 {
        lemma_shape_of_run(bytes, word - 1);
        assert(!dotted_identifier(bytes, cursor, run_start(bytes, word - 1), word - 1));
    }
}

/// Behind a `#` that no string holds, no members are offered, whatever stands between it and the
/// cursor.
pub proof fn no_members_behind_hash(bytes: Seq<u8>, k: int, cursor: int)
    requires
        0 <= k < cursor <= bytes.len(),
        bytes[k] == '#' as u8,
        quote_after(bytes.take(k)) == Quote::Outside,
    ensures
        !(dot_context(bytes, cursor) matches Some(DotView::Member { .. })),
{
    if exists|start: int, dot: int| #[trigger] dotted_identifier(bytes, cursor, start, dot) {
        let (start, dot) = choose|start: int, dot: int| #[trigger]
            dotted_identifier(bytes, cursor, start, dot);
        assert(k < start) by {
            if start <= k < dot || dot < k {
                assert(ident_byte(bytes[k]));
            }
        }
        assert(hash_before(bytes, start));
        dotted_identifier_gives_context(bytes, cursor, start, dot);
    } else {
        no_context_without_dotted_identifier(bytes, cursor);
    }
}

/// Where no `#` stands in the line up to the cursor, a dotted identifier that is not a member of
/// something else has its members offered, whatever strings there are.
pub proof fn members_are_offered_without_hash(bytes: Seq<u8>, cursor: int, start: int, dot: int)
    requires
        dotted_identifier(bytes, cursor, start, dot),
        start > 0 ==> bytes[start - 1] != '.' as u8,
        forall|k: int| 0 <= k < start ==> #[trigger] bytes[k] != '#' as u8,
    ensures
        dot_context(bytes, cursor) matches Some(DotView::Member { .. }),
{
    dotted_identifier_gives_context(bytes, cursor, start, dot);
}

/// A statement that binds `name` at the top level.
pub open spec fn binds(statement: StatementView, name: Seq<char>) -> bool {
    match statement {
        StatementView::Def { name: defined, .. } => defined == name,
        StatementView::Assign { names, .. } => names.contains(name),
        _ => false,
    }
}

/// The first of `statements` that binds `name` is the one at `i`.
pub open spec fn first_binds(statements: Seq<StatementView>, name: Seq<char>, i: int) -> bool {
    &&& 0 <= i < statements.len()
    &&& binds(statements[i], name)
    &&& forall|j: int| 0 <= j < i ==> !binds(#[trigger] statements[j], name)
}

/// The statement `root = struct(arguments)`.
pub open spec fn defines_struct(
    statement: StatementView,
    root: Seq<char>,
    arguments: Seq<ArgumentView>,
) -> bool {
    &&& statement matches StatementView::Assign { target: Some(target), value, .. }
    &&& target == root
    &&& value == ValueView::Call { function: Some("struct"@), arguments }
}

/// The first of `statements` that is `root = struct(..)` is the one at `i`, with these arguments.
pub open spec fn first_defines_struct(
    statements: Seq<StatementView>,
    root: Seq<char>,
    i: int,
    arguments: Seq<ArgumentView>,
) -> bool {
    &&& 0 <= i < statements.len()
    &&& defines_struct(statements[i], root, arguments)
    &&& forall|j: int, other: Seq<ArgumentView>|
        0 <= j < i ==> !#[trigger] defines_struct(statements[j], root, other)
}

/// The arguments with a name, in order.
pub open spec fn named_arguments(arguments: Seq<ArgumentView>) -> Seq<ArgumentView> {
    arguments.filter(|argument: ArgumentView| argument is Named)
}

/// The item puts exactly its label into the text: nothing else is inserted, and no remark is
/// shown.
pub open spec fn inserts_its_label(item: ItemView) -> bool {
    &&& item.insert_text is None
    &&& item.text_edit is None
    &&& item.detail is None
}

/// The documentation that the `starlark` crate renders for `docs` under `name`, as Markdown.
pub open spec fn shows_docs(
    documentation: Option<MarkupView>,
    name: Seq<char>,
    docs: Option<DocItem>,
) -> bool {
    match docs {
        Some(docs) => {
            &&& documentation matches Some(markup)
            &&& markup.kind == MarkupKind::Markdown
            &&& markup.value == rendered_item(name, docs)
        },
        None => documentation is None,
    }
}

/// How a symbol of this kind is shown: a function as one, anything else as a constant.
pub open spec fn shows_kind(shown: Option<CompletionItemKind>, kind: KindView) -> bool {
    match kind {
        KindView::Function { .. } => shown == Some(CompletionItemKind::Function),
        KindView::Any => shown == Some(CompletionItemKind::Constant),
    }
}

/// The item shows what the statement at `i` binds: of a function its documentation, of an
/// assignment only whether it is a function.
pub open spec fn shows_binding(item: ItemView, statement: StatementView) -> bool {
    match statement {
        StatementView::Def { docs, .. } => {
            &&& item.kind == Some(CompletionItemKind::Function)
            &&& match docs {
                Some(function) => shows_docs(
                    item.documentation,
                    item.label,
                    Some(function_item(function)),
                ),
                None => item.documentation is None,
            }
        },
        StatementView::Assign { kind, .. } => {
            &&& shows_kind(item.kind, kind)
            &&& item.documentation is None
        },
        _ => false,
    }
}

/// The item for the argument `field = value`: it has the field's name, and shows what the value
/// is where that is the name of a top-level symbol.
pub open spec fn shows_field(
    item: ItemView,
    statements: Seq<StatementView>,
    argument: ArgumentView,
) -> bool {
    &&& argument matches ArgumentView::Named { field, identifier }
    &&& item.label == field
    &&& inserts_its_label(item)
    &&& identifier is None ==> item.kind == Some(CompletionItemKind::Field)
        && item.documentation is None
    &&& identifier matches Some(name) ==> {
        &&& (forall|i: int| 0 <= i < statements.len() ==> !binds(#[trigger] statements[i], name))
            ==> item.kind == Some(CompletionItemKind::Field) && item.documentation is None
        &&& forall|i: int| #[trigger]
            first_binds(statements, name, i) ==> shows_binding(item, statements[i])
    }
}

/// The first statement that binds a name says what it is: a function with its parameters and its
/// documentation, or what an assignment makes of it. A name that none binds is not found.
pub proof fn first_binding_says_what_a_symbol_is(statements: Seq<StatementView>, name: Seq<char>)
    ensures
        (forall|i: int| 0 <= i < statements.len() ==> !binds(#[trigger] statements[i], name))
            ==> top_level_symbol(statements, name) is None,
        forall|i: int| #[trigger]
            first_binds(statements, name, i) ==> {
                &&& top_level_symbol(statements, name) matches Some((kind, docs))
                &&& match statements[i] {
                    StatementView::Def { argument_names, docs: function, .. } => {
                        &&& kind == KindView::Function { argument_names }
                        &&& docs == (match function {
                            Some(function) => Some(function_item(function)),
                            None => None,
                        })
                    },
                    StatementView::Assign { kind: assigned, .. } => kind == assigned && docs
                        is None,
                    _ => false,
                }
            },
{
    if forall|i: int| 0 <= i < statements.len() ==> !binds(#[trigger] statements[i], name) {
        unbound_symbol_is_not_found(statements, name);
    }
    assert forall|i: int| #[trigger] first_binds(statements, name, i) implies top_level_symbol(
        statements,
        name,
    ) == binding(statements[i], name) by {
        symbol_is_first_binding(statements, name, i);
    }
}

proof fn lemma_field_items(statements: Seq<StatementView>, arguments: Seq<ArgumentView>)
    ensures
        field_items(statements, arguments).len() == named_arguments(arguments).len(),
        forall|j: int|
            0 <= j < field_items(statements, arguments).len() ==> shows_field(
                #[trigger] field_items(statements, arguments)[j],
                statements,
                named_arguments(arguments)[j],
            ),
    decreases arguments.len(),
{
    reveal(Seq::filter);
    if arguments.len() > 0 {
        lemma_field_items(statements, arguments.drop_last());
        if let ArgumentView::Named { field, identifier } = arguments.last() {
            if let Some(name) = identifier {
                first_binding_says_what_a_symbol_is(statements, name);
            }
        }
    }
}

/// The fields of a struct are offered all and in order, each under its own name and by that name
/// alone, with what is known of the symbol that it refers to.
pub proof fn struct_fields_are_offered(
    module: ModuleView,
    root: Seq<char>,
    i: int,
    arguments: Seq<ArgumentView>,
)
    requires
        first_defines_struct(module.statements, root, i, arguments),
    ensures
        struct_items(module, root).len() == named_arguments(arguments).len(),
        forall|j: int|
            0 <= j < named_arguments(arguments).len() ==> shows_field(
                #[trigger] struct_items(module, root)[j],
                module.statements,
                named_arguments(arguments)[j],
            ),
{
    let statements = module.statements;
    assert forall|j: int| 0 <= j < i implies struct_arguments(
        #[trigger] statements[j],
        root,
    ) is None by {
        if let Some(other) = struct_arguments(statements[j], root) {
            assert(defines_struct(statements[j], root, other));
        }
    }
    struct_is_first_definition(statements, root, i);
    lemma_field_items(statements, arguments);
}

/// Where no top-level statement is `root = struct(..)`, nothing is offered.
pub proof fn nothing_is_offered_without_struct(module: ModuleView, root: Seq<char>)
    requires
        forall|i: int, arguments: Seq<ArgumentView>|
            0 <= i < module.statements.len() ==> !#[trigger] defines_struct(
                module.statements[i],
                root,
                arguments,
            ),
    ensures
        struct_items(module, root).len() == 0,
{
    assert forall|i: int| 0 <= i < module.statements.len() implies struct_arguments(
        #[trigger] module.statements[i],
        root,
    ) is None by {
        if let Some(arguments) = struct_arguments(module.statements[i], root) {
            assert(defines_struct(module.statements[i], root, arguments));
        }
    }
    undefined_struct_is_not_found(module.statements, root);
}

/// Every item that is offered behind a dot puts exactly its label into the text.
pub proof fn members_insert_their_label(module: ModuleView, root: Seq<char>, j: int)
    requires
        0 <= j < struct_items(module, root).len(),
    ensures
        inserts_its_label(struct_items(module, root)[j]),
{
    if let Some(arguments) = find_struct(module.statements, root) {
        lemma_field_items(module.statements, arguments);
    }
}

/// A statement that does not load `local`.
pub open spec fn does_not_load(statement: StatementView, local: Seq<char>) -> bool {
    statement matches StatementView::Load { args, .. } ==> forall|k: int|
        0 <= k < args.len() ==> (#[trigger] args[k]).local != local
}

/// The statement at `i` is the first that loads `local`, and the argument at `k` is the first of
/// it that does: it loads `name` from `path`.
pub open spec fn first_loads(
    statements: Seq<StatementView>,
    local: Seq<char>,
    i: int,
    k: int,
    path: Seq<char>,
    name: Seq<char>,
) -> bool {
    &&& 0 <= i < statements.len()
    &&& forall|j: int| 0 <= j < i ==> does_not_load(#[trigger] statements[j], local)
    &&& statements[i] matches StatementView::Load { module, args }
    &&& module == path
    &&& 0 <= k < args.len()
    &&& args[k].local == local
    &&& args[k].their == name
    &&& forall|j: int| 0 <= j < k ==> (#[trigger] args[j]).local != local
}

proof fn lemma_loaded_name(args: Seq<LoadArgView>, local: Seq<char>)
    ensures
        (forall|k: int| 0 <= k < args.len() ==> (#[trigger] args[k]).local != local)
            ==> loaded_name(args, local) is None,
        forall|k: int|
            0 <= k < args.len() && (#[trigger] args[k]).local == local && (forall|j: int|
                0 <= j < k ==> (#[trigger] args[j]).local != local) ==> loaded_name(args, local)
                == Some(args[k].their),
    decreases args.len(),
{
    if args.len() > 0 {
        let rest = args.drop_first();
        lemma_loaded_name(rest, local);
        if args[0].local != local {
            if forall|k: int| 0 <= k < args.len() ==> (#[trigger] args[k]).local != local {
                assert forall|k: int| 0 <= k < rest.len() implies (#[trigger] rest[k]).local
                    != local by {
                    assert(rest[k] == args[k + 1]);
                }
            }
            assert forall|k: int|
                0 <= k < args.len() && (#[trigger] args[k]).local == local && (forall|j: int|
                    0 <= j < k ==> (#[trigger] args[j]).local != local) implies loaded_name(
                args,
                local,
            ) == Some(args[k].their) by {
                assert(rest[k - 1] == args[k]);
                assert forall|j: int| 0 <= j < k - 1 implies (#[trigger] rest[j]).local
                    != local by {
                    assert(rest[j] == args[j + 1]);
                }
            }
        }
    }
}

proof fn lemma_no_target(statement: StatementView, local: Seq<char>)
    requires
        does_not_load(statement, local),
    ensures
        load_target(statement, local) is None,
{
    if let StatementView::Load { args, .. } = statement {
        lemma_loaded_name(args, local);
    }
}

/// A symbol is loaded from where the first `load` that binds it says, and a name that none binds
/// from nowhere.
pub proof fn first_load_says_where_a_symbol_is(statements: Seq<StatementView>, local: Seq<char>)
    ensures
        (forall|i: int|
            0 <= i < statements.len() ==> does_not_load(#[trigger] statements[i], local))
            ==> find_load(statements, local) is None,
        forall|i: int, k: int, path: Seq<char>, name: Seq<char>| #[trigger]
            first_loads(statements, local, i, k, path, name) ==> {
                &&& find_load(statements, local) matches Some(target)
                &&& target.path == path
                &&& target.name == name
            },
{
    if forall|i: int| 0 <= i < statements.len() ==> does_not_load(#[trigger] statements[i], local) {
        assert forall|i: int| 0 <= i < statements.len() implies load_target(
            #[trigger] statements[i],
            local,
        ) is None by {
            assert(does_not_load(statements[i], local));
            lemma_no_target(statements[i], local);
        }
        unloaded_symbol_has_no_target(statements, local);
    }
    assert forall|i: int, k: int, path: Seq<char>, name: Seq<char>| #[trigger]
        first_loads(statements, local, i, k, path, name) implies {
        &&& find_load(statements, local) matches Some(target)
        &&& target.path == path
        &&& target.name == name
    } by {
        assert forall|j: int| 0 <= j < i implies load_target(
            #[trigger] statements[j],
            local,
        ) is None by {
            assert(does_not_load(statements[j], local));
            lemma_no_target(statements[j], local);
        }
        if let StatementView::Load { args, .. } = statements[i] {
            lemma_loaded_name(args, local);
            assert(args[k].local == local);
        }
        load_target_is_first_binding(statements, local, i);
    }
}

/// Behind the dot of a loaded symbol, the struct is looked up in the module that the `load` names,
/// under the name that the symbol has there. Where that module cannot be had, nothing is offered.
pub proof fn members_come_from_loaded_module<
    U,
    E,
    R: Fn(&str) -> Result<U, E>,
    L: Fn(&U) -> Result<Option<LspModule>, E>,
>(
    document: ModuleView,
    root: Seq<char>,
    resolve: R,
    fetch: L,
    items: Seq<ItemView>,
    i: int,
    k: int,
    path: Seq<char>,
    name: Seq<char>,
)
    requires
        can_offer_members(document, root, resolve, fetch, items),
        first_loads(document.statements, root, i, k, path, name),
    ensures
        exists|reply: Result<Option<LspModule>, E>| #[trigger]
            can_load(path, resolve, fetch, reply) && match reply {
                Ok(Some(loaded)) => items == struct_items(loaded@, name),
                Ok(None) => items.len() == 0,
                Err(_) => items.len() == 0,
            },
{
    first_load_says_where_a_symbol_is(document.statements, root);
}

/// Behind the dot of a name that no `load` of the document binds, nothing is offered.
pub proof fn nothing_is_offered_for_unloaded<
    U,
    E,
    R: Fn(&str) -> Result<U, E>,
    L: Fn(&U) -> Result<Option<LspModule>, E>,
>(document: ModuleView, root: Seq<char>, resolve: R, fetch: L, items: Seq<ItemView>)
    requires
        can_offer_members(document, root, resolve, fetch, items),
        forall|i: int|
            0 <= i < document.statements.len() ==> does_not_load(
                #[trigger] document.statements[i],
                root,
            ),
    ensures
        items.len() == 0,
{
    first_load_says_where_a_symbol_is(document.statements, root);
}

/// Of a module that could be had the fields of the struct are offered, and nothing otherwise.
pub proof fn members_follow_the_reply<E>(reply: Result<Option<LspModule>, E>, remote: Seq<char>)
    ensures
        reply matches Ok(Some(module)) ==> members_of_loaded(reply, remote) == struct_items(
            module@,
            remote,
        ),
        !(reply matches Ok(Some(_))) ==> members_of_loaded(reply, remote).len() == 0,
{
}

/// A module is had by resolving its path and fetching what comes out: an error in resolving is the
/// outcome, and what is fetched is passed on as it is.
pub proof fn loading_resolves_then_fetches<
    U,
    M,
    E,
    R: Fn(&str) -> Result<U, E>,
    L: Fn(&U) -> Result<Option<M>, E>,
>(path: Seq<char>, resolve: R, fetch: L, resolved: Result<U, E>, reply: Result<Option<M>, E>)
    requires
        can_load(path, resolve, fetch, reply),
        forall|asked: &str, answer: Result<U, E>|
            asked@ == path && #[trigger] call_ensures(resolve, (asked,), answer) ==> answer
                == resolved,
    ensures
        match resolved {
            Ok(uri) => call_ensures(fetch, (&uri,), reply),
            Err(error) => reply == Err::<Option<M>, E>(error),
        },
{
}

/// The item for a symbol in sight: it has the symbol's name, kind and remark, and shows its own
/// documentation or, where it has none, that of the parameter that it is. Nothing but its label is
/// inserted.
pub open spec fn shows_symbol(item: ItemView, symbol: SymbolView) -> bool {
    &&& item.label == symbol.name
    &&& item.detail == symbol.detail
    &&& item.insert_text is None
    &&& item.text_edit is None
    &&& symbol.kind == SymbolKind::Method ==> item.kind == Some(CompletionItemKind::Method)
    &&& symbol.kind == SymbolKind::Variable ==> item.kind == Some(CompletionItemKind::Variable)
    &&& symbol.doc is Some ==> shows_docs(item.documentation, symbol.name, symbol.doc)
    &&& symbol.doc is None ==> match symbol.param {
        Some((starred_name, docs)) => {
            &&& item.documentation matches Some(markup)
            &&& markup.kind == MarkupKind::Markdown
            &&& markup.value == rendered_param(starred_name, docs)
        },
        None => item.documentation is None,
    }
}

/// The item for a symbol shows the symbol.
pub proof fn symbol_is_shown(symbol: SymbolView)
    ensures
        shows_symbol(symbol_item(symbol), symbol),
{
}

/// The entry at `j` is the last with the key `name`.
pub open spec fn last_under<V>(entries: Seq<(Seq<char>, V)>, name: Seq<char>, j: int) -> bool {
    &&& 0 <= j < entries.len()
    &&& entries[j].0 == name
    &&& forall|k: int| j < k < entries.len() ==> (#[trigger] entries[k]).0 != name
}

/// No entry has the key `name`.
pub open spec fn none_under<V>(entries: Seq<(Seq<char>, V)>, name: Seq<char>) -> bool {
    forall|k: int| 0 <= k < entries.len() ==> (#[trigger] entries[k]).0 != name
}

/// What is offered under `name`: the last item of another document with that label or, where there
/// is none, the last symbol in sight with that name.
pub open spec fn offered_under<I>(
    offer: OfferView<I>,
    name: Seq<char>,
    symbols: Seq<(Seq<char>, SymbolView)>,
    exported: Seq<(Seq<char>, I)>,
) -> bool {
    &&& forall|j: int| #[trigger]
        last_under(exported, name, j) ==> offer == OfferView::Host(exported[j].1)
    &&& none_under(exported, name) ==> forall|j: int| #[trigger]
        last_under(symbols, name, j) ==> {
            &&& offer matches OfferView::Symbol(item)
            &&& shows_symbol(item, symbols[j].1)
        }
}

/// The names of which `keys` holds each once: those of the symbols in sight, and the labels of the
/// items of other documents.
pub open spec fn names_once<I>(
    keys: Seq<Seq<char>>,
    symbols: Seq<(Seq<char>, SymbolView)>,
    exported: Seq<(Seq<char>, I)>,
) -> bool {
    &&& keys.no_duplicates()
    &&& forall|name: Seq<char>| #[trigger]
        keys.contains(name) <==> !none_under(symbols, name) || !none_under(exported, name)
}

/// What holds of a table: one offer for each name, and the right one.
pub open spec fn table_holds<I>(
    table: TableView<I>,
    symbols: Seq<(Seq<char>, SymbolView)>,
    exported: Seq<(Seq<char>, I)>,
) -> bool {
    &&& table.keys.len() == table.offers.len()
    &&& names_once(table.keys, symbols, exported)
    &&& forall|p: int|
        0 <= p < table.keys.len() ==> offered_under(
            #[trigger] table.offers[p],
            table.keys[p],
            symbols,
            exported,
        )
}

/// What is put into a table stands there once under its name, in place of what was there; every
/// other entry stays where it is.
pub proof fn insert_changes_one_entry<I>(table: TableView<I>, key: Seq<char>, offer: OfferView<I>)
    requires
        table.well_formed(),
    ensures
        table.insert(key, offer).well_formed(),
        forall|name: Seq<char>| #[trigger]
            table.insert(key, offer).keys.contains(name) <==> table.keys.contains(name) || name
                == key,
        forall|p: int|
            0 <= p < table.insert(key, offer).keys.len() && table.insert(key, offer).keys[p] == key
                ==> #[trigger] table.insert(key, offer).offers[p] == offer,
        forall|p: int|
            0 <= p < table.insert(key, offer).keys.len() && table.insert(key, offer).keys[p] != key
                ==> {
                &&& p < table.keys.len()
                &&& table.insert(key, offer).keys[p] == table.keys[p]
                &&& #[trigger] table.insert(key, offer).offers[p] == table.offers[p]
            },
{
    let after = table.insert(key, offer);
    insert_then_get(table, key, offer, key);
    assert forall|name: Seq<char>| #[trigger] after.keys.contains(name) <==> table.keys.contains(
        name,
    ) || name == key by {
        if !table.keys.contains(key) {
            if table.keys.contains(name) {
                let i = choose|i: int| 0 <= i < table.keys.len() && table.keys[i] == name;
                assert(after.keys[i] == name);
            }
            assert(after.keys[table.keys.len() as int] == key);
        }
    }
}

/// The table of the symbols in sight holds one offer for each name.
pub proof fn table_holds_symbols<I>(symbols: Seq<(Seq<char>, SymbolView)>)
    ensures
        table_holds(
            TableView::<I>::empty().insert_symbols(symbols),
            symbols,
            Seq::<(Seq<char>, I)>::empty(),
        ),
        TableView::<I>::empty().insert_symbols(symbols).well_formed(),
    decreases symbols.len(),
{
    let none = Seq::<(Seq<char>, I)>::empty();
    let table = TableView::<I>::empty().insert_symbols(symbols);
    if symbols.len() > 0 {
        let rest = symbols.drop_last();
        let (key, symbol) = symbols.last();
        let before = TableView::<I>::empty().insert_symbols(rest);
        let offer = OfferView::<I>::Symbol(symbol_item(symbol));
        table_holds_symbols::<I>(rest);
        insert_changes_one_entry(before, key, offer);
        assert(table == before.insert(key, offer));
        assert forall|name: Seq<char>| #[trigger] table.keys.contains(name) <==> !none_under(
            symbols,
            name,
        ) || !none_under(none, name) by {
            assert(before.keys.contains(name) <==> !none_under(rest, name));
            lemma_last_of_prefix(symbols, name);
        }
        assert forall|p: int| 0 <= p < table.keys.len() implies offered_under(
            #[trigger] table.offers[p],
            table.keys[p],
            symbols,
            none,
        ) by {
            lemma_last_of_prefix(symbols, table.keys[p]);
            if table.keys[p] != key {
                assert(offered_under(before.offers[p], before.keys[p], rest, none));
            }
        }
    }
}

/// What is last under a name, with one more entry.
proof fn lemma_last_of_prefix<V>(entries: Seq<(Seq<char>, V)>, name: Seq<char>)
    requires
        entries.len() > 0,
    ensures
        entries.last().0 == name ==> !none_under(entries, name) && forall|j: int| #[trigger]
            last_under(entries, name, j) ==> j == entries.len() - 1,
        entries.last().0 != name ==> {
            &&& none_under(entries, name) <==> none_under(entries.drop_last(), name)
            &&& forall|j: int| #[trigger]
                last_under(entries, name, j) ==> last_under(entries.drop_last(), name, j)
                    && entries.drop_last()[j] == entries[j]
        },
{
    let rest = entries.drop_last();
    if entries.last().0 == name {
        assert(entries[entries.len() - 1].0 == name);
    } else {
        if none_under(entries, name) {
            assert forall|k: int| 0 <= k < rest.len() implies (#[trigger] rest[k]).0 != name by {
                assert(rest[k] == entries[k]);
            }
        }
        if none_under(rest, name) {
            assert forall|k: int| 0 <= k < entries.len() implies (#[trigger] entries[k]).0
                != name by {
                if k < rest.len() {
                    assert(rest[k] == entries[k]);
                }
            }
        }
        assert forall|j: int| #[trigger] last_under(entries, name, j) implies last_under(
            rest,
            name,
            j,
        ) && rest[j] == entries[j] by {
            assert(j != entries.len() - 1);
            assert forall|k: int| j < k < rest.len() implies (#[trigger] rest[k]).0 != name by {
                assert(rest[k] == entries[k]);
            }
        }
    }
}

/// The items of other documents that are put into a table of symbols take precedence.
pub proof fn table_holds_hosts<I>(
    table: TableView<I>,
    symbols: Seq<(Seq<char>, SymbolView)>,
    exported: Seq<(Seq<char>, I)>,
)
    requires
        table.well_formed(),
        table_holds(table, symbols, Seq::<(Seq<char>, I)>::empty()),
    ensures
        table_holds(table.insert_hosts(exported), symbols, exported),
        table.insert_hosts(exported).well_formed(),
    decreases exported.len(),
{
    let after = table.insert_hosts(exported);
    if exported.len() > 0 {
        let rest = exported.drop_last();
        let (key, item) = exported.last();
        let before = table.insert_hosts(rest);
        table_holds_hosts(table, symbols, rest);
        insert_changes_one_entry(before, key, OfferView::Host(item));
        assert forall|name: Seq<char>| #[trigger] after.keys.contains(name) <==> !none_under(
            symbols,
            name,
        ) || !none_under(exported, name) by {
            assert(before.keys.contains(name) <==> !none_under(symbols, name) || !none_under(
                rest,
                name,
            ));
            lemma_last_of_prefix(exported, name);
        }
        assert forall|p: int| 0 <= p < after.keys.len() implies offered_under(
            #[trigger] after.offers[p],
            after.keys[p],
            symbols,
            exported,
        ) by {
            lemma_last_of_prefix(exported, after.keys[p]);
            if after.keys[p] != key {
                assert(offered_under(before.offers[p], before.keys[p], symbols, rest));
            }
        }
    } else {
        assert(exported =~= Seq::<(Seq<char>, I)>::empty());
    }
}

/// The offers are one for each name in sight or exported by another document, the right one, and
/// behind them the global symbols and the keywords, as they are and in order.
pub open spec fn complete_offers<I>(
    offers: Seq<OfferView<I>>,
    keys: Seq<Seq<char>>,
    symbols: Seq<(Seq<char>, SymbolView)>,
    exported: Seq<(Seq<char>, I)>,
    globals: Seq<I>,
    keywords: Seq<I>,
) -> bool {
    &&& names_once(keys, symbols, exported)
    &&& offers.len() == keys.len() + globals.len() + keywords.len()
    &&& forall|p: int|
        0 <= p < keys.len() ==> offered_under(#[trigger] offers[p], keys[p], symbols, exported)
    &&& forall|i: int|
        0 <= i < globals.len() ==> offers[keys.len() + i] == OfferView::Host(#[trigger] globals[i])
    &&& forall|i: int|
        0 <= i < keywords.len() ==> offers[keys.len() + globals.len() + i] == OfferView::Host(
            #[trigger] keywords[i],
        )
}

/// What is offered by default: one offer for each name that is in sight or that another document
/// exports, the latter first, and behind them all global symbols and all keywords, as they are and
/// in order.
pub proof fn default_offers_are_complete<I>(
    symbols: Seq<(Seq<char>, SymbolView)>,
    exported: Seq<(Seq<char>, I)>,
    globals: Seq<I>,
    keywords: Seq<I>,
)
    ensures
        exists|keys: Seq<Seq<char>>| #[trigger]
            complete_offers(
                default_offers(symbols, exported, globals, keywords),
                keys,
                symbols,
                exported,
                globals,
                keywords,
            ),
{
    let in_sight = TableView::<I>::empty().insert_symbols(symbols);
    let table = in_sight.insert_hosts(exported);
    table_holds_symbols::<I>(symbols);
    table_holds_hosts(in_sight, symbols, exported);
    let offers = default_offers(symbols, exported, globals, keywords);
    assert(offers == table.offers + host_offers(globals) + host_offers(keywords));
    assert forall|p: int| 0 <= p < table.keys.len() implies offered_under(
        #[trigger] offers[p],
        table.keys[p],
        symbols,
        exported,
    ) by {
        assert(offers[p] == table.offers[p]);
    }
    assert forall|i: int| 0 <= i < globals.len() implies offers[table.keys.len() + i]
        == OfferView::Host(#[trigger] globals[i]) by {
        assert(host_offers(globals)[i] == OfferView::Host(globals[i]));
    }
    assert forall|i: int| 0 <= i < keywords.len() implies offers[table.keys.len() + globals.len()
        + i] == OfferView::Host(#[trigger] keywords[i]) by {
        assert(host_offers(keywords)[i] == OfferView::Host(keywords[i]));
    }
    assert(complete_offers(offers, table.keys, symbols, exported, globals, keywords));
}

/// Each item that other documents give is offered, but for one that a later one with the same
/// label replaces.
pub proof fn exported_items_are_offered<I>(
    symbols: Seq<(Seq<char>, SymbolView)>,
    exported: Seq<(Seq<char>, I)>,
    globals: Seq<I>,
    keywords: Seq<I>,
    j: int,
)
    requires
        0 <= j < exported.len(),
        forall|k: int| j < k < exported.len() ==> (#[trigger] exported[k]).0 != exported[j].0,
    ensures
        default_offers(symbols, exported, globals, keywords).contains(
            OfferView::Host(exported[j].1),
        ),
{
    default_offers_are_complete(symbols, exported, globals, keywords);
    let offers = default_offers(symbols, exported, globals, keywords);
    let keys = choose|keys: Seq<Seq<char>>| #[trigger]
        complete_offers(offers, keys, symbols, exported, globals, keywords);
    let name = exported[j].0;
    assert(!none_under(exported, name));
    assert(keys.contains(name));
    let p = choose|p: int| 0 <= p < keys.len() && keys[p] == name;
    assert(last_under(exported, name, j));
    assert(offered_under(offers[p], keys[p], symbols, exported));
    assert(offers[p] == OfferView::Host(exported[j].1));
}

/// Each symbol in sight is offered, but for one that a later one of the same name or an item of
/// another document with that label replaces.
pub proof fn symbols_are_offered<I>(
    symbols: Seq<(Seq<char>, SymbolView)>,
    exported: Seq<(Seq<char>, I)>,
    globals: Seq<I>,
    keywords: Seq<I>,
    j: int,
)
    requires
        0 <= j < symbols.len(),
        forall|k: int| j < k < symbols.len() ==> (#[trigger] symbols[k]).0 != symbols[j].0,
        forall|k: int| 0 <= k < exported.len() ==> (#[trigger] exported[k]).0 != symbols[j].0,
    ensures
        exists|p: int|
            {
                &&& 0 <= p < default_offers(symbols, exported, globals, keywords).len()
                &&& #[trigger] default_offers(
                    symbols,
                    exported,
                    globals,
                    keywords,
                )[p] matches OfferView::Symbol(item)
                &&& shows_symbol(item, symbols[j].1)
            },
{
    default_offers_are_complete(symbols, exported, globals, keywords);
    let offers = default_offers(symbols, exported, globals, keywords);
    let keys = choose|keys: Seq<Seq<char>>| #[trigger]
        complete_offers(offers, keys, symbols, exported, globals, keywords);
    let name = symbols[j].0;
    assert(!none_under(symbols, name));
    assert(keys.contains(name));
    let p = choose|p: int| 0 <= p < keys.len() && keys[p] == name;
    assert(last_under(symbols, name, j));
    assert(none_under(exported, name));
    assert(offered_under(offers[p], keys[p], symbols, exported));
    assert(0 <= p < offers.len());
}

/// Whenever more than one document is open, the host is asked for what the others export, whatever
/// the document itself holds. It is told which document to leave out, which names are in sight,
/// and what makes the edits to this document; every item that it gives counts, under its label.
/// With one document open, nothing comes from others.
pub proof fn other_documents_are_asked<
    D,
    I,
    T,
    W: Fn(&str, &str, &LspModule, Option<ResolvedSpan>, Option<&LoadSite>) -> T,
    X: Fn(Option<&D>, &SymbolTable<I>, &D, &LoadEdits<W>) -> Vec<(String, I)>,
>(
    symbols: Seq<(Seq<char>, SymbolView)>,
    document_uri: D,
    document: LspModule,
    open_documents: usize,
    exported_symbols: X,
    edit: W,
    exported: Seq<(Seq<char>, I)>,
)
    requires
        can_export(
            symbols,
            document_uri,
            document,
            open_documents,
            exported_symbols,
            edit,
            exported,
        ),
    ensures
        open_documents <= 1 ==> exported.len() == 0,
        open_documents > 1 ==> exists|
            table: SymbolTable<I>,
            edits: LoadEdits<W>,
            found: Vec<(String, I)>,
        |
            {
                &&& #[trigger] call_ensures(
                    exported_symbols,
                    (Some(&document_uri), &table, &document_uri, &edits),
                    found,
                )
                &&& *edits.document == document
                &&& *edits.edit == edit
                &&& names_once(table@.keys, symbols, Seq::<(Seq<char>, I)>::empty())
                &&& exported.len() == found@.len()
                &&& forall|i: int|
                    0 <= i < found@.len() ==> (#[trigger] exported[i]).0 == found@[i].0@
                        && exported[i].1 == found@[i].1
            },
{
    if open_documents > 1 {
        table_holds_symbols::<I>(symbols);
        let (table, edits, found) = choose|
            table: SymbolTable<I>,
            edits: LoadEdits<W>,
            found: Vec<(String, I)>,
        |
            {
                &&& table@ == TableView::<I>::empty().insert_symbols(symbols)
                &&& *edits.document == document
                &&& *edits.edit == edit
                &&& #[trigger] call_ensures(
                    exported_symbols,
                    (Some(&document_uri), &table, &document_uri, &edits),
                    found,
                )
                &&& exported == keyed_items(found@)
            };
        assert(names_once(table@.keys, symbols, Seq::<(Seq<char>, I)>::empty()));
        assert(call_ensures(
            exported_symbols,
            (Some(&document_uri), &table, &document_uri, &edits),
            found,
        ));
    }
}

/// The item for a symbol that can be loaded: it has the symbol's name, kind and documentation, and
/// puts the name in the place of `span`.
pub open spec fn shows_import(item: ItemView, symbol: ExportedView, span: ResolvedSpan) -> bool {
    &&& item.label == symbol.name
    &&& shows_kind(item.kind, symbol.kind)
    &&& shows_docs(item.documentation, symbol.name, symbol.docs)
    &&& item.detail is None
    &&& item.insert_text is None
    &&& item.text_edit matches Some(edit)
    &&& edit.new_text == symbol.name
    &&& edit.range.start.line == span.begin.line as u32
    &&& edit.range.start.character == span.begin.column as u32
    &&& edit.range.end.line == span.end.line as u32
    &&& edit.range.end.character == span.end.column as u32
}

/// The item for an exported symbol has its name, kind and documentation, and inserts nothing but
/// its label.
pub proof fn export_is_shown(symbol: ExportedView)
    ensures
        exported_item(symbol).label == symbol.name,
        shows_kind(exported_item(symbol).kind, symbol.kind),
        shows_docs(exported_item(symbol).documentation, symbol.name, symbol.docs),
        inserts_its_label(exported_item(symbol)),
{
}

/// A function is shown as one, anything else as a constant.
pub proof fn kind_is_shown(kind: KindView)
    ensures
        shows_kind(Some(completion_kind(kind)), kind),
{
}

/// A span is written line for line and column for column, each cut to 32 bits.
pub proof fn range_is_that_of_the_span(span: ResolvedSpan)
    ensures
        span.spec_range().start.line == span.begin.line as u32,
        span.spec_range().start.character == span.begin.column as u32,
        span.spec_range().end.line == span.end.line as u32,
        span.spec_range().end.character == span.end.column as u32,
{
}

/// Of the symbols of a module, those that are not loaded yet are offered, all of them and in
/// order.
pub proof fn symbols_not_loaded_are_offered(
    symbols: Seq<ExportedView>,
    loaded: Seq<Seq<char>>,
    span: ResolvedSpan,
)
    ensures
        import_items(symbols, loaded, span).len() == symbols.filter(
            |symbol: ExportedView| !loaded.contains(symbol.name),
        ).len(),
        forall|i: int|
            0 <= i < import_items(symbols, loaded, span).len() ==> shows_import(
                #[trigger] import_items(symbols, loaded, span)[i],
                symbols.filter(|symbol: ExportedView| !loaded.contains(symbol.name))[i],
                span,
            ),
{
}

/// What a module exports is offered where the module could be had, and nothing otherwise.
pub proof fn imports_follow_the_reply<E>(
    reply: Result<Option<Vec<ExportedSymbol>>, E>,
    loaded: Seq<Seq<char>>,
    span: ResolvedSpan,
)
    ensures
        reply matches Ok(Some(symbols)) ==> {
            let kept = exported_views(symbols@).filter(
                |symbol: ExportedView| !loaded.contains(symbol.name),
            );
            &&& imports_of_loaded(reply, loaded, span).len() == kept.len()
            &&& forall|i: int|
                #![trigger imports_of_loaded(reply, loaded, span)[i]]
                0 <= i < kept.len() ==> shows_import(
                    imports_of_loaded(reply, loaded, span)[i],
                    kept[i],
                    span,
                )
        },
        !(reply matches Ok(Some(_))) ==> imports_of_loaded(reply, loaded, span).len() == 0,
{
    if let Ok(Some(symbols)) = reply {
        symbols_not_loaded_are_offered(exported_views(symbols@), loaded, span);
    }
}

/// The item for a parameter: a property with its name, which inserts nothing else.
pub open spec fn shows_parameter(item: ItemView, name: Seq<char>) -> bool {
    &&& item.label == name
    &&& item.kind == Some(CompletionItemKind::Property)
    &&& item.documentation is None
    &&& inserts_its_label(item)
}

/// The items are those for parameters with these names, one for each and in order.
pub open spec fn shows_parameters(items: Seq<ItemView>, names: Seq<Seq<char>>) -> bool {
    &&& items.len() == names.len()
    &&& forall|i: int| 0 <= i < items.len() ==> shows_parameter(#[trigger] items[i], names[i])
}

/// Each name is offered as a parameter, in order; of the names, those that are used already are
/// left out and the others keep their order.
pub proof fn parameters_are_shown(names: Seq<Seq<char>>, used: Seq<Seq<char>>)
    ensures
        shows_parameters(parameter_items(names), names),
        unused_names(names, used) == names.filter(|name: Seq<char>| !used.contains(name)),
{
}

proof fn lemma_last_symbol(symbols: Seq<(Seq<char>, SymbolView)>, name: Seq<char>)
    ensures
        none_under(symbols, name) ==> symbol_named(symbols, name) is None,
        forall|j: int| #[trigger]
            last_under(symbols, name, j) ==> symbol_named(symbols, name) == Some(symbols[j].1),
    decreases symbols.len(),
{
    if symbols.len() > 0 {
        lemma_last_symbol(symbols.drop_last(), name);
        lemma_last_of_prefix(symbols, name);
    }
}

/// In a call of a function of the same document, the parameters of the last symbol of that name
/// are offered that are not given yet, in order: where it is a function whose documentation has
/// parameters.
pub proof fn parameters_of_local_function(
    symbols: Seq<(Seq<char>, SymbolView)>,
    name: Seq<char>,
    used: Seq<Seq<char>>,
    j: int,
)
    requires
        last_under(symbols, name, j),
    ensures
        match symbols[j].1.doc {
            Some(docs) => match function_parameters(docs) {
                Some(names) => if symbols[j].1.kind == SymbolKind::Method {
                    &&& local_parameters(symbols, name, used) matches Some(items)
                    &&& shows_parameters(
                        items,
                        names.filter(|parameter: Seq<char>| !used.contains(parameter)),
                    )
                } else {
                    local_parameters(symbols, name, used) is None
                },
                None => local_parameters(symbols, name, used) is None,
            },
            None => local_parameters(symbols, name, used) is None,
        },
{
    lemma_last_symbol(symbols, name);
}

/// A name that is not in sight has no parameters.
pub proof fn no_parameters_of_unknown_name(
    symbols: Seq<(Seq<char>, SymbolView)>,
    name: Seq<char>,
    used: Seq<Seq<char>>,
)
    requires
        none_under(symbols, name),
    ensures
        local_parameters(symbols, name, used) is None,
{
    lemma_last_symbol(symbols, name);
}

/// The outcome of asking for the parameters of something that has none.
pub open spec fn offers_nothing<E>(outcome: Result<Option<Seq<ItemView>>, E>) -> bool {
    outcome == Ok::<Option<Seq<ItemView>>, E>(None)
}

/// The outcome of asking for the parameters of a symbol that another module exports: all
/// arguments of a function, in order, whatever else is known of it; nothing for anything else.
pub open spec fn offers_arguments<E>(
    outcome: Result<Option<Seq<ItemView>>, E>,
    symbol: Option<ExportedSymbol>,
) -> bool {
    match symbol {
        Some(symbol) => match symbol.kind {
            ExportedSymbolKind::Function { argument_names } => {
                &&& outcome matches Ok(Some(items))
                &&& items.len() == argument_names@.len()
                &&& forall|i: int|
                    0 <= i < items.len() ==> shows_parameter(
                        #[trigger] items[i],
                        argument_names@[i]@,
                    )
            },
            ExportedSymbolKind::Any => offers_nothing(outcome),
        },
        None => offers_nothing(outcome),
    }
}

/// For a loaded symbol whose kind is a function, exactly its arguments are offered, in order,
/// whatever its name and whether or not it is documented; for anything else nothing is.
pub proof fn parameters_of_exported_function(symbol: Option<ExportedSymbol>)
    ensures
        offers_arguments::<()>(
            Ok(exported_parameters(opt_exported(symbol))),
            symbol,
        ),
{
}

/// The entry at `i` is the first with the key `name`.
pub open spec fn first_under<V>(entries: Seq<(Seq<char>, V)>, name: Seq<char>, i: int) -> bool {
    &&& 0 <= i < entries.len()
    &&& entries[i].0 == name
    &&& forall|k: int| 0 <= k < i ==> (#[trigger] entries[k]).0 != name
}

/// The outcome of asking for the parameters of the global `name`: all of those of the first global
/// symbol of that name, in order, where it is a function.
pub open spec fn offers_global<E>(
    outcome: Result<Option<Seq<ItemView>>, E>,
    globals: Seq<(Seq<char>, DocItem)>,
    name: Seq<char>,
) -> bool {
    &&& none_under(globals, name) ==> offers_nothing(outcome)
    &&& forall|i: int| #[trigger]
        first_under(globals, name, i) ==> match function_parameters(globals[i].1) {
            Some(names) => {
                &&& outcome matches Ok(Some(items))
                &&& shows_parameters(items, names)
            },
            None => offers_nothing(outcome),
        }
}

proof fn lemma_first_member(globals: Seq<(Seq<char>, DocItem)>, name: Seq<char>)
    ensures
        none_under(globals, name) ==> member_named(globals, name) is None,
        forall|i: int| #[trigger]
            first_under(globals, name, i) ==> member_named(globals, name) == Some(globals[i].1),
    decreases globals.len(),
{
    if globals.len() > 0 {
        let rest = globals.drop_first();
        lemma_first_member(rest, name);
        if globals[0].0 != name {
            if none_under(globals, name) {
                assert forall|k: int| 0 <= k < rest.len() implies (#[trigger] rest[k]).0
                    != name by {
                    assert(rest[k] == globals[k + 1]);
                }
            }
            assert forall|i: int| #[trigger] first_under(globals, name, i) implies member_named(
                globals,
                name,
            ) == Some(globals[i].1) by {
                assert(rest[i - 1] == globals[i]);
                assert forall|k: int| 0 <= k < i - 1 implies (#[trigger] rest[k]).0 != name by {
                    assert(rest[k] == globals[k + 1]);
                }
                assert(first_under(rest, name, i - 1));
            }
        } else {
            assert(globals[0].0 == name);
            assert forall|i: int| #[trigger] first_under(globals, name, i) implies i == 0 by {}
        }
    }
}

/// The parameters of a global function are those of the first global symbol of that name.
pub proof fn parameters_of_global_function(globals: Seq<(Seq<char>, DocItem)>, name: Seq<char>)
    ensures
        offers_global::<()>(Ok(global_parameters(globals, name)), globals, name),
{
    lemma_first_member(globals, name);
}

/// Which parameters are offered in a call, by what is called. For something of the document, the
/// symbols in sight where it is defined decide. For something loaded, the outcome of loading its
/// module does: an error stays one, and of a module that could be had the symbol of that name. For
/// a name that is neither, the global symbols do. What cannot be a function has no parameters.
pub proof fn parameters_follow_the_definition<
    U,
    M,
    E,
    S: Fn(ResolvedPos) -> Vec<(String, Symbol)>,
    R: Fn(&str) -> Result<U, E>,
    L: Fn(&U) -> Result<Option<M>, E>,
    X: Fn(&M, &str) -> Option<ExportedSymbol>,
    G: Fn() -> DocModule,
>(
    definition: IdentifierDefinition,
    used: Seq<Seq<char>>,
    symbols_at: S,
    resolve: R,
    fetch: L,
    exported_symbol: X,
    environment: G,
    outcome: Result<Option<Seq<ItemView>>, E>,
)
    requires
        can_have_parameters(
            definition,
            used,
            symbols_at,
            resolve,
            fetch,
            exported_symbol,
            environment,
            outcome,
        ),
    ensures
        match definition {
            IdentifierDefinition::Location { destination, name } => exists|
                symbols: Vec<(String, Symbol)>,
            |
                {
                    &&& #[trigger] call_ensures(symbols_at, (destination.begin,), symbols)
                    &&& outcome matches Ok(items)
                    &&& items == local_parameters(keyed_symbols(symbols@), name@, used)
                },
            IdentifierDefinition::LoadedLocation { path, name } => exists|
                reply: Result<Option<M>, E>,
            |
                {
                    &&& #[trigger] can_load(path@, resolve, fetch, reply)
                    &&& reply matches Err(error) ==> outcome == Err::<Option<Seq<ItemView>>, E>(
                        error,
                    )
                    &&& reply matches Ok(None) ==> offers_nothing(outcome)
                    &&& reply matches Ok(Some(module)) ==> exists|
                        asked: &str,
                        symbol: Option<ExportedSymbol>,
                    |
                        {
                            &&& asked@ == name@
                            &&& #[trigger] call_ensures(exported_symbol, (&module, asked), symbol)
                            &&& offers_arguments(outcome, symbol)
                        }
                },
            IdentifierDefinition::Unresolved { name } => exists|globals: DocModule|
                {
                    &&& #[trigger] call_ensures(environment, (), globals)
                    &&& offers_global(outcome, module_members(globals), name@)
                },
            IdentifierDefinition::LoadPath => offers_nothing(outcome),
            IdentifierDefinition::StringLiteral => offers_nothing(outcome),
            IdentifierDefinition::NotFound => offers_nothing(outcome),
        },
{
    match definition {
        IdentifierDefinition::LoadedLocation { path, name } => {
            let reply = choose|reply: Result<Option<M>, E>|
                {
                    &&& #[trigger] can_load(path@, resolve, fetch, reply)
                    &&& match reply {
                        Ok(Some(module)) => exists|asked: &str, symbol: Option<ExportedSymbol>|
                            {
                                &&& asked@ == name@
                                &&& #[trigger] call_ensures(
                                    exported_symbol,
                                    (&module, asked),
                                    symbol,
                                )
                                &&& outcome == Ok::<_, E>(
                                    exported_parameters(
                                        opt_exported(symbol),
                                    ),
                                )
                            },
                        Ok(None) => outcome == Ok::<Option<Seq<ItemView>>, E>(None),
                        Err(error) => outcome == Err::<Option<Seq<ItemView>>, E>(error),
                    }
                };
            assert(can_load(path@, resolve, fetch, reply));
            if let Ok(Some(module)) = reply {
                let (asked, symbol) = choose|asked: &str, symbol: Option<ExportedSymbol>|
                    {
                        &&& asked@ == name@
                        &&& #[trigger] call_ensures(exported_symbol, (&module, asked), symbol)
                        &&& outcome == Ok::<_, E>(
                            exported_parameters(
                                opt_exported(symbol),
                            ),
                        )
                    };
                parameters_of_exported_function(symbol);
                assert(offers_arguments(outcome, symbol));
            }
        },
        IdentifierDefinition::Unresolved { name } => {
            let globals = choose|globals: DocModule|
                {
                    &&& #[trigger] call_ensures(environment, (), globals)
                    &&& outcome == Ok::<_, E>(
                        global_parameters(module_members(globals), name@),
                    )
                };
            lemma_first_member(module_members(globals), name@);
            assert(offers_global(outcome, module_members(globals), name@));
        },
        _ => {},
    }
}

/// Of a dotted name the first part is what is called, of a plain one the name itself.
pub proof fn root_of_definition(definition: Definition)
    ensures
        definition matches Definition::Identifier(identifier) ==> definition.spec_root()
            == identifier,
        definition matches Definition::Dotted(dotted) ==> definition.spec_root()
            == dotted.root_definition_location,
{
}

/// The item for one way to complete a string: it is shown under its value, and writes the text
/// that the host gave for it or, where it gave none, the value. It replaces the string from the
/// given offset to its end.
pub open spec fn shows_result(
    item: ItemView,
    result: StringResultView,
    span: ResolvedSpan,
) -> bool {
    &&& item.label == result.value
    &&& item.kind == Some(result.kind)
    &&& item.detail is None
    &&& item.documentation is None
    &&& item.insert_text == result.insert_text
    &&& item.text_edit matches Some(edit)
    &&& result.insert_text matches Some(text) ==> edit.new_text == text
    &&& result.insert_text is None ==> edit.new_text == result.value
    &&& edit.range.start.line == span.begin.line as u32
    &&& edit.range.start.character == span.begin.column as u32 + result.insert_text_offset as u32
    &&& edit.range.end.line == span.end.line as u32
    &&& edit.range.end.character == span.end.column as u32
}

/// Each way to complete a string is offered, in order, with the edit that the host asked for.
pub proof fn results_are_offered_as_given(results: Seq<StringResultView>, span: ResolvedSpan)
    requires
        columns_fit(results, span),
    ensures
        string_items(results, span).len() == results.len(),
        forall|i: int|
            0 <= i < results.len() ==> shows_result(
                #[trigger] string_items(results, span)[i],
                results[i],
                span,
            ),
{
    assert forall|i: int| 0 <= i < results.len() implies shows_result(
        #[trigger] string_items(results, span)[i],
        results[i],
        span,
    ) by {
        assert(insert_column(results[i], span) <= u32::MAX);
    }
}

/// The only results that cannot be offered are those that would be inserted beyond the last column
/// of the protocol.
pub proof fn columns_fit_up_to_the_last(results: Seq<StringResultView>, span: ResolvedSpan)
    ensures
        columns_fit(results, span) <==> forall|i: int|
            0 <= i < results.len() ==> span.begin.column as u32 + (
            #[trigger] results[i]).insert_text_offset as u32 <= u32::MAX,
{
    if forall|i: int|
        0 <= i < results.len() ==> span.begin.column as u32 + (
        #[trigger] results[i]).insert_text_offset as u32 <= u32::MAX {
        assert forall|i: int| 0 <= i < results.len() implies insert_column(
            #[trigger] results[i],
            span,
        ) <= u32::MAX by {}
    }
    if columns_fit(results, span) {
        assert forall|i: int| 0 <= i < results.len() implies span.begin.column as u32 + (
        #[trigger] results[i]).insert_text_offset as u32 <= u32::MAX by {
            assert(insert_column(results[i], span) <= u32::MAX);
        }
    }
}

/// A plain item has its label and its kind, and nothing else.
pub proof fn plain_item_is_plain(label: Seq<char>, kind: CompletionItemKind)
    ensures
        plain_item(label, kind).label == label,
        plain_item(label, kind).kind == Some(kind),
        plain_item(label, kind).documentation is None,
        inserts_its_label(plain_item(label, kind)),
{
}

/// A type is offered as one, under its name and by that name alone.
pub proof fn types_insert_their_name(name: Seq<char>)
    ensures
        type_item(name).label == name,
        type_item(name).kind == Some(CompletionItemKind::TypeParameter),
        type_item(name).documentation is None,
        inserts_its_label(type_item(name)),
{
}

/// The names that parameters have, in order.
pub open spec fn present_names(parameters: Seq<Option<Seq<char>>>) -> Seq<Option<Seq<char>>> {
    parameters.filter(|parameter: Option<Seq<char>>| parameter is Some)
}

/// `names` are those that `parameters` have, in order.
pub open spec fn names_of(names: Seq<Seq<char>>, parameters: Seq<Option<Seq<char>>>) -> bool {
    &&& names.len() == present_names(parameters).len()
    &&& forall|i: int|
        0 <= i < names.len() ==> Some(#[trigger] names[i]) == present_names(parameters)[i]
}

proof fn lemma_names_of(parameters: Seq<Option<Seq<char>>>)
    ensures
        names_of(named_parameters(parameters), parameters),
    decreases parameters.len(),
{
    reveal(Seq::filter);
    if parameters.len() > 0 {
        lemma_names_of(parameters.drop_last());
    }
}

/// What is bound to a lambda is a function with the names of its parameters; what is bound to
/// anything else is not known to be one.
pub proof fn lambdas_are_functions(value: ValueView)
    ensures
        match value {
            ValueView::Lambda { parameters } => {
                &&& kind_of_value(value) matches KindView::Function { argument_names }
                &&& names_of(argument_names, parameters)
            },
            ValueView::Call { .. } => kind_of_value(value) is Any,
            ValueView::Other => kind_of_value(value) is Any,
        },
{
    if let ValueView::Lambda { parameters } = value {
        lemma_names_of(parameters);
    }
}

/// What a module holds of a statement: of a function its name, the names of its parameters and the
/// documentation that there is for it; of an assignment both sides, and that it binds a function
/// exactly where its right side is a lambda; of a `load` all of it.
pub open spec fn holds_statement<F: Fn(usize) -> Option<DocFunction>>(
    statement: StatementView,
    syntax: SyntaxView,
    left: TargetView,
    call: Option<CallView>,
    lambda: Option<Seq<Option<Seq<char>>>>,
    docs_of_def: F,
    i: usize,
) -> bool {
    match syntax {
        SyntaxView::Def { name, parameters } => {
            &&& statement matches StatementView::Def { name: defined, argument_names, docs }
            &&& defined == name
            &&& names_of(argument_names, parameters)
            &&& call_ensures(docs_of_def, (i,), docs)
        },
        SyntaxView::Assign => {
            &&& statement matches StatementView::Assign { target, names, kind, value }
            &&& target == left.identifier
            &&& names == left.names
            &&& call matches Some(call) ==> {
                &&& value == ValueView::Call { function: call.function, arguments: call.arguments }
                &&& kind is Any
            }
            &&& call is None ==> match lambda {
                Some(parameters) => {
                    &&& value == ValueView::Lambda { parameters }
                    &&& kind matches KindView::Function { argument_names }
                    &&& names_of(argument_names, parameters)
                },
                None => value is Other && kind is Any,
            }
        },
        SyntaxView::Load { module, args } => statement == StatementView::Load { module, args },
        SyntaxView::Other => statement is Other,
    }
}

/// The `load` statements among `nodes`, in order.
pub open spec fn loads_among(nodes: Seq<Option<LoadSiteView>>) -> Seq<Option<LoadSiteView>> {
    nodes.filter(|node: Option<LoadSiteView>| node is Some)
}

proof fn lemma_loads_among(nodes: Seq<Option<LoadSiteView>>)
    ensures
        present_sites(nodes).len() == loads_among(nodes).len(),
        forall|i: int|
            0 <= i < present_sites(nodes).len() ==> Some(#[trigger] present_sites(nodes)[i])
                == loads_among(nodes)[i],
    decreases nodes.len(),
{
    reveal(Seq::filter);
    if nodes.len() > 0 {
        lemma_loads_among(nodes.drop_last());
    }
}

/// A module holds every top-level statement and every `load` below the root, in order.
pub proof fn module_holds_its_parts<F: Fn(usize) -> Option<DocFunction>>(
    module: ModuleView,
    syntax: Seq<SyntaxView>,
    targets: Seq<TargetView>,
    calls: Seq<Option<CallView>>,
    lambdas: Seq<Option<Seq<Option<Seq<char>>>>>,
    nodes: Seq<Option<LoadSiteView>>,
    docs_of_def: F,
)
    requires
        made_of_parts(module, syntax, targets, calls, lambdas, nodes, docs_of_def),
    ensures
        module.statements.len() == syntax.len(),
        forall|i: int|
            0 <= i < syntax.len() ==> holds_statement(
                #[trigger] module.statements[i],
                syntax[i],
                targets[i],
                calls[i],
                lambdas[i],
                docs_of_def,
                i as usize,
            ),
        module.loads.len() == loads_among(nodes).len(),
        forall|i: int|
            0 <= i < module.loads.len() ==> Some(#[trigger] module.loads[i]) == loads_among(
                nodes,
            )[i],
{
    lemma_loads_among(nodes);
    assert forall|i: int| 0 <= i < syntax.len() implies holds_statement(
        #[trigger] module.statements[i],
        syntax[i],
        targets[i],
        calls[i],
        lambdas[i],
        docs_of_def,
        i as usize,
    ) by {
        match syntax[i] {
            SyntaxView::Def { parameters, .. } => {
                lemma_names_of(parameters);
            },
            SyntaxView::Assign => {
                if let Some(parameters) = lambdas[i] {
                    lemma_names_of(parameters);
                }
            },
            _ => {},
        }
    }
}

/// The last `load` is the last of the list, whichever module it loads.
pub proof fn last_load_is_last(sites: Seq<LoadSiteView>)
    ensures
        sites.len() == 0 ==> last_span(sites) is None,
        sites.len() > 0 ==> last_span(sites) == Some(sites[sites.len() - 1].span),
{
}

/// An edit that loads a symbol is told where the last `load` of the document stands, whichever
/// module it loads, and which is the last `load` of the module in question.
pub proof fn edits_know_the_loads<
    T,
    W: Fn(&str, &str, &LspModule, Option<ResolvedSpan>, Option<&LoadSite>) -> T,
>(document: LspModule, edit: W, module: &str, symbol: &str, change: T)
    requires
        can_edit(document, edit, module, symbol, change),
    ensures
        exists|last: Option<ResolvedSpan>, site: Option<&LoadSite>|
            {
                &&& #[trigger] call_ensures(edit, (module, symbol, &document, last, site), change)
                &&& match last {
                    Some(span) => document@.loads.len() > 0 && document@.loads[document@.loads.len()
                        - 1].span == span,
                    None => document@.loads.len() == 0,
                }
                &&& match site {
                    Some(site) => exists|i: int|
                        {
                            &&& 0 <= i < document@.loads.len()
                            &&& #[trigger] document@.loads[i] == site@
                            &&& document@.loads[i].module == module@
                            &&& forall|j: int|
                                i < j < document@.loads.len() ==> (
                                #[trigger] document@.loads[j]).module != module@
                        },
                    None => forall|i: int|
                        0 <= i < document@.loads.len() ==> (#[trigger] document@.loads[i]).module
                            != module@,
                }
            },
{
    let loads = document@.loads;
    let site = choose|site: Option<&LoadSite>|
        {
            &&& #[trigger] call_ensures(
                edit,
                (module, symbol, &document, last_span(loads), site),
                change,
            )
            &&& last_site(loads, module@) == (match site {
                Some(site) => Some(site@),
                None => None,
            })
        };
    last_load_of_module_counts(loads, module@);
    assert(call_ensures(edit, (module, symbol, &document, last_span(loads), site), change));
}

/// `text` holds the characters of `string`, where there is one.
pub open spec fn same_text(text: Option<Seq<char>>, string: Option<String>) -> bool {
    match string {
        Some(string) => text == Some(string@),
        None => text is None,
    }
}

/// `texts` hold the characters of `strings`, one by one.
pub open spec fn same_texts(texts: Seq<Seq<char>>, strings: Seq<String>) -> bool {
    &&& texts.len() == strings.len()
    &&& forall|i: int| 0 <= i < strings.len() ==> #[trigger] texts[i] == strings[i]@
}

/// `texts` hold the characters of `strings`, one by one, where there are any.
pub open spec fn same_opt_texts(
    texts: Seq<Option<Seq<char>>>,
    strings: Seq<Option<String>>,
) -> bool {
    &&& texts.len() == strings.len()
    &&& forall|i: int| 0 <= i < strings.len() ==> same_text(#[trigger] texts[i], strings[i])
}

/// A contract that speaks of items speaks of all that an editor gets.
pub proof fn items_are_seen_whole(items: Seq<CompletionItem>, i: int)
    requires
        0 <= i < items.len(),
    ensures
        item_views(items).len() == items.len(),
        item_views(items)[i].label == items[i].label@,
        item_views(items)[i].kind == items[i].kind,
        same_text(item_views(items)[i].detail, items[i].detail),
        same_text(item_views(items)[i].insert_text, items[i].insert_text),
        match items[i].documentation {
            Some(markup) => {
                &&& item_views(items)[i].documentation matches Some(shown)
                &&& shown.kind == markup.kind
                &&& shown.value == markup.value@
            },
            None => item_views(items)[i].documentation is None,
        },
        match items[i].text_edit {
            Some(edit) => {
                &&& item_views(items)[i].text_edit matches Some(shown)
                &&& shown.range == edit.range
                &&& shown.new_text == edit.new_text@
            },
            None => item_views(items)[i].text_edit is None,
        },
{
}

/// Offers are seen as they are, one by one and in order.
pub proof fn offers_are_seen_whole<I>(offers: Seq<Offer<I>>, i: int)
    requires
        0 <= i < offers.len(),
    ensures
        offer_views(offers).len() == offers.len(),
        match offers[i] {
            Offer::Symbol(item) => offer_views(offers)[i] == OfferView::<I>::Symbol(item@),
            Offer::Host(item) => offer_views(offers)[i] == OfferView::Host(item),
        },
{
}

/// What a scan finds is seen with the root that it names.
pub proof fn context_is_seen_whole(context: DotContext)
    ensures
        context matches DotContext::Member { root } ==> context@ == (DotView::Member {
            root: root@,
        }),
        context is Suppress ==> context@ == DotView::Suppress,
{
}

/// Lists of strings are seen one by one and in order.
pub proof fn strings_are_seen_whole(strings: Seq<String>)
    ensures
        same_texts(texts(strings), strings),
{
}

/// Symbols in sight are seen with all that is known of them, one by one and in order.
pub proof fn symbols_are_seen_whole(symbols: Seq<(String, Symbol)>, i: int)
    requires
        0 <= i < symbols.len(),
    ensures
        keyed_symbols(symbols).len() == symbols.len(),
        keyed_symbols(symbols)[i].0 == symbols[i].0@,
        keyed_symbols(symbols)[i].1.name == symbols[i].1.name@,
        same_text(keyed_symbols(symbols)[i].1.detail, symbols[i].1.detail),
        keyed_symbols(symbols)[i].1.kind == symbols[i].1.kind,
        keyed_symbols(symbols)[i].1.doc == symbols[i].1.doc,
        match symbols[i].1.param {
            Some((starred_name, docs)) => keyed_symbols(symbols)[i].1.param == Some(
                (starred_name@, docs),
            ),
            None => keyed_symbols(symbols)[i].1.param is None,
        },
{
}

/// `view` is what a contract sees of `kind`.
pub open spec fn same_kind(view: KindView, kind: ExportedSymbolKind) -> bool {
    match kind {
        ExportedSymbolKind::Any => view is Any,
        ExportedSymbolKind::Function { argument_names: strings } => {
            &&& view matches KindView::Function { argument_names }
            &&& same_texts(argument_names, strings@)
        },
    }
}

/// Exported symbols are seen with all that is known of them, one by one and in order.
pub proof fn exports_are_seen_whole(symbols: Seq<ExportedSymbol>, i: int)
    requires
        0 <= i < symbols.len(),
    ensures
        exported_views(symbols).len() == symbols.len(),
        exported_views(symbols)[i].name == symbols[i].name@,
        exported_views(symbols)[i].docs == symbols[i].docs,
        same_kind(exported_views(symbols)[i].kind, symbols[i].kind),
{
}

/// Items and documented names of the host are seen with their keys, one by one and in order.
pub proof fn entries_are_seen_whole<I>(
    items: Seq<(String, I)>,
    entries: Seq<(String, DocItem)>,
    i: int,
)
    ensures
        keyed_items(items).len() == items.len(),
        member_views(entries).len() == entries.len(),
        0 <= i < items.len() ==> keyed_items(items)[i] == (items[i].0@, items[i].1),
        0 <= i < entries.len() ==> member_views(entries)[i] == (entries[i].0@, entries[i].1),
{
}

/// Results for a string are seen with all that the host says of them, one by one and in order.
pub proof fn results_are_seen_whole(results: Seq<StringCompletionResult>, i: int)
    requires
        0 <= i < results.len(),
    ensures
        result_views(results).len() == results.len(),
        result_views(results)[i].value == results[i].value@,
        same_text(result_views(results)[i].insert_text, results[i].insert_text),
        result_views(results)[i].insert_text_offset == results[i].insert_text_offset,
        result_views(results)[i].kind == results[i].kind,
{
}

/// `view` is what a contract sees of the loaded names `args`.
pub open spec fn same_load_args(view: Seq<LoadArgView>, args: Seq<LoadArg>) -> bool {
    &&& view.len() == args.len()
    &&& forall|i: int|
        0 <= i < args.len() ==> (#[trigger] view[i]).local == args[i].local@ && view[i].their
            == args[i].their@
}

/// `view` is what a contract sees of `argument`.
pub open spec fn same_argument(view: ArgumentView, argument: Argument) -> bool {
    match argument {
        Argument::Named { field: string, identifier: name } => {
            &&& view matches ArgumentView::Named { field, identifier }
            &&& field == string@
            &&& same_text(identifier, name)
        },
        Argument::Other => view is Other,
    }
}

/// `view` is what a contract sees of `arguments`.
pub open spec fn same_arguments(view: Seq<ArgumentView>, arguments: Seq<Argument>) -> bool {
    &&& view.len() == arguments.len()
    &&& forall|i: int|
        0 <= i < arguments.len() ==> same_argument(#[trigger] view[i], arguments[i])
}

/// `view` is what a contract sees of `value`.
pub open spec fn same_value(view: ValueView, value: Value) -> bool {
    match value {
        Value::Call { function: name, arguments: given } => {
            &&& view matches ValueView::Call { function, arguments }
            &&& same_text(function, name)
            &&& same_arguments(arguments, given@)
        },
        Value::Lambda { parameters: given } => {
            &&& view matches ValueView::Lambda { parameters }
            &&& same_opt_texts(parameters, given@)
        },
        Value::Other => view is Other,
    }
}

/// A module is seen with all that it holds: its statements and its `load` statements, one by one
/// and in order.
pub proof fn modules_are_seen_whole(module: LspModule, i: int)
    ensures
        module@.statements.len() == module.statements@.len(),
        module@.loads.len() == module.loads.sites@.len(),
        0 <= i < module.statements@.len() ==> match module.statements@[i] {
            Statement::Def { name: string, argument_names: strings, docs: function } => {
                &&& module@.statements[i] matches StatementView::Def { name, argument_names, docs }
                &&& name == string@
                &&& same_texts(argument_names, strings@)
                &&& docs == function
            },
            Statement::Assign { target: string, names: strings, kind: bound, value: right } => {
                &&& module@.statements[i] matches StatementView::Assign {
                    target,
                    names,
                    kind,
                    value,
                }
                &&& same_text(target, string)
                &&& same_texts(names, strings@)
                &&& same_kind(kind, bound)
                &&& same_value(value, right)
            },
            Statement::Load { module: path, args: loaded } => {
                &&& module@.statements[i] matches StatementView::Load { module: text, args }
                &&& text == path@
                &&& same_load_args(args, loaded@)
            },
            Statement::Other => module@.statements[i] is Other,
        },
        0 <= i < module.loads.sites@.len() ==> {
            let site = module.loads.sites@[i];
            &&& module@.loads[i].module == site.module@
            &&& same_load_args(module@.loads[i].args, site.args@)
            &&& module@.loads[i].span == site.span
        },
{
}

/// The parts of a syntax tree are seen whole.
pub proof fn parts_are_seen_whole(
    syntax: StatementSyntax,
    target: Target,
    call: Option<Call>,
    lambda: Option<Vec<Option<String>>>,
    node: Option<LoadSite>,
)
    ensures
        match syntax {
            StatementSyntax::Def { name: string, parameters: given } => {
                &&& syntax@ matches SyntaxView::Def { name, parameters }
                &&& name == string@
                &&& same_opt_texts(parameters, given@)
            },
            StatementSyntax::Assign => syntax@ is Assign,
            StatementSyntax::Load { module: path, args: loaded } => {
                &&& syntax@ matches SyntaxView::Load { module, args }
                &&& module == path@
                &&& same_load_args(args, loaded@)
            },
            StatementSyntax::Other => syntax@ is Other,
        },
        same_text(target@.identifier, target.identifier),
        same_texts(target@.names, target.names@),
        match call {
            Some(call) => {
                &&& opt_call(Some(call)) matches Some(seen)
                &&& same_text(seen.function, call.function)
                &&& same_arguments(seen.arguments, call.arguments@)
            },
            None => opt_call(call) is None,
        },
        match lambda {
            Some(parameters) => {
                &&& opt_lambda(Some(parameters)) matches Some(seen)
                &&& same_opt_texts(seen, parameters@)
            },
            None => opt_lambda(lambda) is None,
        },
        match node {
            Some(site) => {
                &&& opt_site(Some(site)) matches Some(seen)
                &&& seen.module == site.module@
                &&& same_load_args(seen.args, site.args@)
                &&& seen.span == site.span
            },
            None => opt_site(node) is None,
        },
{
}

/// The lists of parts are seen one by one and in order.
pub proof fn part_lists_are_seen_whole(
    nodes: Seq<StatementSyntax>,
    targets: Seq<Target>,
    calls: Seq<Option<Call>>,
    lambdas: Seq<Option<Vec<Option<String>>>>,
    sites: Seq<Option<LoadSite>>,
    i: int,
)
    ensures
        syntax_views(nodes).len() == nodes.len(),
        target_views(targets).len() == targets.len(),
        call_views(calls).len() == calls.len(),
        lambda_views(lambdas).len() == lambdas.len(),
        site_views(sites).len() == sites.len(),
        0 <= i < nodes.len() ==> syntax_views(nodes)[i] == nodes[i]@,
        0 <= i < targets.len() ==> target_views(targets)[i] == targets[i]@,
        0 <= i < calls.len() ==> call_views(calls)[i] == opt_call(calls[i]),
        0 <= i < lambdas.len() ==> lambda_views(lambdas)[i] == opt_lambda(lambdas[i]),
        0 <= i < sites.len() ==> site_views(sites)[i] == opt_site(sites[i]),
{
}

} // verus!
