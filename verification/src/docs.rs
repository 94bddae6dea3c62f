//! What is known of the documentation that the `starlark` crate holds for symbols.
//!
//! A documented item is opaque here. What the library reads of it comes from the functions of
//! this module, each of which makes one call into that crate.

use starlark::docs::markdown::{render_doc_item_no_link, render_doc_param};
use starlark::docs::{DocFunction, DocItem, DocMember, DocModule, DocParam};
use vstd::prelude::*;

use crate::item::texts;

verus! {

/// The documentation of a symbol.
#[verifier::external_type_specification]
#[verifier::external_body]
pub struct ExDocItem(DocItem);

/// The documentation of a function.
#[verifier::external_type_specification]
#[verifier::external_body]
pub struct ExDocFunction(DocFunction);

/// The documentation of a parameter.
#[verifier::external_type_specification]
#[verifier::external_body]
pub struct ExDocParam(DocParam);

/// The documentation of the names that an environment defines.
#[verifier::external_type_specification]
#[verifier::external_body]
pub struct ExDocModule(DocModule);

/// The Markdown text for a symbol that is shown under `name`.
pub uninterp spec fn rendered_item(name: Seq<char>, item: DocItem) -> Seq<char>;

/// The Markdown text for a parameter that is shown under `starred_name`.
pub uninterp spec fn rendered_param(starred_name: Seq<char>, param: DocParam) -> Seq<char>;

/// The documentation of a function, as that of a symbol.
pub uninterp spec fn function_item(function: DocFunction) -> DocItem;

/// The names of the parameters of a documented function other than `*args` and `**kwargs`, in
/// order; `None` for what is no function.
pub uninterp spec fn function_parameters(item: DocItem) -> Option<Seq<Seq<char>>>;

/// The names that an environment defines, each with its documentation, in its order.
pub uninterp spec fn module_members(module: DocModule) -> Seq<(Seq<char>, DocItem)>;

/// Calls `starlark::docs::markdown::render_doc_item_no_link`. The contract claims that the text
/// depends on the name and the item alone.
#[verifier::external_body]
pub(crate) fn render_item(name: &str, item: &DocItem) -> (r: String)
    ensures
        r@ == rendered_item(name@, *item),
{
    render_doc_item_no_link(name, item)
}

/// Calls `starlark::docs::markdown::render_doc_param`. The contract claims that the text depends
/// on the name and the parameter alone.
#[verifier::external_body]
pub(crate) fn render_param(starred_name: String, param: &DocParam) -> (r: String)
    ensures
        r@ == rendered_param(starred_name@, *param),
{
    render_doc_param(starred_name, param)
}

/// Makes a `starlark::docs::DocItem` of the variants `Member` and `Function` of a copy of
/// `function`. The contract claims that it depends on the function alone, and that it is the
/// documentation of a function: [`regular_parameters`] gives names for it.
#[verifier::external_body]
pub(crate) fn item_of_function(function: &DocFunction) -> (r: DocItem)
    ensures
        r == function_item(*function),
        function_parameters(r) is Some,
{
    DocItem::Member(DocMember::Function(function.clone()))
}

/// Calls `starlark::docs::DocParams::regular_params` on the parameters of a function, and takes
/// the name of each. The contract claims that the names depend on the item alone.
#[verifier::external_body]
pub(crate) fn regular_parameters(item: &DocItem) -> (r: Option<Vec<String>>)
    ensures
        function_parameters(*item) == (match r {
            Some(names) => Some(texts(names@)),
            None => None,
        }),
{
    match item {
        DocItem::Member(DocMember::Function(function)) => {
            Some(function.params.regular_params().map(|param| param.name.clone()).collect())
        },
        _ => None,
    }
}

/// Takes the entries out of `starlark::docs::DocModule::members`, a map that keeps the order in
/// which its entries were put in. The contract claims that they depend on the module alone.
#[verifier::external_body]
pub(crate) fn members(module: DocModule) -> (r: Vec<(String, DocItem)>)
    ensures
        module_members(module) == r@.map_values(|entry: (String, DocItem)| (entry.0@, entry.1)),
{
    module.members.into_iter().collect()
}

} // verus!
