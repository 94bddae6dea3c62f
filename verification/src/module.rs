//! The parts of a module that completion reads.

use starlark::docs::DocFunction;
use starlark_syntax::syntax::AstModule;
use vstd::prelude::*;

use crate::item::{opt_text, texts, ResolvedSpan};
use crate::symbol::{collect_names, kind_of_value, named_parameters, ExportedSymbolKind, KindView};
use crate::syntax::{
    assigned_calls, assigned_lambdas, assignment_targets, list_calls, list_lambdas,
    list_root_loads, list_statements, list_targets, load_args, opt_call, opt_lambda, opt_site,
    root_loads, top_level_syntax, Call, CallView, LoadArg, LoadArgView, LoadSite, LoadSiteView,
    StatementSyntax, SyntaxView, Target, TargetView, Value, ValueView,
};

verus! {

/// A top-level statement.
#[derive(Debug, Clone, PartialEq)]
pub enum Statement {
    /// The definition of a function.
    Def {
        /// The name of the function.
        name: String,
        /// The names of its parameters, in order.
        argument_names: Vec<String>,
        /// Its documentation.
        docs: Option<DocFunction>,
    },
    /// An assignment.
    Assign {
        /// What is assigned to, where it is one identifier.
        target: Option<String>,
        /// The names that are bound, in order.
        names: Vec<String>,
        /// What the bound names are.
        kind: ExportedSymbolKind,
        /// What is assigned.
        value: Value,
    },
    /// A `load`.
    Load {
        /// The path of the loaded module.
        module: String,
        /// The loaded names, in order.
        args: Vec<LoadArg>,
    },
    /// Any other statement.
    Other,
}

/// The mathematical counterpart of [`Statement`].
pub enum StatementView {
    /// The definition of a function.
    Def {
        /// The name of the function.
        name: Seq<char>,
        /// The names of its parameters, in order.
        argument_names: Seq<Seq<char>>,
        /// Its documentation.
        docs: Option<DocFunction>,
    },
    /// An assignment.
    Assign {
        /// What is assigned to, where it is one identifier.
        target: Option<Seq<char>>,
        /// The names that are bound, in order.
        names: Seq<Seq<char>>,
        /// What the bound names are.
        kind: KindView,
        /// What is assigned.
        value: ValueView,
    },
    /// A `load`.
    Load {
        /// The path of the loaded module.
        module: Seq<char>,
        /// The loaded names, in order.
        args: Seq<LoadArgView>,
    },
    /// Any other statement.
    Other,
}

impl View for Statement {
    type V = StatementView;

    open spec fn view(&self) -> StatementView {
        match self {
            Statement::Def { name, argument_names, docs } => StatementView::Def {
                name: name@,
                argument_names: texts(argument_names@),
                docs: *docs,
            },
            Statement::Assign { target, names, kind, value } => StatementView::Assign {
                target: opt_text(*target),
                names: texts(names@),
                kind: kind@,
                value: value@,
            },
            Statement::Load { module, args } => StatementView::Load {
                module: module@,
                args: load_args(args@),
            },
            Statement::Other => StatementView::Other,
        }
    }
}

/// The `load` statements of a module, with where they stand.
#[derive(Debug, Clone, PartialEq, Eq)]
pub struct LoadIndex {
    /// The statements, in order.
    pub sites: Vec<LoadSite>,
}

impl View for LoadIndex {
    type V = Seq<LoadSiteView>;

    open spec fn view(&self) -> Seq<LoadSiteView> {
        self.sites@.map_values(|site: LoadSite| site@)
    }
}

/// Where the last of `sites` stands.
pub open spec fn last_span(sites: Seq<LoadSiteView>) -> Option<ResolvedSpan> {
    if sites.len() == 0 {
        None
    } else {
        Some(sites.last().span)
    }
}

/// The last of `sites` that loads `module`.
pub open spec fn last_site(sites: Seq<LoadSiteView>, module: Seq<char>) -> Option<LoadSiteView>
    decreases sites.len(),
{
    if sites.len() == 0 {
        None
    } else if sites.last().module == module {
        Some(sites.last())
    } else {
        last_site(sites.drop_last(), module)
    }
}

impl LoadIndex {
    /// Where the last `load` stands.
    pub fn last_load(&self) -> (r: Option<ResolvedSpan>)
        ensures
            r == last_span(self@),
    {
        let count: usize = self.sites.len();
        if count == 0 {
            None
        } else {
            assert(self@.last() == self.sites@[count - 1]@);
            Some(self.sites[count - 1].span)
        }
    }

    /// The last `load` of the module with the path `module`.
    pub fn get(&self, module: &str) -> (r: Option<&LoadSite>)
        ensures
            last_site(self@, module@) == (match r {
                Some(site) => Some(site@),
                None => None,
            }),
    {
        let ghost all = self@;
        let wanted: String = module.to_owned();
        let mut i: usize = self.sites.len();
        assert(all.take(i as int) =~= all);
        while i > 0
            invariant
                i <= self.sites@.len(),
                all == self@,
                wanted@ == module@,
                last_site(all, module@) == last_site(all.take(i as int), module@),
            decreases i,
        {
            assert(all.take(i as int).last() == self.sites@[i - 1]@);
            assert(all.take(i as int).drop_last() =~= all.take(i - 1));
            i = i - 1;
            if self.sites[i].module == wanted {
                return Some(&self.sites[i]);
            }
        }
        None
    }
}

/// Among several `load` statements of one module the last one counts, and a module that none of
/// them loads is not found.
pub proof fn last_load_of_module_counts(sites: Seq<LoadSiteView>, module: Seq<char>)
    ensures
        match last_site(sites, module) {
            Some(site) => exists|i: int|
                {
                    &&& 0 <= i < sites.len()
                    &&& #[trigger] sites[i] == site
                    &&& site.module == module
                    &&& forall|j: int| i < j < sites.len() ==> (#[trigger] sites[j]).module != module
                },
            None => forall|i: int| 0 <= i < sites.len() ==> (#[trigger] sites[i]).module != module,
        },
    decreases sites.len(),
{
    if sites.len() > 0 && sites.last().module != module {
        let rest = sites.drop_last();
        last_load_of_module_counts(rest, module);
        match last_site(rest, module) {
            Some(site) => {
                let i = choose|i: int|
                    {
                        &&& 0 <= i < rest.len()
                        &&& #[trigger] rest[i] == site
                        &&& site.module == module
                        &&& forall|j: int|
                            i < j < rest.len() ==> (#[trigger] rest[j]).module != module
                    };
                assert(sites[i] == site);
                assert forall|j: int| i < j < sites.len() implies (#[trigger] sites[j]).module
                    != module by {
                    if j < rest.len() {
                        assert(rest[j] == sites[j]);
                    }
                }
            },
            None => {
                assert forall|i: int| 0 <= i < sites.len() implies (#[trigger] sites[i]).module
                    != module by {
                    if i < rest.len() {
                        assert(rest[i] == sites[i]);
                    }
                }
            },
        }
    }
}

/// A parsed module, as completion sees it.
#[derive(Debug, Clone, PartialEq)]
pub struct LspModule {
    /// The top-level statements, in order.
    pub statements: Vec<Statement>,
    /// The `load` statements directly below the root of the syntax tree.
    pub loads: LoadIndex,
}

/// The mathematical counterpart of [`LspModule`].
pub struct ModuleView {
    /// The top-level statements, in order.
    pub statements: Seq<StatementView>,
    /// The `load` statements directly below the root of the syntax tree, in order.
    pub loads: Seq<LoadSiteView>,
}

impl View for LspModule {
    type V = ModuleView;

    open spec fn view(&self) -> ModuleView {
        ModuleView {
            statements: self.statements@.map_values(|statement: Statement| statement@),
            loads: self.loads@,
        }
    }
}

/// What makes the changes to `document` that load further symbols. `edit` is the host's: it makes
/// one such change, when told of the `load` statements that matter for it.
pub struct LoadEdits<'a, W> {
    /// The document.
    pub document: &'a LspModule,
    /// Makes the change that loads a symbol (its second argument) from a module (its first) in a
    /// document. It is told where the last `load` of the document stands, and which `load` of that
    /// module there is already, if any.
    pub edit: &'a W,
}

/// Whether `change` can be what `edit` makes to load `symbol` from `module` in `document`: it is
/// told where the last `load` of the document stands, and which `load` of that module is its last.
pub open spec fn can_edit<
    T,
    W: Fn(&str, &str, &LspModule, Option<ResolvedSpan>, Option<&LoadSite>) -> T,
>(document: LspModule, edit: W, module: &str, symbol: &str, change: T) -> bool {
    exists|site: Option<&LoadSite>|
        {
            &&& #[trigger] call_ensures(
                edit,
                (module, symbol, &document, last_span(document@.loads), site),
                change,
            )
            &&& last_site(document@.loads, module@) == (match site {
                Some(site) => Some(site@),
                None => None,
            })
        }
}

impl<'a, W> LoadEdits<'a, W> {
    /// The change to the document that loads `symbol` from `module`.
    pub fn text_edit<T>(&self, module: &str, symbol: &str) -> (r: T) where
        W: Fn(&str, &str, &LspModule, Option<ResolvedSpan>, Option<&LoadSite>) -> T,

        requires
            forall|last: Option<ResolvedSpan>, site: Option<&LoadSite>| #[trigger]
                call_requires(*self.edit, (module, symbol, self.document, last, site)),
        ensures
            can_edit(*self.document, *self.edit, module, symbol, r),
    {
        let site = self.document.loads.get(module);
        let last = self.document.loads.last_load();
        (self.edit)(module, symbol, self.document, last, site)
    }
}

/// The right side of an assignment, of which it is known whether it is a call and whether it is a
/// lambda.
pub open spec fn value_of(
    call: Option<CallView>,
    lambda: Option<Seq<Option<Seq<char>>>>,
) -> ValueView {
    match (call, lambda) {
        (Some(call), _) => ValueView::Call { function: call.function, arguments: call.arguments },
        (None, Some(parameters)) => ValueView::Lambda { parameters },
        (None, None) => ValueView::Other,
    }
}

/// The right side of an assignment.
fn make_value(call: Option<Call>, lambda: Option<Vec<Option<String>>>) -> (r: Value)
    ensures
        r@ == value_of(opt_call(call), opt_lambda(lambda)),
{
    match call {
        Some(call) => Value::Call { function: call.function, arguments: call.arguments },
        None => match lambda {
            Some(parameters) => Value::Lambda { parameters },
            None => Value::Other,
        },
    }
}

/// The statement that is made of `syntax`, of the two sides of an assignment and, for a function,
/// of its documentation.
pub open spec fn statement_of(
    syntax: SyntaxView,
    target: TargetView,
    value: ValueView,
    docs: Option<DocFunction>,
) -> StatementView {
    match syntax {
        SyntaxView::Def { name, parameters } => StatementView::Def {
            name,
            argument_names: named_parameters(parameters),
            docs,
        },
        SyntaxView::Assign => StatementView::Assign {
            target: target.identifier,
            names: target.names,
            kind: kind_of_value(value),
            value,
        },
        SyntaxView::Load { module, args } => StatementView::Load { module, args },
        SyntaxView::Other => StatementView::Other,
    }
}

/// Whether `statement` is made of the given parts and, where it is a function, of the
/// documentation that `docs_of_def` gives for index `i`.
pub open spec fn documented_statement<F: Fn(usize) -> Option<DocFunction>>(
    statement: StatementView,
    syntax: SyntaxView,
    target: TargetView,
    value: ValueView,
    docs_of_def: F,
    i: usize,
) -> bool {
    exists|docs: Option<DocFunction>|
        {
            &&& statement == #[trigger] statement_of(syntax, target, value, docs)
            &&& syntax is Def ==> call_ensures(docs_of_def, (i,), docs)
        }
}

/// The sites among `nodes`, in order.
pub open spec fn present_sites(nodes: Seq<Option<LoadSiteView>>) -> Seq<LoadSiteView>
    decreases nodes.len(),
{
    if nodes.len() == 0 {
        Seq::empty()
    } else {
        let before = present_sites(nodes.drop_last());
        match nodes.last() {
            Some(site) => before.push(site),
            None => before,
        }
    }
}

/// The counterparts of each statement.
pub open spec fn syntax_views(nodes: Seq<StatementSyntax>) -> Seq<SyntaxView> {
    nodes.map_values(|statement: StatementSyntax| statement@)
}

/// The counterparts of each left side.
pub open spec fn target_views(targets: Seq<Target>) -> Seq<TargetView> {
    targets.map_values(|target: Target| target@)
}

/// The counterparts of each call.
pub open spec fn call_views(calls: Seq<Option<Call>>) -> Seq<Option<CallView>> {
    calls.map_values(|call: Option<Call>| opt_call(call))
}

/// The counterparts of each lambda.
pub open spec fn lambda_views(lambdas: Seq<Option<Vec<Option<String>>>>) -> Seq<
    Option<Seq<Option<Seq<char>>>>,
> {
    lambdas.map_values(|parameters: Option<Vec<Option<String>>>| opt_lambda(parameters))
}

/// The counterparts of each site.
pub open spec fn site_views(nodes: Seq<Option<LoadSite>>) -> Seq<Option<LoadSiteView>> {
    nodes.map_values(|site: Option<LoadSite>| opt_site(site))
}

/// Whether `module` is made of these parts: `syntax[i]`, `targets[i]`, `calls[i]` and `lambdas[i]`
/// belong to one top-level statement, and `nodes` are the statements directly below the root.
pub open spec fn made_of_parts<F: Fn(usize) -> Option<DocFunction>>(
    module: ModuleView,
    syntax: Seq<SyntaxView>,
    targets: Seq<TargetView>,
    calls: Seq<Option<CallView>>,
    lambdas: Seq<Option<Seq<Option<Seq<char>>>>>,
    nodes: Seq<Option<LoadSiteView>>,
    docs_of_def: F,
) -> bool {
    &&& module.statements.len() == syntax.len()
    &&& forall|i: int|
        0 <= i < syntax.len() ==> documented_statement(
            #[trigger] module.statements[i],
            syntax[i],
            targets[i],
            value_of(calls[i], lambdas[i]),
            docs_of_def,
            i as usize,
        )
    &&& module.loads == present_sites(nodes)
}

impl LspModule {
    /// Takes from a syntax tree what completion reads. `docs_of_def` gives the documentation of
    /// the function that the top-level statement with the given index defines.
    pub fn new<F: Fn(usize) -> Option<DocFunction>>(ast: &AstModule, docs_of_def: F) -> (r:
        LspModule)
        requires
            forall|i: usize| #[trigger] call_requires(docs_of_def, (i,)),
        ensures
            made_of_parts(
                r@,
                top_level_syntax(*ast),
                assignment_targets(*ast),
                assigned_calls(*ast),
                assigned_lambdas(*ast),
                root_loads(*ast),
                docs_of_def,
            ),
    {
        let nodes = list_statements(ast);
        let targets = list_targets(ast);
        let calls = list_calls(ast);
        let lambdas = list_lambdas(ast);
        let sites = list_root_loads(ast);
        LspModule::from_parts(nodes, targets, calls, lambdas, sites, docs_of_def)
    }

    /// Puts a module together. `nodes[i]`, `targets[i]`, `calls[i]` and `lambdas[i]` say what one
    /// top-level statement is; `sites` are the statements directly below the root of the tree,
    /// each where it is a `load`.
    pub fn from_parts<F: Fn(usize) -> Option<DocFunction>>(
        nodes: Vec<StatementSyntax>,
        targets: Vec<Target>,
        calls: Vec<Option<Call>>,
        lambdas: Vec<Option<Vec<Option<String>>>>,
        sites: Vec<Option<LoadSite>>,
        docs_of_def: F,
    ) -> (r: LspModule)
        requires
            nodes@.len() == targets@.len(),
            nodes@.len() == calls@.len(),
            nodes@.len() == lambdas@.len(),
            forall|i: usize| #[trigger] call_requires(docs_of_def, (i,)),
        ensures
            made_of_parts(
                r@,
                syntax_views(nodes@),
                target_views(targets@),
                call_views(calls@),
                lambda_views(lambdas@),
                site_views(sites@),
                docs_of_def,
            ),
    {
        let ghost nodes0 = nodes@;
        let ghost targets0 = targets@;
        let ghost calls0 = calls@;
        let ghost lambdas0 = lambdas@;
        let mut nodes = nodes;
        let mut targets = targets;
        let mut calls = calls;
        let mut lambdas = lambdas;
        let count: usize = nodes.len();
        let mut statements: Vec<Statement> = Vec::new();
        let mut i: usize = 0;
        while i < count
            invariant
                count == nodes@.len() == targets@.len() == calls@.len() == lambdas@.len(),
                count == nodes0.len() == targets0.len() == calls0.len() == lambdas0.len(),
                statements@.len() == i <= count,
                forall|j: int| i <= j < count ==> #[trigger] nodes@[j] == nodes0[j],
                forall|j: int| i <= j < count ==> #[trigger] targets@[j] == targets0[j],
                forall|j: int| i <= j < count ==> #[trigger] calls@[j] == calls0[j],
                forall|j: int| i <= j < count ==> #[trigger] lambdas@[j] == lambdas0[j],
                forall|k: usize| #[trigger] call_requires(docs_of_def, (k,)),
                forall|j: int|
                    0 <= j < i ==> documented_statement(
                        #[trigger] statements@[j]@,
                        nodes0[j]@,
                        targets0[j]@,
                        value_of(opt_call(calls0[j]), opt_lambda(lambdas0[j])),
                        docs_of_def,
                        j as usize,
                    ),
            decreases count - i,
        {
            let mut node = StatementSyntax::Other;
            std::mem::swap(&mut nodes[i], &mut node);
            let mut target = Target { identifier: None, names: Vec::new() };
            std::mem::swap(&mut targets[i], &mut target);
            let mut call: Option<Call> = None;
            std::mem::swap(&mut calls[i], &mut call);
            let mut lambda: Option<Vec<Option<String>>> = None;
            std::mem::swap(&mut lambdas[i], &mut lambda);
            let ghost mut found: Option<DocFunction> = None;
            let statement = match node {
                StatementSyntax::Def { name, parameters } => {
                    let docs = docs_of_def(i);
                    proof {
                        found = docs;
                    }
                    Statement::Def { name, argument_names: collect_names(&parameters), docs }
                },
                StatementSyntax::Assign => {
                    let value = make_value(call, lambda);
                    let kind = ExportedSymbolKind::from_expr(&value);
                    Statement::Assign {
                        target: target.identifier,
                        names: target.names,
                        kind,
                        value,
                    }
                },
                StatementSyntax::Load { module, args } => Statement::Load { module, args },
                StatementSyntax::Other => Statement::Other,
            };
            proof {
                let value = value_of(opt_call(calls0[i as int]), opt_lambda(lambdas0[i as int]));
                assert(statement@ == statement_of(
                    nodes0[i as int]@,
                    targets0[i as int]@,
                    value,
                    found,
                ));
                assert(documented_statement(
                    statement@,
                    nodes0[i as int]@,
                    targets0[i as int]@,
                    value,
                    docs_of_def,
                    i,
                ));
            }
            statements.push(statement);
            i = i + 1;
        }
        let loads = LoadIndex { sites: collect_sites(sites) };
        let module = LspModule { statements, loads };
        proof {
            let syntax = syntax_views(nodes0);
            let left = target_views(targets0);
            let called = call_views(calls0);
            let anonymous = lambda_views(lambdas0);
            assert forall|j: int| 0 <= j < syntax.len() implies documented_statement(
                #[trigger] module@.statements[j],
                syntax[j],
                left[j],
                value_of(called[j], anonymous[j]),
                docs_of_def,
                j as usize,
            ) by {
                assert(module@.statements[j] == statements@[j]@);
            }
        }
        module
    }
}

/// The sites among `nodes`, in order.
fn collect_sites(nodes: Vec<Option<LoadSite>>) -> (r: Vec<LoadSite>)
    ensures
        r@.map_values(|site: LoadSite| site@) == present_sites(site_views(nodes@)),
{
    let ghost all = site_views(nodes@);
    let mut rest = nodes;
    let mut sites: Vec<LoadSite> = Vec::new();
    let mut i: usize = 0;
    let count: usize = rest.len();
    assert(sites@.map_values(|site: LoadSite| site@) =~= Seq::<LoadSiteView>::empty());
    while i < count
        invariant
            i <= count,
            count == rest@.len() == all.len(),
            forall|j: int| i <= j < count ==> opt_site(#[trigger] rest@[j]) == all[j],
            sites@.map_values(|site: LoadSite| site@) == present_sites(all.take(i as int)),
        decreases count - i,
    {
        assert(all.take(i + 1).drop_last() =~= all.take(i as int));
        assert(all.take(i + 1).last() == all[i as int]);
        let mut node: Option<LoadSite> = None;
        std::mem::swap(&mut rest[i], &mut node);
        match node {
            Some(site) => {
                let ghost before = sites@;
                sites.push(site);
                assert(sites@.map_values(|site: LoadSite| site@) =~= before.map_values(
                    |site: LoadSite| site@,
                ).push(site@));
            },
            None => {},
        }
        i = i + 1;
    }
    assert(all.take(i as int) =~= all);
    sites
}

} // verus!
