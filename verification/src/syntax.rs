//! What completion reads of a parsed module.
//!
//! The syntax tree itself belongs to the `starlark_syntax` crate and is opaque here. The functions
//! of this module take out of it what completion reads, as plain values.

use starlark_syntax::syntax::ast::{
    ArgumentP, AssignTargetP, AstArgument, AstExpr, AstStmt, ExprP, StmtP,
};
use starlark_syntax::syntax::module::AstModuleFields;
use starlark_syntax::syntax::top_level_stmts::top_level_stmts;
use starlark_syntax::syntax::AstModule;
use vstd::prelude::*;

use crate::item::{opt_text, texts, ResolvedPos, ResolvedSpan};

verus! {

/// A parsed module.
#[verifier::external_type_specification]
#[verifier::external_body]
pub struct ExAstModule(AstModule);

/// One name that a `load` statement binds: `local = "their"`.
#[derive(Debug, Clone, PartialEq, Eq)]
pub struct LoadArg {
    /// The name in the module that holds the statement.
    pub local: String,
    /// The name in the module that is loaded.
    pub their: String,
}

/// The mathematical counterpart of [`LoadArg`].
pub struct LoadArgView {
    /// The name in the module that holds the statement.
    pub local: Seq<char>,
    /// The name in the module that is loaded.
    pub their: Seq<char>,
}

impl View for LoadArg {
    type V = LoadArgView;

    open spec fn view(&self) -> LoadArgView {
        LoadArgView { local: self.local@, their: self.their@ }
    }
}

/// The counterparts of each loaded name.
pub open spec fn load_args(args: Seq<LoadArg>) -> Seq<LoadArgView> {
    args.map_values(|arg: LoadArg| arg@)
}

/// An argument of a call.
#[derive(Debug, Clone, PartialEq, Eq)]
pub enum Argument {
    /// `field = value`.
    Named {
        /// The name in front of the `=`.
        field: String,
        /// The value, where it is an identifier.
        identifier: Option<String>,
    },
    /// Any other argument.
    Other,
}

/// The mathematical counterpart of [`Argument`].
pub enum ArgumentView {
    /// `field = value`.
    Named {
        /// The name in front of the `=`.
        field: Seq<char>,
        /// The value, where it is an identifier.
        identifier: Option<Seq<char>>,
    },
    /// Any other argument.
    Other,
}

impl View for Argument {
    type V = ArgumentView;

    open spec fn view(&self) -> ArgumentView {
        match self {
            Argument::Named { field, identifier } => ArgumentView::Named {
                field: field@,
                identifier: opt_text(*identifier),
            },
            Argument::Other => ArgumentView::Other,
        }
    }
}

/// The value of an assignment.
#[derive(Debug, Clone, PartialEq, Eq)]
pub enum Value {
    /// A call.
    Call {
        /// What is called, where it is an identifier.
        function: Option<String>,
        /// The arguments, in order.
        arguments: Vec<Argument>,
    },
    /// A lambda.
    Lambda {
        /// The parameters, in order, each with its name where it has one: the markers `/` and
        /// `*` have none.
        parameters: Vec<Option<String>>,
    },
    /// Any other value.
    Other,
}

/// The mathematical counterpart of [`Value`].
pub enum ValueView {
    /// A call.
    Call {
        /// What is called, where it is an identifier.
        function: Option<Seq<char>>,
        /// The arguments, in order.
        arguments: Seq<ArgumentView>,
    },
    /// A lambda.
    Lambda {
        /// The parameters, in order, each with its name where it has one.
        parameters: Seq<Option<Seq<char>>>,
    },
    /// Any other value.
    Other,
}

impl View for Value {
    type V = ValueView;

    open spec fn view(&self) -> ValueView {
        match self {
            Value::Call { function, arguments } => ValueView::Call {
                function: opt_text(*function),
                arguments: arguments@.map_values(|argument: Argument| argument@),
            },
            Value::Lambda { parameters } => ValueView::Lambda {
                parameters: opt_texts(parameters@),
            },
            Value::Other => ValueView::Other,
        }
    }
}

/// The characters of each optional string.
pub open spec fn opt_texts(strings: Seq<Option<String>>) -> Seq<Option<Seq<char>>> {
    strings.map_values(|s: Option<String>| opt_text(s))
}

/// What a top-level statement is, apart from the two sides of an assignment.
#[derive(Debug, Clone, PartialEq, Eq)]
pub enum StatementSyntax {
    /// `def name(parameters): ...`.
    Def {
        /// The name of the function.
        name: String,
        /// The parameters, in order, each with its name where it has one: the markers `/` and
        /// `*` have none.
        parameters: Vec<Option<String>>,
    },
    /// An assignment.
    Assign,
    /// `load(module, args)`.
    Load {
        /// The path of the loaded module.
        module: String,
        /// The loaded names, in order.
        args: Vec<LoadArg>,
    },
    /// Any other statement.
    Other,
}

/// The mathematical counterpart of [`StatementSyntax`].
pub enum SyntaxView {
    /// `def name(parameters): ...`.
    Def {
        /// The name of the function.
        name: Seq<char>,
        /// The parameters, in order, each with its name where it has one.
        parameters: Seq<Option<Seq<char>>>,
    },
    /// An assignment.
    Assign,
    /// `load(module, args)`.
    Load {
        /// The path of the loaded module.
        module: Seq<char>,
        /// The loaded names, in order.
        args: Seq<LoadArgView>,
    },
    /// Any other statement.
    Other,
}

impl View for StatementSyntax {
    type V = SyntaxView;

    open spec fn view(&self) -> SyntaxView {
        match self {
            StatementSyntax::Def { name, parameters } => SyntaxView::Def {
                name: name@,
                parameters: opt_texts(parameters@),
            },
            StatementSyntax::Assign => SyntaxView::Assign,
            StatementSyntax::Load { module, args } => SyntaxView::Load {
                module: module@,
                args: load_args(args@),
            },
            StatementSyntax::Other => SyntaxView::Other,
        }
    }
}

/// The left side of an assignment. A statement of another kind has an empty one.
#[derive(Debug, Clone, PartialEq, Eq)]
pub struct Target {
    /// What is assigned to, where it is one identifier.
    pub identifier: Option<String>,
    /// The names that are bound, in order.
    pub names: Vec<String>,
}

/// The mathematical counterpart of [`Target`].
pub struct TargetView {
    /// What is assigned to, where it is one identifier.
    pub identifier: Option<Seq<char>>,
    /// The names that are bound, in order.
    pub names: Seq<Seq<char>>,
}

impl View for Target {
    type V = TargetView;

    open spec fn view(&self) -> TargetView {
        TargetView { identifier: opt_text(self.identifier), names: texts(self.names@) }
    }
}

/// A call on the right side of an assignment.
#[derive(Debug, Clone, PartialEq, Eq)]
pub struct Call {
    /// What is called, where it is an identifier.
    pub function: Option<String>,
    /// The arguments, in order.
    pub arguments: Vec<Argument>,
}

/// The mathematical counterpart of [`Call`].
pub struct CallView {
    /// What is called, where it is an identifier.
    pub function: Option<Seq<char>>,
    /// The arguments, in order.
    pub arguments: Seq<ArgumentView>,
}

impl View for Call {
    type V = CallView;

    open spec fn view(&self) -> CallView {
        CallView {
            function: opt_text(self.function),
            arguments: self.arguments@.map_values(|argument: Argument| argument@),
        }
    }
}

/// The counterpart of an optional call.
pub open spec fn opt_call(call: Option<Call>) -> Option<CallView> {
    match call {
        Some(call) => Some(call@),
        None => None,
    }
}

/// The counterpart of the parameters of an optional lambda.
pub open spec fn opt_lambda(parameters: Option<Vec<Option<String>>>) -> Option<
    Seq<Option<Seq<char>>>,
> {
    match parameters {
        Some(parameters) => Some(opt_texts(parameters@)),
        None => None,
    }
}

/// A `load` statement and where it stands.
#[derive(Debug, Clone, PartialEq, Eq)]
pub struct LoadSite {
    /// The path of the loaded module.
    pub module: String,
    /// The loaded names, in order.
    pub args: Vec<LoadArg>,
    /// Where the statement stands.
    pub span: ResolvedSpan,
}

/// The mathematical counterpart of [`LoadSite`].
pub struct LoadSiteView {
    /// The path of the loaded module.
    pub module: Seq<char>,
    /// The loaded names, in order.
    pub args: Seq<LoadArgView>,
    /// Where the statement stands.
    pub span: ResolvedSpan,
}

impl View for LoadSite {
    type V = LoadSiteView;

    open spec fn view(&self) -> LoadSiteView {
        LoadSiteView { module: self.module@, args: load_args(self.args@), span: self.span }
    }
}

/// The counterpart of an optional site.
pub open spec fn opt_site(site: Option<LoadSite>) -> Option<LoadSiteView> {
    match site {
        Some(site) => Some(site@),
        None => None,
    }
}

/// The top-level statements of a module, in order.
pub uninterp spec fn top_level_syntax(ast: AstModule) -> Seq<SyntaxView>;

/// The left side of each top-level statement of a module.
pub uninterp spec fn assignment_targets(ast: AstModule) -> Seq<TargetView>;

/// The right side of each top-level statement of a module, where it is an assignment of a call.
pub uninterp spec fn assigned_calls(ast: AstModule) -> Seq<Option<CallView>>;

/// The parameters of the right side of each top-level statement of a module, where it is an
/// assignment of a lambda: each with its name where it has one.
pub uninterp spec fn assigned_lambdas(ast: AstModule) -> Seq<Option<Seq<Option<Seq<char>>>>>;

/// The statements directly below the root of a module's tree, in order, each where it is a
/// `load`.
pub uninterp spec fn root_loads(ast: AstModule) -> Seq<Option<LoadSiteView>>;

/// Calls `starlark_syntax::syntax::top_level_stmts::top_level_stmts`, which lists the
/// statements of a module with nested statement lists resolved, and takes from each what
/// [`StatementSyntax`] holds; the name of a parameter comes from
/// `starlark_syntax::syntax::ast::ParameterP::split`. The contract claims that the result depends
/// on the module alone.
#[verifier::external_body]
pub(crate) fn list_statements(ast: &AstModule) -> (r: Vec<StatementSyntax>)
    ensures
        r@.map_values(|statement: StatementSyntax| statement@) == top_level_syntax(*ast),
{
    let convert = |stmt: &AstStmt| match &stmt.node {
        StmtP::Def(def) => StatementSyntax::Def {
            name: def.name.ident.clone(),
            parameters: def.params.iter().map(|p| p.split().0.map(|n| n.to_string())).collect(),
        },
        StmtP::Assign(_) => StatementSyntax::Assign,
        StmtP::Load(load) => StatementSyntax::Load {
            module: load.module.node.clone(),
            args: load.args.iter().map(|a| LoadArg { local: a.local.ident.clone(), their: a.their.node.clone() }).collect(),
        },
        _ => StatementSyntax::Other,
    };
    top_level_stmts(ast.statement()).into_iter().map(convert).collect()
}

/// Calls `starlark_syntax::syntax::ast::AssignTargetP::visit_lvalue`, which visits the names
/// that an assignment binds, on each assignment among the top-level statements. The contract
/// claims that there is one entry for each statement, and that the result depends on the module
/// alone.
#[verifier::external_body]
pub(crate) fn list_targets(ast: &AstModule) -> (r: Vec<Target>)
    ensures
        r@.map_values(|target: Target| target@) == assignment_targets(*ast),
        r@.len() == top_level_syntax(*ast).len(),
{
    let convert = |stmt: &AstStmt| {
        let mut target = Target { identifier: None, names: Vec::new() };
        if let StmtP::Assign(assign) = &stmt.node {
            assign.lhs.visit_lvalue(|ident| target.names.push(ident.ident.clone()));
            target.identifier = match &assign.lhs.node {
                AssignTargetP::Identifier(lhs) => Some(lhs.ident.clone()),
                _ => None,
            };
        }
        target
    };
    top_level_stmts(ast.statement()).into_iter().map(convert).collect()
}

/// Calls `starlark_syntax::syntax::top_level_stmts::top_level_stmts`, and takes the right side of
/// each assignment of a call among them. The contract claims that there is one entry for each
/// statement, and that the result depends on the module alone.
#[verifier::external_body]
pub(crate) fn list_calls(ast: &AstModule) -> (r: Vec<Option<Call>>)
    ensures
        r@.map_values(|call: Option<Call>| opt_call(call)) == assigned_calls(*ast),
        r@.len() == top_level_syntax(*ast).len(),
{
    let ident = |expr: &AstExpr| match &expr.node { ExprP::Identifier(id) => Some(id.ident.clone()), _ => None };
    let argument = |arg: &AstArgument| match &arg.node {
        ArgumentP::Named(field, value) => Argument::Named { field: field.node.clone(), identifier: ident(value) },
        _ => Argument::Other,
    };
    let convert = |stmt: &AstStmt| {
        let StmtP::Assign(assign) = &stmt.node else { return None };
        let ExprP::Call(f, args) = &assign.rhs.node else { return None };
        Some(Call { function: ident(f), arguments: args.args.iter().map(argument).collect() })
    };
    top_level_stmts(ast.statement()).into_iter().map(convert).collect()
}

/// Calls `starlark_syntax::syntax::ast::ParameterP::split`, which gives the name of a parameter,
/// on the parameters of each lambda that a top-level statement assigns. The contract claims that
/// there is one entry for each statement, and that the result depends on the module alone.
#[verifier::external_body]
pub(crate) fn list_lambdas(ast: &AstModule) -> (r: Vec<Option<Vec<Option<String>>>>)
    ensures
        r@.map_values(|parameters: Option<Vec<Option<String>>>| opt_lambda(parameters))
            == assigned_lambdas(*ast),
        r@.len() == top_level_syntax(*ast).len(),
{
    let convert = |stmt: &AstStmt| {
        let StmtP::Assign(assign) = &stmt.node else { return None };
        let ExprP::Lambda(lambda) = &assign.rhs.node else { return None };
        Some(lambda.params.iter().map(|p| p.split().0.map(|n| n.to_string())).collect())
    };
    top_level_stmts(ast.statement()).into_iter().map(convert).collect()
}

/// Calls `starlark_syntax::syntax::ast::StmtP::visit_stmt` on the root of the tree, which visits
/// the statements directly below it, and `starlark_syntax::codemap::CodeMap::resolve_span` for
/// the place of each `load`. The contract claims that the result depends on the module alone.
#[verifier::external_body]
pub(crate) fn list_root_loads(ast: &AstModule) -> (r: Vec<Option<LoadSite>>)
    ensures
        r@.map_values(|site: Option<LoadSite>| opt_site(site)) == root_loads(*ast),
{
    let mut sites = Vec::new();
    ast.statement().visit_stmt(|node| sites.push(match &node.node {
        StmtP::Load(load) => {
            let span = ast.codemap().resolve_span(node.span);
            let begin = ResolvedPos { line: span.begin.line, column: span.begin.column };
            let end = ResolvedPos { line: span.end.line, column: span.end.column };
            let args = load.args.iter().map(|a| LoadArg { local: a.local.ident.clone(), their: a.their.node.clone() });
            Some(LoadSite { module: load.module.node.clone(), args: args.collect(), span: ResolvedSpan { begin, end } })
        },
        _ => None,
    }));
    sites
}

} // verus!
