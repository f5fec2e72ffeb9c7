//! The directive grammar: `name(body)` clauses separated by commas.
//!
//! The grammar is stated twice. The `spec` functions say what a run of token
//! trees means; the `parse` functions compute it and are proved to agree.
//! Paths, expressions and statements are read by the parser of the host
//! language (see [`crate::syntax`]).
//!
//! The name of a clause is any identifier token, a keyword included, and its
//! body is a group in round brackets directly behind it. Groups without
//! visible brackets, as macro expansion leaves them, are opened before the
//! clauses of a list and the function specs of a clause body are read.

use crate::syntax::{
    block_statements, expression_list, parse_block_statements, parse_expression_list,
    path_prefix, split_path, terminate_all, terminated_all,
};
use crate::tokens::{
    classify, clone_tree, contents, is_comma, is_paren_group, lemma_contents_skip,
    open_invisible, opened, pieces, settled, stream_to_trees, stream_trees, tree_content, Delim,
    Fragment, Token, Tree,
};
use proc_macro2::{TokenStream, TokenTree};
use vstd::prelude::*;

verus! {

/// A reference to a callable, used as a hook or as the decorator.
#[derive(Clone, Debug)]
pub enum FunctionSpec {
    /// `path`: called without arguments of its own.
    Simple(Fragment),
    /// `path(expr, ...)`: the call yields the callable to use.
    WithArgs(Fragment, Vec<Fragment>),
}

/// The content of a [`FunctionSpec`].
pub enum FunctionSpecView {
    Simple(Seq<Tree>),
    WithArgs(Seq<Tree>, Seq<Seq<Tree>>),
}

impl DeepView for FunctionSpec {
    type V = FunctionSpecView;

    open spec fn deep_view(&self) -> FunctionSpecView {
        match self {
            FunctionSpec::Simple(path) => FunctionSpecView::Simple(path.deep_view()),
            FunctionSpec::WithArgs(path, args) => FunctionSpecView::WithArgs(
                path.deep_view(),
                args.deep_view(),
            ),
        }
    }
}

/// The function specs of one hook clause. The list may be empty here; a
/// clause with an empty list is rejected when the clause is parsed.
#[derive(Clone, Debug)]
pub struct FunctionSpecList {
    pub list: Vec<FunctionSpec>,
}

impl DeepView for FunctionSpecList {
    type V = Seq<FunctionSpecView>;

    open spec fn deep_view(&self) -> Seq<FunctionSpecView> {
        self.list.deep_view()
    }
}

/// One clause of the directive list.
#[derive(Clone, Debug)]
pub enum AxinArg {
    /// `prologue(statement; ...)`: statements put in front of the body, each
    /// with its terminator.
    Prologue { stmts: Vec<Fragment> },
    /// `on_enter(f, ...)`: functions called before the body.
    OnEnter { funcs: FunctionSpecList },
    /// `on_exit(f, ...)`: functions called after the body.
    OnExit { funcs: FunctionSpecList },
    /// `decorator(f)`: the function that wraps the body.
    Decorator { func: FunctionSpec },
}

/// The content of an [`AxinArg`].
pub enum AxinArgView {
    Prologue(Seq<Seq<Tree>>),
    OnEnter(Seq<FunctionSpecView>),
    OnExit(Seq<FunctionSpecView>),
    Decorator(FunctionSpecView),
}

impl DeepView for AxinArg {
    type V = AxinArgView;

    open spec fn deep_view(&self) -> AxinArgView {
        match self {
            AxinArg::Prologue { stmts } => AxinArgView::Prologue(stmts.deep_view()),
            AxinArg::OnEnter { funcs } => AxinArgView::OnEnter(funcs.deep_view()),
            AxinArg::OnExit { funcs } => AxinArgView::OnExit(funcs.deep_view()),
            AxinArg::Decorator { func } => AxinArgView::Decorator(func.deep_view()),
        }
    }
}

/// The clauses attached to one function, in source order.
#[derive(Clone, Debug)]
pub struct AxinArgs {
    pub args: Vec<AxinArg>,
}

impl DeepView for AxinArgs {
    type V = Seq<AxinArgView>;

    open spec fn deep_view(&self) -> Seq<AxinArgView> {
        self.args.deep_view()
    }
}

/// Why a function spec was rejected.
#[derive(Debug)]
pub enum SpecError {
    /// The tokens are no `path` or `path(args)`, or specs are not separated
    /// by commas.
    Malformed,
    /// The parser of the host language rejected an argument expression.
    External(syn::Error),
}

/// The content of a [`SpecError`]; what the outside parser reported is left
/// out.
pub enum SpecErrorView {
    Malformed,
    External,
}

impl DeepView for SpecError {
    type V = SpecErrorView;

    open spec fn deep_view(&self) -> SpecErrorView {
        match self {
            SpecError::Malformed => SpecErrorView::Malformed,
            SpecError::External(_) => SpecErrorView::External,
        }
    }
}

/// Why a directive list was rejected. Each error names the clause at fault;
/// `at` holds the token to point at: the name of that clause or, where a name
/// or a comma is missing, what was found in its place.
#[derive(Debug)]
pub enum DirectiveError {
    /// The clause's name is none of the supported ones, which are listed.
    UnknownDirective { name: String, supported: Vec<String>, at: Fragment },
    /// A hook clause without a function spec.
    EmptyHookList { directive: String, at: Fragment },
    /// A clause body that is no `path` or `path(args)`, or a decorator clause
    /// that does not hold exactly one.
    MalformedFunctionSpec { directive: String, at: Fragment },
    /// A clause that is not `name(...)`; the name is the identifier that the
    /// clause begins with, where it begins with one.
    MalformedDirective { name: Option<String>, at: Fragment },
    /// No comma between the named clause and what follows it.
    MissingComma { after: String, at: Fragment },
    /// The parser of the host language rejected a statement or an expression
    /// of the named clause.
    External { directive: String, error: syn::Error },
}

/// The content of a [`DirectiveError`]; what the outside parser reported is
/// left out.
pub enum DirectiveErrorView {
    UnknownDirective { name: Seq<char>, supported: Seq<Seq<char>>, at: Seq<Tree> },
    EmptyHookList { directive: Seq<char>, at: Seq<Tree> },
    MalformedFunctionSpec { directive: Seq<char>, at: Seq<Tree> },
    MalformedDirective { name: Option<Seq<char>>, at: Seq<Tree> },
    MissingComma { after: Seq<char>, at: Seq<Tree> },
    External { directive: Seq<char> },
}

impl DeepView for DirectiveError {
    type V = DirectiveErrorView;

    open spec fn deep_view(&self) -> DirectiveErrorView {
        match self {
            DirectiveError::UnknownDirective { name, supported, at } => {
                DirectiveErrorView::UnknownDirective {
                    name: name@,
                    supported: supported.deep_view(),
                    at: at.deep_view(),
                }
            },
            DirectiveError::EmptyHookList { directive, at } => DirectiveErrorView::EmptyHookList {
                directive: directive@,
                at: at.deep_view(),
            },
            DirectiveError::MalformedFunctionSpec { directive, at } => {
                DirectiveErrorView::MalformedFunctionSpec {
                    directive: directive@,
                    at: at.deep_view(),
                }
            },
            DirectiveError::MalformedDirective { name, at } => {
                DirectiveErrorView::MalformedDirective {
                    name: name.deep_view(),
                    at: at.deep_view(),
                }
            },
            DirectiveError::MissingComma { after, at } => DirectiveErrorView::MissingComma {
                after: after@,
                at: at.deep_view(),
            },
            DirectiveError::External { directive, error } => DirectiveErrorView::External {
                directive: directive@,
            },
        }
    }
}

/// The names of the four directives, in the order in which an error lists
/// them.
pub open spec fn supported_names() -> Seq<Seq<char>> {
    seq!["prologue"@, "on_enter"@, "on_exit"@, "decorator"@]
}

/// Whether `name` is the name of a directive.
pub open spec fn is_supported(name: Seq<char>) -> bool {
    name == "prologue"@ || name == "on_enter"@ || name == "on_exit"@ || name == "decorator"@
}

/// The name of the directive that a clause belongs to.
pub open spec fn clause_name(arg: AxinArgView) -> Seq<char> {
    match arg {
        AxinArgView::Prologue(_) => "prologue"@,
        AxinArgView::OnEnter(_) => "on_enter"@,
        AxinArgView::OnExit(_) => "on_exit"@,
        AxinArgView::Decorator(_) => "decorator"@,
    }
}

/// A function spec at the front of `trees`, and the trees after it.
///
/// A path is read first. A group in round brackets directly behind it holds
/// the arguments; without one the spec is a bare path. A path that uses up
/// none of the trees is no path.
pub open spec fn parse_function_spec(trees: Seq<Tree>) -> Result<
    (FunctionSpecView, Seq<Tree>),
    SpecErrorView,
> {
    match path_prefix(trees) {
        None => Err(SpecErrorView::Malformed),
        Some((path, rest)) => {
            if rest.len() >= trees.len() {
                Err(SpecErrorView::Malformed)
            } else if rest.len() > 0 && is_paren_group(rest[0]) {
                match expression_list(rest[0]->Group_1) {
                    None => Err(SpecErrorView::External),
                    Some(args) => Ok((FunctionSpecView::WithArgs(path, args), rest.skip(1))),
                }
            } else {
                Ok((FunctionSpecView::Simple(path), rest))
            }
        },
    }
}

/// The function specs that fill `trees`, separated by commas, a trailing
/// comma allowed.
pub open spec fn parse_spec_list(trees: Seq<Tree>) -> Result<Seq<FunctionSpecView>, SpecErrorView>
    decreases trees.len(),
{
    if trees.len() == 0 {
        Ok(Seq::empty())
    } else {
        match parse_function_spec(trees) {
            Err(e) => Err(e),
            Ok((first, rest)) => {
                if rest.len() == 0 {
                    Ok(seq![first])
                } else if !is_comma(rest[0]) {
                    Err(SpecErrorView::Malformed)
                } else {
                    match parse_spec_list(rest.skip(1)) {
                        Err(e) => Err(e),
                        Ok(others) => Ok(seq![first] + others),
                    }
                }
            },
        }
    }
}

/// The rejection of a function spec as the rejection of the clause `name`
/// that holds it.
pub open spec fn in_clause(name: Seq<char>, error: SpecErrorView) -> DirectiveErrorView {
    match error {
        SpecErrorView::Malformed => DirectiveErrorView::MalformedFunctionSpec {
            directive: name,
            at: seq![Tree::Ident(name)],
        },
        SpecErrorView::External => DirectiveErrorView::External { directive: name },
    }
}

/// The clause with the given name and body.
///
/// - `prologue`: the statements of the body, each with its terminator;
/// - `on_enter`, `on_exit`: the function specs of the body, at least one;
/// - `decorator`: the one function spec that fills the body;
/// - in the body of a hook or decorator clause, groups without visible
///   brackets are opened first;
/// - any other name is unknown.
pub open spec fn parse_clause(name: Seq<char>, body: Seq<Tree>) -> Result<
    AxinArgView,
    DirectiveErrorView,
> {
    if name == "prologue"@ {
        match block_statements(body) {
            None => Err(DirectiveErrorView::External { directive: name }),
            Some(stmts) => Ok(AxinArgView::Prologue(terminated_all(stmts))),
        }
    } else if name == "on_enter"@ || name == "on_exit"@ {
        match parse_spec_list(opened(body)) {
            Err(e) => Err(in_clause(name, e)),
            Ok(funcs) => {
                if funcs.len() == 0 {
                    Err(
                        DirectiveErrorView::EmptyHookList {
                            directive: name,
                            at: seq![Tree::Ident(name)],
                        },
                    )
                } else if name == "on_enter"@ {
                    Ok(AxinArgView::OnEnter(funcs))
                } else {
                    Ok(AxinArgView::OnExit(funcs))
                }
            },
        }
    } else if name == "decorator"@ {
        match parse_function_spec(opened(body)) {
            Err(e) => Err(in_clause(name, e)),
            Ok((func, rest)) => {
                if rest.len() == 0 {
                    Ok(AxinArgView::Decorator(func))
                } else {
                    Err(in_clause(name, SpecErrorView::Malformed))
                }
            },
        }
    } else {
        Err(
            DirectiveErrorView::UnknownDirective {
                name,
                supported: supported_names(),
                at: seq![Tree::Ident(name)],
            },
        )
    }
}

/// The clause that the first two of `trees` make up: a name, then a group in
/// round brackets.
pub open spec fn parse_directive(trees: Seq<Tree>) -> Result<AxinArgView, DirectiveErrorView> {
    if trees.len() >= 1 && trees[0] is Ident {
        if trees.len() >= 2 && is_paren_group(trees[1]) {
            parse_clause(trees[0]->Ident_0, trees[1]->Group_1)
        } else {
            Err(
                DirectiveErrorView::MalformedDirective {
                    name: Some(trees[0]->Ident_0),
                    at: seq![trees[0]],
                },
            )
        }
    } else {
        Err(
            DirectiveErrorView::MalformedDirective {
                name: None,
                at: if trees.len() >= 1 {
                    pieces(trees[0])
                } else {
                    Seq::empty()
                },
            },
        )
    }
}

/// The directive list that a token stream with the given trees holds: its
/// clauses, once groups without visible brackets are opened.
pub open spec fn parse_attribute(trees: Seq<Tree>) -> Result<Seq<AxinArgView>, DirectiveErrorView> {
    parse_directives(opened(trees))
}

/// The clauses that fill `trees`, separated by commas, a trailing comma
/// allowed. The first clause that is rejected decides the result.
pub open spec fn parse_directives(trees: Seq<Tree>) -> Result<
    Seq<AxinArgView>,
    DirectiveErrorView,
>
    decreases trees.len(),
{
    if trees.len() == 0 {
        Ok(Seq::empty())
    } else {
        match parse_directive(trees) {
            Err(e) => Err(e),
            Ok(first) => {
                if trees.len() == 2 {
                    Ok(seq![first])
                } else if !is_comma(trees[2]) {
                    Err(
                        DirectiveErrorView::MissingComma {
                            after: clause_name(first),
                            at: pieces(trees[2]),
                        },
                    )
                } else {
                    match parse_directives(trees.skip(3)) {
                        Err(e) => Err(e),
                        Ok(others) => Ok(seq![first] + others),
                    }
                }
            },
        }
    }
}

/// What is left to read of a spec list once a spec has been read and `rest`
/// follows it.
pub open spec fn after_spec(rest: Seq<Tree>) -> Result<Seq<FunctionSpecView>, SpecErrorView> {
    if rest.len() == 0 {
        Ok(Seq::empty())
    } else if !is_comma(rest[0]) {
        Err(SpecErrorView::Malformed)
    } else {
        parse_spec_list(rest.skip(1))
    }
}

/// `done`, then what `more` yields.
pub open spec fn followed_by<T, E>(done: Seq<T>, more: Result<Seq<T>, E>) -> Result<Seq<T>, E> {
    match more {
        Err(e) => Err(e),
        Ok(others) => Ok(done + others),
    }
}

/// The names one after another, with a comma and a space between each two.
pub open spec fn listed(names: Seq<Seq<char>>) -> Seq<char>
    decreases names.len(),
{
    if names.len() == 0 {
        Seq::empty()
    } else if names.len() == 1 {
        names[0]
    } else {
        listed(names.drop_last()) + ", "@ + names.last()
    }
}

/// The message that the outside parser gives for its error.
pub uninterp spec fn outside_message(error: syn::Error) -> Seq<char>;

/// The message of an error. It names the clause at fault; `outside` is what
/// the parser of the host language reported, where the error is its own.
pub open spec fn message_text(error: DirectiveErrorView, outside: Seq<char>) -> Seq<char> {
    match error {
        DirectiveErrorView::UnknownDirective { name, supported, .. } => "Unsupported parameter: '"@
            + name + "'. Supported parameters are: "@ + listed(supported),
        DirectiveErrorView::EmptyHookList { directive, .. } => "The '"@ + directive
            + "' parameter requires at least one function."@,
        DirectiveErrorView::MalformedFunctionSpec { directive, .. } => "The '"@ + directive
            + "' parameter expects a function path, optionally followed by arguments in parentheses."@,
        DirectiveErrorView::MalformedDirective { name, .. } => match name {
            Some(name) => "The '"@ + name + "' parameter must be followed by parentheses."@,
            None => "Expected a parameter of the form `name(...)`."@,
        },
        DirectiveErrorView::MissingComma { after, .. } => "Expected `,` after the '"@ + after
            + "' parameter."@,
        DirectiveErrorView::External { directive } => "In the '"@ + directive + "' parameter: "@
            + outside,
    }
}

/// `syn::Error`'s `Display`: the message of the outside parser, which is fixed
/// once the error is made.
#[verifier::external_body]
fn external_message(error: &syn::Error) -> (text: String)
    ensures
        text@ == outside_message(*error),
{
    error.to_string()
}

fn list_names(names: &Vec<String>) -> (text: String)
    ensures
        text@ == listed(names.deep_view()),
{
    let mut text = String::new();
    let mut i: usize = 0;
    proof {
        assert(names.deep_view().take(0) =~= Seq::<Seq<char>>::empty());
    }
    while i < names.len()
        invariant
            i <= names.len(),
            text@ == listed(names.deep_view().take(i as int)),
        decreases names.len() - i,
    {
        proof {
            let next = names.deep_view().take(i + 1);
            assert(next.drop_last() =~= names.deep_view().take(i as int));
            assert(next.last() == names[i as int]@);
        }
        if i > 0 {
            text.append(", ");
        } else {
            proof {
                assert(Seq::<char>::empty() + names[0]@ =~= names[0]@);
            }
        }
        text.append(names[i].as_str());
        i = i + 1;
    }
    proof {
        assert(names.deep_view().take(names.len() as int) =~= names.deep_view());
    }
    text
}

impl DirectiveError {
    /// The message for the user. It names the clause at fault and, for an
    /// unknown one, lists the supported names.
    pub fn message(&self) -> (text: String)
        ensures
            text@ == message_text(
                self.deep_view(),
                if self is External {
                    outside_message(self->error)
                } else {
                    Seq::empty()
                },
            ),
    {
        match self {
            DirectiveError::UnknownDirective { name, supported, .. } => {
                let mut text = String::from_str("Unsupported parameter: '");
                text.append(name.as_str());
                text.append("'. Supported parameters are: ");
                let names = list_names(supported);
                text.append(names.as_str());
                text
            },
            DirectiveError::EmptyHookList { directive, .. } => {
                let mut text = String::from_str("The '");
                text.append(directive.as_str());
                text.append("' parameter requires at least one function.");
                text
            },
            DirectiveError::MalformedFunctionSpec { directive, .. } => {
                let mut text = String::from_str("The '");
                text.append(directive.as_str());
                text.append(
                    "' parameter expects a function path, optionally followed by arguments in parentheses.",
                );
                text
            },
            DirectiveError::MalformedDirective { name, .. } => match name {
                Some(name) => {
                    let mut text = String::from_str("The '");
                    text.append(name.as_str());
                    text.append("' parameter must be followed by parentheses.");
                    text
                },
                None => String::from_str("Expected a parameter of the form `name(...)`."),
            },
            DirectiveError::MissingComma { after, .. } => {
                let mut text = String::from_str("Expected `,` after the '");
                text.append(after.as_str());
                text.append("' parameter.");
                text
            },
            DirectiveError::External { directive, error } => {
                let mut text = String::from_str("In the '");
                text.append(directive.as_str());
                text.append("' parameter: ");
                let outside = external_message(error);
                text.append(outside.as_str());
                text
            },
        }
    }
}

fn name_is(name: &String, expected: &str) -> (same: bool)
    ensures
        same == (name@ == expected@),
{
    let other = String::from_str(expected);
    *name == other
}

/// The names of the four directives.
pub fn supported() -> (names: Vec<String>)
    ensures
        names.deep_view() == supported_names(),
{
    let mut names: Vec<String> = Vec::new();
    names.push(String::from_str("prologue"));
    names.push(String::from_str("on_enter"));
    names.push(String::from_str("on_exit"));
    names.push(String::from_str("decorator"));
    proof {
        assert(names.deep_view() =~= supported_names());
    }
    names
}

/// The one tree, to point at.
fn single(tree: &TokenTree) -> (at: Fragment)
    ensures
        at.deep_view() == pieces(tree_content(*tree)),
{
    let mut trees: Vec<TokenTree> = Vec::new();
    let copy = clone_tree(tree);
    trees.push(copy);
    proof {
        let one = contents(trees@);
        let none = Seq::<Tree>::empty();
        assert(one.drop_last() =~= none);
        assert(one.last() == tree_content(copy));
        assert(settled(none) == none);
        assert(settled(one) == settled(one.drop_last()) + pieces(one.last()));
        assert(none + pieces(tree_content(copy)) =~= pieces(tree_content(copy)));
    }
    Fragment { trees }
}

/// The rejection of a function spec as the rejection of the clause `name`
/// that holds it.
fn clause_error(name: String, at: Fragment, error: SpecError) -> (e: DirectiveError)
    requires
        at.deep_view() == seq![Tree::Ident(name@)],
    ensures
        e.deep_view() == in_clause(name@, error.deep_view()),
{
    match error {
        SpecError::Malformed => DirectiveError::MalformedFunctionSpec { directive: name, at },
        SpecError::External(error) => DirectiveError::External { directive: name, error },
    }
}

impl FunctionSpec {
    /// Reads one function spec from the front of `input` and returns it with
    /// the trees that follow it.
    pub fn parse(input: &Vec<TokenTree>) -> (r: Result<(FunctionSpec, Vec<TokenTree>), SpecError>)
        ensures
            match r {
                Ok((spec, rest)) => parse_function_spec(contents(input@)) == Ok::<
                    (FunctionSpecView, Seq<Tree>),
                    SpecErrorView,
                >((spec.deep_view(), contents(rest@))),
                Err(e) => parse_function_spec(contents(input@)) == Err::<
                    (FunctionSpecView, Seq<Tree>),
                    SpecErrorView,
                >(e.deep_view()),
            },
    {
        proof {
            assert(input@.skip(0) =~= input@);
        }
        FunctionSpec::parse_at(input, 0)
    }

    /// Reads one function spec from `input`, starting at index `from`.
    fn parse_at(input: &Vec<TokenTree>, from: usize) -> (r: Result<
        (FunctionSpec, Vec<TokenTree>),
        SpecError,
    >)
        requires
            from <= input.len(),
        ensures
            match r {
                Ok((spec, rest)) => parse_function_spec(contents(input@.skip(from as int))) == Ok::<
                    (FunctionSpecView, Seq<Tree>),
                    SpecErrorView,
                >((spec.deep_view(), contents(rest@))),
                Err(e) => parse_function_spec(contents(input@.skip(from as int))) == Err::<
                    (FunctionSpecView, Seq<Tree>),
                    SpecErrorView,
                >(e.deep_view()),
            },
    {
        match split_path(input, from) {
            Err(_) => Err(SpecError::Malformed),
            Ok((path, rest)) => {
                if rest.len() >= input.len() - from {
                    return Err(SpecError::Malformed);
                }
                if rest.len() > 0 {
                    match classify(&rest[0]) {
                        Token::Group(Delim::Paren, inner) => {
                            match parse_expression_list(&inner) {
                                Err(e) => Err(SpecError::External(e)),
                                Ok(args) => {
                                    let mut rest = rest;
                                    let ghost before = rest@;
                                    let _ = rest.remove(0);
                                    proof {
                                        assert(rest@ =~= before.skip(1));
                                        lemma_contents_skip(before, 1);
                                    }
                                    Ok((FunctionSpec::WithArgs(path, args), rest))
                                },
                            }
                        },
                        _ => Ok((FunctionSpec::Simple(path), rest)),
                    }
                } else {
                    Ok((FunctionSpec::Simple(path), rest))
                }
            },
        }
    }
}

impl FunctionSpecList {
    /// Reads the whole of `input` as function specs separated by commas.
    pub fn parse(input: &Vec<TokenTree>) -> (r: Result<FunctionSpecList, SpecError>)
        ensures
            match r {
                Ok(specs) => parse_spec_list(contents(input@)) == Ok::<
                    Seq<FunctionSpecView>,
                    SpecErrorView,
                >(specs.deep_view()),
                Err(e) => parse_spec_list(contents(input@)) == Err::<
                    Seq<FunctionSpecView>,
                    SpecErrorView,
                >(e.deep_view()),
            },
    {
        let ghost whole = parse_spec_list(contents(input@));
        let mut list: Vec<FunctionSpec> = Vec::new();
        if input.len() == 0 {
            proof {
                assert(list.deep_view() =~= Seq::<FunctionSpecView>::empty());
            }
            return Ok(FunctionSpecList { list });
        }
        let (first, first_rest) = match FunctionSpec::parse(input) {
            Err(e) => {
                return Err(e);
            },
            Ok(pair) => pair,
        };
        let mut rest = first_rest;
        list.push(first);
        proof {
            assert(list.deep_view() =~= seq![first.deep_view()]);
            assert(seq![first.deep_view()] + Seq::<FunctionSpecView>::empty() =~= seq![
                first.deep_view(),
            ]);
        }
        loop
            invariant
                whole == parse_spec_list(contents(input@)),
                whole == followed_by(list.deep_view(), after_spec(contents(rest@))),
            decreases rest.len(),
        {
            if rest.len() == 0 {
                proof {
                    assert(list.deep_view() + Seq::<FunctionSpecView>::empty() =~= list.deep_view());
                }
                return Ok(FunctionSpecList { list });
            }
            let comma = match classify(&rest[0]) {
                Token::Punct(c, _) => c == ',',
                _ => false,
            };
            if !comma {
                return Err(SpecError::Malformed);
            }
            proof {
                lemma_contents_skip(rest@, 1);
            }
            if rest.len() == 1 {
                proof {
                    assert(list.deep_view() + Seq::<FunctionSpecView>::empty() =~= list.deep_view());
                }
                return Ok(FunctionSpecList { list });
            }
            let (next, next_rest) = match FunctionSpec::parse_at(&rest, 1) {
                Err(e) => {
                    return Err(e);
                },
                Ok(pair) => pair,
            };
            let ghost done = list.deep_view();
            list.push(next);
            proof {
                assert(list.deep_view() =~= done.push(next.deep_view()));
                let after = after_spec(contents(next_rest@));
                match after {
                    Err(_) => {},
                    Ok(others) => {
                        assert(done + (seq![next.deep_view()] + others) =~= done.push(
                            next.deep_view(),
                        ) + others);
                        if next_rest.len() == 0 {
                            assert(seq![next.deep_view()] + others =~= seq![next.deep_view()]);
                        }
                    },
                }
            }
            rest = next_rest;
        }
    }
}

impl AxinArg {
    /// The name of the directive that the clause belongs to.
    pub fn name(&self) -> (name: String)
        ensures
            name@ == clause_name(self.deep_view()),
    {
        match self {
            AxinArg::Prologue { .. } => String::from_str("prologue"),
            AxinArg::OnEnter { .. } => String::from_str("on_enter"),
            AxinArg::OnExit { .. } => String::from_str("on_exit"),
            AxinArg::Decorator { .. } => String::from_str("decorator"),
        }
    }

    /// Reads the clause that the first two trees of `input` make up: a name
    /// and a group in round brackets.
    pub fn parse(input: &Vec<TokenTree>) -> (r: Result<AxinArg, DirectiveError>)
        ensures
            match r {
                Ok(arg) => parse_directive(contents(input@)) == Ok::<
                    AxinArgView,
                    DirectiveErrorView,
                >(arg.deep_view()),
                Err(e) => parse_directive(contents(input@)) == Err::<
                    AxinArgView,
                    DirectiveErrorView,
                >(e.deep_view()),
            },
    {
        proof {
            assert(input@.skip(0) =~= input@);
        }
        AxinArg::parse_at(input, 0)
    }

    /// Reads the clause made up of the trees at `from` and `from + 1`.
    fn parse_at(input: &Vec<TokenTree>, from: usize) -> (r: Result<AxinArg, DirectiveError>)
        requires
            from <= input.len(),
        ensures
            match r {
                Ok(arg) => parse_directive(contents(input@.skip(from as int))) == Ok::<
                    AxinArgView,
                    DirectiveErrorView,
                >(arg.deep_view()),
                Err(e) => parse_directive(contents(input@.skip(from as int))) == Err::<
                    AxinArgView,
                    DirectiveErrorView,
                >(e.deep_view()),
            },
    {
        if input.len() - from < 1 {
            return Err(DirectiveError::MalformedDirective { name: None, at: Fragment::empty() });
        }
        let at = single(&input[from]);
        let name = match classify(&input[from]) {
            Token::Ident(name) => name,
            _ => {
                return Err(DirectiveError::MalformedDirective { name: None, at });
            },
        };
        if input.len() - from < 2 {
            return Err(DirectiveError::MalformedDirective { name: Some(name), at });
        }
        let body = match classify(&input[from + 1]) {
            Token::Group(Delim::Paren, body) => body,
            _ => {
                return Err(DirectiveError::MalformedDirective { name: Some(name), at });
            },
        };
        if name_is(&name, "prologue") {
            match parse_block_statements(&body) {
                Err(error) => Err(DirectiveError::External { directive: name, error }),
                Ok(stmts) => Ok(AxinArg::Prologue { stmts: terminate_all(&stmts) }),
            }
        } else if name_is(&name, "on_enter") || name_is(&name, "on_exit") {
            let funcs = match FunctionSpecList::parse(&open_invisible(&body)) {
                Err(e) => {
                    return Err(clause_error(name, at, e));
                },
                Ok(funcs) => funcs,
            };
            if funcs.list.len() == 0 {
                return Err(DirectiveError::EmptyHookList { directive: name, at });
            }
            if name_is(&name, "on_enter") {
                Ok(AxinArg::OnEnter { funcs })
            } else {
                Ok(AxinArg::OnExit { funcs })
            }
        } else if name_is(&name, "decorator") {
            match FunctionSpec::parse(&open_invisible(&body)) {
                Err(e) => Err(clause_error(name, at, e)),
                Ok((func, rest)) => {
                    if rest.len() == 0 {
                        Ok(AxinArg::Decorator { func })
                    } else {
                        Err(DirectiveError::MalformedFunctionSpec { directive: name, at })
                    }
                },
            }
        } else {
            Err(DirectiveError::UnknownDirective { name, supported: supported(), at })
        }
    }
}

impl AxinArgs {
    /// Reads a directive list from the tokens between the brackets of one
    /// attribute.
    pub fn parse(stream: TokenStream) -> (r: Result<AxinArgs, DirectiveError>)
        ensures
            match r {
                Ok(args) => parse_attribute(stream_trees(stream)) == Ok::<
                    Seq<AxinArgView>,
                    DirectiveErrorView,
                >(args.deep_view()),
                Err(e) => parse_attribute(stream_trees(stream)) == Err::<
                    Seq<AxinArgView>,
                    DirectiveErrorView,
                >(e.deep_view()),
            },
    {
        let input = open_invisible(&stream_to_trees(stream));
        let ghost whole = parse_directives(contents(input@));
        let mut args: Vec<AxinArg> = Vec::new();
        let mut pos: usize = 0;
        proof {
            assert(args.deep_view() =~= Seq::<AxinArgView>::empty());
            assert(input@.skip(0) =~= input@);
            match whole {
                Err(_) => {},
                Ok(all) => {
                    assert(Seq::<AxinArgView>::empty() + all =~= all);
                },
            }
        }
        while pos < input.len()
            invariant
                pos <= input.len(),
                contents(input@) == opened(stream_trees(stream)),
                whole == parse_directives(contents(input@)),
                whole == followed_by(
                    args.deep_view(),
                    parse_directives(contents(input@.skip(pos as int))),
                ),
            decreases input.len() - pos,
        {
            let ghost here = contents(input@.skip(pos as int));
            let arg = match AxinArg::parse_at(&input, pos) {
                Err(e) => {
                    return Err(e);
                },
                Ok(arg) => arg,
            };
            let after = arg.name();
            let ghost done = args.deep_view();
            args.push(arg);
            proof {
                assert(args.deep_view() =~= done.push(arg.deep_view()));
                assert(here.len() >= 2);
            }
            if input.len() - pos == 2 {
                proof {
                    assert(done + seq![arg.deep_view()] =~= args.deep_view());
                }
                return Ok(AxinArgs { args });
            }
            let comma = match classify(&input[pos + 2]) {
                Token::Punct(c, _) => c == ',',
                _ => false,
            };
            proof {
                assert(here[2] == tree_content(input@[pos + 2]));
            }
            if !comma {
                return Err(DirectiveError::MissingComma { after, at: single(&input[pos + 2]) });
            }
            proof {
                assert(input@.skip(pos as int).skip(3) =~= input@.skip(pos + 3));
                lemma_contents_skip(input@.skip(pos as int), 3);
                match parse_directives(here.skip(3)) {
                    Err(_) => {},
                    Ok(others) => {
                        assert(done + (seq![arg.deep_view()] + others) =~= done.push(
                            arg.deep_view(),
                        ) + others);
                    },
                }
            }
            pos = pos + 3;
        }
        proof {
            assert(args.deep_view() + Seq::<AxinArgView>::empty() =~= args.deep_view());
        }
        Ok(AxinArgs { args })
    }
}

} // verus!
