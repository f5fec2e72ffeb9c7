//! The host language's own grammar, which `syn` parses: paths, expressions and
//! statements. Each function that calls the parser says what is taken on
//! trust of it.

use crate::tokens::{contents, lemma_held_push, make_punct, semicolon, Fragment, Tree};
use proc_macro2::{TokenStream, TokenTree};
use vstd::prelude::*;

verus! {

/// `syn::Error`, carried through unopened.
#[verifier::external_type_specification]
#[verifier::external_body]
pub struct ExSynError(syn::Error);

/// One statement of a block, as the statement parser classifies it.
#[derive(Clone, Debug)]
pub enum Statement {
    /// An expression without a terminator: in last position it would be the
    /// value of its block.
    Expression(Fragment),
    /// Any other statement.
    Complete(Fragment),
}

/// The content of a [`Statement`].
pub enum StatementView {
    Expression(Seq<Tree>),
    Complete(Seq<Tree>),
}

impl DeepView for Statement {
    type V = StatementView;

    open spec fn deep_view(&self) -> StatementView {
        match self {
            Statement::Expression(tokens) => StatementView::Expression(tokens.deep_view()),
            Statement::Complete(tokens) => StatementView::Complete(tokens.deep_view()),
        }
    }
}

/// A statement with its terminator: an expression without one gets a
/// semicolon, so that it is never taken for the value of a block.
pub open spec fn terminated(stmt: StatementView) -> Seq<Tree> {
    match stmt {
        StatementView::Expression(tokens) => tokens.push(semicolon()),
        StatementView::Complete(tokens) => tokens,
    }
}

/// Each statement with its terminator.
pub open spec fn terminated_all(stmts: Seq<StatementView>) -> Seq<Seq<Tree>> {
    stmts.map_values(|s: StatementView| terminated(s))
}

/// A statement with its terminator.
pub fn terminate(stmt: &Statement) -> (tokens: Fragment)
    ensures
        tokens.deep_view() == terminated(stmt.deep_view()),
{
    match stmt {
        Statement::Expression(expression) => {
            let mut trees = expression.copy().trees;
            let semi = make_punct(';');
            proof {
                lemma_held_push(trees@, semi);
            }
            trees.push(semi);
            Fragment { trees }
        },
        Statement::Complete(tokens) => tokens.copy(),
    }
}

/// Each statement with its terminator.
pub fn terminate_all(stmts: &Vec<Statement>) -> (list: Vec<Fragment>)
    ensures
        list.deep_view() == terminated_all(stmts.deep_view()),
{
    let mut list: Vec<Fragment> = Vec::new();
    let mut i: usize = 0;
    while i < stmts.len()
        invariant
            i <= stmts.len(),
            list.len() == i,
            forall|k: int| 0 <= k < i ==> list[k].deep_view() == terminated(stmts[k].deep_view()),
        decreases stmts.len() - i,
    {
        list.push(terminate(&stmts[i]));
        i = i + 1;
    }
    proof {
        assert(list.deep_view() =~= terminated_all(stmts.deep_view()));
    }
    list
}

/// The path that `syn` reads from the front of `trees`, with the trees that
/// follow it; `None` where no path begins there.
pub uninterp spec fn path_prefix(trees: Seq<Tree>) -> Option<(Seq<Tree>, Seq<Tree>)>;

/// The expressions that `syn` reads from `trees` as a comma-separated list
/// that fills them, a trailing comma allowed; `None` where they are no such
/// list.
pub uninterp spec fn expression_list(trees: Seq<Tree>) -> Option<Seq<Seq<Tree>>>;

/// The statements that `syn` reads from `trees` as the inside of a block;
/// `None` where they are no such thing.
pub uninterp spec fn block_statements(trees: Seq<Tree>) -> Option<Seq<StatementView>>;

/// `syn::Path::parse` on the trees of `input` from index `from` on, run by
/// `syn::parse::Parser::parse2`; the rest of the input is then taken as it
/// stands. The path comes back as the tokens that `syn` prints for it.
///
/// Taken on trust: whether a path is found, which tokens make it up and which
/// trees follow depends on the content of the trees alone, not on their
/// spans. [`path_prefix`] is the name of that result.
#[verifier::external_body]
pub(crate) fn split_path(input: &Vec<TokenTree>, from: usize) -> (r: Result<
    (Fragment, Vec<TokenTree>),
    syn::Error,
>)
    requires
        from <= input.len(),
    ensures
        match r {
            Ok((path, rest)) => path_prefix(contents(input@.skip(from as int))) == Some(
                (path.deep_view(), contents(rest@)),
            ),
            Err(_) => path_prefix(contents(input@.skip(from as int))) is None,
        },
{
    let stream: TokenStream = input[from..].iter().cloned().collect();
    let (path, rest) = syn::parse::Parser::parse2(
        |cursor: syn::parse::ParseStream| {
            Ok((cursor.parse::<syn::Path>()?, cursor.parse::<TokenStream>()?))
        },
        stream,
    )?;
    let trees = quote::ToTokens::into_token_stream(path).into_iter().collect();
    Ok((Fragment { trees }, rest.into_iter().collect()))
}

/// `Punctuated::<Expr, Comma>::parse_terminated` on the whole of `input`,
/// run by `syn::parse::Parser::parse2`. Each expression comes back as the
/// tokens that `syn` prints for it.
///
/// Taken on trust: the result depends on the content of the trees alone.
/// [`expression_list`] is its name.
#[verifier::external_body]
pub(crate) fn parse_expression_list(input: &Vec<TokenTree>) -> (r: Result<Vec<Fragment>, syn::Error>)
    ensures
        match r {
            Ok(list) => expression_list(contents(input@)) == Some(list.deep_view()),
            Err(_) => expression_list(contents(input@)) is None,
        },
{
    let stream: TokenStream = input.iter().cloned().collect();
    let list = syn::parse::Parser::parse2(
        syn::punctuated::Punctuated::<syn::Expr, syn::token::Comma>::parse_terminated,
        stream,
    )?;
    Ok(
        list.into_iter().map(
            |e| Fragment { trees: quote::ToTokens::into_token_stream(e).into_iter().collect() },
        ).collect(),
    )
}

/// `syn::Block::parse_within` on the whole of `input`, run by
/// `syn::parse::Parser::parse2`. A statement that is `Stmt::Expr` without a
/// semicolon comes back as [`Statement::Expression`], any other as
/// [`Statement::Complete`], each with the tokens that `syn` prints for it.
///
/// Taken on trust: the result depends on the content of the trees alone.
/// [`block_statements`] is its name.
#[verifier::external_body]
pub(crate) fn parse_block_statements(input: &Vec<TokenTree>) -> (r: Result<Vec<Statement>, syn::Error>)
    ensures
        match r {
            Ok(list) => block_statements(contents(input@)) == Some(list.deep_view()),
            Err(_) => block_statements(contents(input@)) is None,
        },
{
    let stream: TokenStream = input.iter().cloned().collect();
    let list = syn::parse::Parser::parse2(syn::Block::parse_within, stream)?;
    Ok(
        list.into_iter().map(
            |s| match s {
                syn::Stmt::Expr(e, None) => Statement::Expression(
                    Fragment { trees: quote::ToTokens::into_token_stream(e).into_iter().collect() },
                ),
                other => Statement::Complete(
                    Fragment { trees: quote::ToTokens::into_token_stream(other).into_iter().collect() },
                ),
            },
        ).collect(),
    )
}

} // verus!
