//! Function instrumentation: directives attached to a function are parsed and
//! woven into a new body with a fixed execution order.
//!
//! 1. the entry hooks, in declaration order;
//! 2. the decorator, where there is one, which gets the core callable;
//! 3. inside the core callable the prologue statements, then the body that
//!    the function was written with;
//! 4. the exit hooks, in declaration order;
//! 5. the return of what the decorator, or else the core callable, returned.

pub mod args;
pub mod emit;
pub mod function;
pub mod generator;
pub mod laws;
pub mod syntax;
pub mod tokens;

use crate::args::{parse_attribute, AxinArgView, AxinArgs, DirectiveError, DirectiveErrorView};
use crate::function::{FunctionDecl, WovenFunction};
use crate::generator::{collect, weave, woven_function, DirectiveSet};
use crate::tokens::stream_trees;
use proc_macro2::TokenStream;
use vstd::prelude::*;

verus! {

/// Reads the directive list `args` and weaves it into `input`.
///
/// A directive list that is rejected yields its error and no function. A
/// list without directives yields `input` as it was written.
pub fn axin(args: TokenStream, input: FunctionDecl) -> (r: Result<WovenFunction, DirectiveError>)
    ensures
        match r {
            Ok(woven) => parse_attribute(stream_trees(args)) matches Ok(list)
                && woven.deep_view() == woven_function(input.deep_view(), collect(list)),
            Err(e) => parse_attribute(stream_trees(args)) == Err::<
                Seq<AxinArgView>,
                DirectiveErrorView,
            >(e.deep_view()),
        },
{
    match AxinArgs::parse(args) {
        Err(e) => Err(e),
        Ok(attribute_args) => Ok(weave(input, DirectiveSet::from_args(attribute_args))),
    }
}

} // verus!
