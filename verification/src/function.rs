//! Function declarations, as the weaver takes them and as it hands them back.
//!
//! The pieces of a declaration that the weaver does not read (visibility,
//! qualifiers, types, statements) are fragments of tokens.

use crate::args::{FunctionSpec, FunctionSpecView};
use crate::tokens::{Fragment, Tree};
use vstd::prelude::*;

verus! {

/// How a parameter binds its argument.
#[derive(Clone, Debug)]
pub enum Binding {
    /// By a plain identifier pattern; the fragment is that identifier.
    Identifier(Fragment),
    /// By any other pattern, or as the receiver.
    Other,
}

/// The content of a [`Binding`].
pub enum BindingView {
    Identifier(Seq<Tree>),
    Other,
}

impl DeepView for Binding {
    type V = BindingView;

    open spec fn deep_view(&self) -> BindingView {
        match self {
            Binding::Identifier(name) => BindingView::Identifier(name.deep_view()),
            Binding::Other => BindingView::Other,
        }
    }
}

/// One parameter of a function.
#[derive(Clone, Debug)]
pub struct Parameter {
    /// The parameter as it is declared: pattern, colon and type.
    pub source: Fragment,
    pub binding: Binding,
}

/// The content of a [`Parameter`].
pub struct ParameterView {
    pub source: Seq<Tree>,
    pub binding: BindingView,
}

impl DeepView for Parameter {
    type V = ParameterView;

    open spec fn deep_view(&self) -> ParameterView {
        ParameterView { source: self.source.deep_view(), binding: self.binding.deep_view() }
    }
}

/// The signature of a function.
#[derive(Clone, Debug)]
pub struct Signature {
    /// What stands before the parameter list: attributes, visibility,
    /// qualifiers, `fn`, the name and the generic parameters.
    pub head: Fragment,
    /// The parameters, in declaration order.
    pub params: Vec<Parameter>,
    /// The return type with its arrow; empty where none is written.
    pub output: Fragment,
    /// The `where` clause; empty where there is none.
    pub where_clause: Fragment,
}

/// The content of a [`Signature`].
pub struct SignatureView {
    pub head: Seq<Tree>,
    pub params: Seq<ParameterView>,
    pub output: Seq<Tree>,
    pub where_clause: Seq<Tree>,
}

impl DeepView for Signature {
    type V = SignatureView;

    open spec fn deep_view(&self) -> SignatureView {
        SignatureView {
            head: self.head.deep_view(),
            params: self.params.deep_view(),
            output: self.output.deep_view(),
            where_clause: self.where_clause.deep_view(),
        }
    }
}

/// A function as it was written: its signature and the statements of its
/// body.
#[derive(Clone, Debug)]
pub struct FunctionDecl {
    pub signature: Signature,
    pub body: Vec<Fragment>,
}

/// The content of a [`FunctionDecl`].
pub struct FunctionDeclView {
    pub signature: SignatureView,
    pub body: Seq<Seq<Tree>>,
}

impl DeepView for FunctionDecl {
    type V = FunctionDeclView;

    open spec fn deep_view(&self) -> FunctionDeclView {
        FunctionDeclView { signature: self.signature.deep_view(), body: self.body.deep_view() }
    }
}

/// One statement of a woven body.
#[derive(Clone, Debug)]
pub enum WovenStmt {
    /// A statement taken over as it was written.
    Source(Fragment),
    /// A hook called for its effect; what it returns is dropped.
    HookCall(FunctionSpec),
    /// The definition of the core callable: the parameters and return type of
    /// the function, around the prologue and the statements of its body.
    DefineCore { params: Vec<Fragment>, output: Fragment, body: Vec<Fragment> },
    /// The one call that yields the result: of the decorator, which gets the
    /// core callable and then the forwarded arguments, or of the core callable
    /// itself with the forwarded arguments.
    BindResult { decorator: Option<FunctionSpec>, forwarded: Vec<Fragment> },
    /// The return of the bound result.
    ReturnResult,
}

/// The content of a [`WovenStmt`].
pub enum WovenStmtView {
    Source(Seq<Tree>),
    HookCall(FunctionSpecView),
    DefineCore { params: Seq<Seq<Tree>>, output: Seq<Tree>, body: Seq<Seq<Tree>> },
    BindResult { decorator: Option<FunctionSpecView>, forwarded: Seq<Seq<Tree>> },
    ReturnResult,
}

impl DeepView for WovenStmt {
    type V = WovenStmtView;

    open spec fn deep_view(&self) -> WovenStmtView {
        match self {
            WovenStmt::Source(tokens) => WovenStmtView::Source(tokens.deep_view()),
            WovenStmt::HookCall(hook) => WovenStmtView::HookCall(hook.deep_view()),
            WovenStmt::DefineCore { params, output, body } => WovenStmtView::DefineCore {
                params: params.deep_view(),
                output: output.deep_view(),
                body: body.deep_view(),
            },
            WovenStmt::BindResult { decorator, forwarded } => WovenStmtView::BindResult {
                decorator: decorator.deep_view(),
                forwarded: forwarded.deep_view(),
            },
            WovenStmt::ReturnResult => WovenStmtView::ReturnResult,
        }
    }
}

/// A function after weaving: the signature it had, and its new body.
#[derive(Clone, Debug)]
pub struct WovenFunction {
    pub signature: Signature,
    pub body: Vec<WovenStmt>,
}

/// The content of a [`WovenFunction`].
pub struct WovenFunctionView {
    pub signature: SignatureView,
    pub body: Seq<WovenStmtView>,
}

impl DeepView for WovenFunction {
    type V = WovenFunctionView;

    open spec fn deep_view(&self) -> WovenFunctionView {
        WovenFunctionView { signature: self.signature.deep_view(), body: self.body.deep_view() }
    }
}

/// Copies `source` to the end of `target`.
pub fn extend_fragments(target: &mut Vec<Fragment>, source: &Vec<Fragment>)
    ensures
        final(target).deep_view() == old(target).deep_view() + source.deep_view(),
{
    let mut i: usize = 0;
    proof {
        assert(target.deep_view() =~= old(target).deep_view() + source.deep_view().take(0));
    }
    while i < source.len()
        invariant
            i <= source.len(),
            target.deep_view() == old(target).deep_view() + source.deep_view().take(i as int),
        decreases source.len() - i,
    {
        let copy = source[i].copy();
        let ghost before = target.deep_view();
        target.push(copy);
        proof {
            assert(target.deep_view() =~= before.push(copy.deep_view()));
            assert(source.deep_view().take(i + 1) =~= source.deep_view().take(i as int).push(
                source.deep_view()[i as int],
            ));
            assert(target.deep_view() =~= old(target).deep_view() + source.deep_view().take(i + 1));
        }
        i = i + 1;
    }
    proof {
        assert(source.deep_view().take(source.len() as int) =~= source.deep_view());
    }
}

/// A list of fragments with the same contents.
pub fn copy_fragments(source: &Vec<Fragment>) -> (copy: Vec<Fragment>)
    ensures
        copy.deep_view() == source.deep_view(),
{
    let mut copy: Vec<Fragment> = Vec::new();
    proof {
        assert(copy.deep_view() =~= Seq::<Seq<Tree>>::empty());
    }
    extend_fragments(&mut copy, source);
    proof {
        assert(Seq::<Seq<Tree>>::empty() + source.deep_view() =~= source.deep_view());
    }
    copy
}

impl FunctionSpec {
    /// A function spec with the same content.
    pub fn copy(&self) -> (spec: FunctionSpec)
        ensures
            spec.deep_view() == self.deep_view(),
    {
        match self {
            FunctionSpec::Simple(path) => FunctionSpec::Simple(path.copy()),
            FunctionSpec::WithArgs(path, args) => FunctionSpec::WithArgs(
                path.copy(),
                copy_fragments(args),
            ),
        }
    }
}

/// Copies `source` to the end of `target`.
pub fn extend_specs(target: &mut Vec<FunctionSpec>, source: &Vec<FunctionSpec>)
    ensures
        final(target).deep_view() == old(target).deep_view() + source.deep_view(),
{
    let mut i: usize = 0;
    proof {
        assert(target.deep_view() =~= old(target).deep_view() + source.deep_view().take(0));
    }
    while i < source.len()
        invariant
            i <= source.len(),
            target.deep_view() == old(target).deep_view() + source.deep_view().take(i as int),
        decreases source.len() - i,
    {
        let copy = source[i].copy();
        let ghost before = target.deep_view();
        target.push(copy);
        proof {
            assert(target.deep_view() =~= before.push(copy.deep_view()));
            assert(source.deep_view().take(i + 1) =~= source.deep_view().take(i as int).push(
                source.deep_view()[i as int],
            ));
            assert(target.deep_view() =~= old(target).deep_view() + source.deep_view().take(i + 1));
        }
        i = i + 1;
    }
    proof {
        assert(source.deep_view().take(source.len() as int) =~= source.deep_view());
    }
}

} // verus!
