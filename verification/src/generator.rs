//! The weaver: from a function and its directives to the woven function.
//!
//! A woven body runs in a fixed order: the entry hooks, the definition of the
//! core callable (prologue, then the statements that the function was written
//! with), the one call that yields the result (through the decorator where
//! there is one), the exit hooks, and the return of the result.
//!
//! Nothing guards the exit hooks: where the call that yields the result does
//! not return, the statements after it do not run.
//!
//! A function without any directive is not woven: it stays as it was written.

use crate::args::{
    AxinArg, AxinArgView, AxinArgs, FunctionSpec, FunctionSpecList, FunctionSpecView,
};
use crate::function::{
    copy_fragments, extend_fragments, extend_specs, Binding, BindingView, FunctionDecl,
    FunctionDeclView, Parameter, ParameterView, WovenFunction, WovenFunctionView, WovenStmt,
    WovenStmtView,
};
use crate::tokens::{
    comma, held, join_with_commas, joined, lemma_held_empty, lemma_held_push, make_group,
    make_ident, tree_content, Delim, Fragment, Tree,
};
use proc_macro2::TokenTree;
use vstd::prelude::*;

verus! {

/// The directives attached to one function, accumulated.
#[derive(Clone, Debug)]
pub struct DirectiveSet {
    /// Statements that run inside the core callable, before the body that the
    /// function was written with.
    pub prologue: Vec<Fragment>,
    /// Hooks called first, in this order.
    pub entry_hooks: Vec<FunctionSpec>,
    /// Hooks called after the result is bound, in this order.
    pub exit_hooks: Vec<FunctionSpec>,
    /// The callable that wraps the core callable, where there is one.
    pub decorator: Option<FunctionSpec>,
}

/// The content of a [`DirectiveSet`].
pub struct DirectiveSetView {
    pub prologue: Seq<Seq<Tree>>,
    pub entry_hooks: Seq<FunctionSpecView>,
    pub exit_hooks: Seq<FunctionSpecView>,
    pub decorator: Option<FunctionSpecView>,
}

impl DeepView for DirectiveSet {
    type V = DirectiveSetView;

    open spec fn deep_view(&self) -> DirectiveSetView {
        DirectiveSetView {
            prologue: self.prologue.deep_view(),
            entry_hooks: self.entry_hooks.deep_view(),
            exit_hooks: self.exit_hooks.deep_view(),
            decorator: self.decorator.deep_view(),
        }
    }
}

/// The set without any directive.
pub open spec fn empty_set() -> DirectiveSetView {
    DirectiveSetView {
        prologue: Seq::empty(),
        entry_hooks: Seq::empty(),
        exit_hooks: Seq::empty(),
        decorator: None,
    }
}

/// Whether a set holds no prologue statement, no hook and no decorator.
pub open spec fn is_empty_set(set: DirectiveSetView) -> bool {
    set.prologue.len() == 0 && set.entry_hooks.len() == 0 && set.exit_hooks.len() == 0
        && set.decorator is None
}

/// `set` after one more clause. Hooks are added behind those already there;
/// a prologue takes the place of an earlier prologue, and a decorator that of
/// an earlier decorator.
pub open spec fn absorb(set: DirectiveSetView, arg: AxinArgView) -> DirectiveSetView {
    match arg {
        AxinArgView::Prologue(stmts) => DirectiveSetView { prologue: stmts, ..set },
        AxinArgView::OnEnter(funcs) => DirectiveSetView {
            entry_hooks: set.entry_hooks + funcs,
            ..set
        },
        AxinArgView::OnExit(funcs) => DirectiveSetView { exit_hooks: set.exit_hooks + funcs, ..set },
        AxinArgView::Decorator(func) => DirectiveSetView { decorator: Some(func), ..set },
    }
}

/// The set that a list of clauses adds up to, read from left to right.
pub open spec fn collect(args: Seq<AxinArgView>) -> DirectiveSetView
    decreases args.len(),
{
    if args.len() == 0 {
        empty_set()
    } else {
        absorb(collect(args.drop_last()), args.last())
    }
}

/// The prologue statements of a set as one clause; no clause where there are
/// none.
pub open spec fn prologue_clause(prologue: Seq<Seq<Tree>>) -> Seq<AxinArgView> {
    if prologue.len() == 0 {
        Seq::empty()
    } else {
        seq![AxinArgView::Prologue(prologue)]
    }
}

/// The entry hooks of a set as one clause; no clause where there are none.
pub open spec fn entry_clause(hooks: Seq<FunctionSpecView>) -> Seq<AxinArgView> {
    if hooks.len() == 0 {
        Seq::empty()
    } else {
        seq![AxinArgView::OnEnter(hooks)]
    }
}

/// The decorator of a set as a clause; no clause where there is none.
pub open spec fn decorator_clause(decorator: Option<FunctionSpecView>) -> Seq<AxinArgView> {
    match decorator {
        None => Seq::empty(),
        Some(func) => seq![AxinArgView::Decorator(func)],
    }
}

/// The exit hooks of a set as one clause; no clause where there are none.
pub open spec fn exit_clause(hooks: Seq<FunctionSpecView>) -> Seq<AxinArgView> {
    if hooks.len() == 0 {
        Seq::empty()
    } else {
        seq![AxinArgView::OnExit(hooks)]
    }
}

/// The canonical directive list of a set: at most one clause of each kind,
/// in the order prologue, entry hooks, decorator, exit hooks.
pub open spec fn canonical(set: DirectiveSetView) -> Seq<AxinArgView> {
    prologue_clause(set.prologue) + entry_clause(set.entry_hooks) + decorator_clause(
        set.decorator,
    ) + exit_clause(set.exit_hooks)
}

/// The arguments that are forwarded to the core callable: the names of the
/// parameters bound by a plain identifier, in declaration order. Other
/// parameters are left out.
pub open spec fn forwarded_names(params: Seq<ParameterView>) -> Seq<Seq<Tree>>
    decreases params.len(),
{
    if params.len() == 0 {
        Seq::empty()
    } else {
        let before = forwarded_names(params.drop_last());
        match params.last().binding {
            BindingView::Identifier(name) => before.push(name),
            BindingView::Other => before,
        }
    }
}

/// The parameters as they are declared, in declaration order.
pub open spec fn declared_params(params: Seq<ParameterView>) -> Seq<Seq<Tree>> {
    params.map_values(|p: ParameterView| p.source)
}

/// Each hook as a call statement.
pub open spec fn hook_calls(hooks: Seq<FunctionSpecView>) -> Seq<WovenStmtView> {
    hooks.map_values(|f: FunctionSpecView| WovenStmtView::HookCall(f))
}

/// The definition of the core callable of `decl` with the given prologue.
pub open spec fn core_definition(decl: FunctionDeclView, prologue: Seq<Seq<Tree>>) -> WovenStmtView {
    WovenStmtView::DefineCore {
        params: declared_params(decl.signature.params),
        output: decl.signature.output,
        body: prologue + decl.body,
    }
}

/// The statement that binds the result of `decl`.
pub open spec fn result_binding(
    decl: FunctionDeclView,
    decorator: Option<FunctionSpecView>,
) -> WovenStmtView {
    WovenStmtView::BindResult { decorator, forwarded: forwarded_names(decl.signature.params) }
}

/// The body that weaving gives to `decl`.
pub open spec fn woven_body(
    decl: FunctionDeclView,
    prologue: Seq<Seq<Tree>>,
    decorator: Option<FunctionSpecView>,
    on_enter: Seq<FunctionSpecView>,
    on_exit: Seq<FunctionSpecView>,
) -> Seq<WovenStmtView> {
    hook_calls(on_enter) + seq![core_definition(decl, prologue), result_binding(decl, decorator)]
        + hook_calls(on_exit) + seq![WovenStmtView::ReturnResult]
}

/// The body of `decl`, each statement taken over as it was written.
pub open spec fn source_body(decl: FunctionDeclView) -> Seq<WovenStmtView> {
    decl.body.map_values(|s: Seq<Tree>| WovenStmtView::Source(s))
}

/// `decl` as a woven function to which nothing was added.
pub open spec fn unchanged(decl: FunctionDeclView) -> WovenFunctionView {
    WovenFunctionView { signature: decl.signature, body: source_body(decl) }
}

/// What weaving makes of `decl` under `set`: `decl` itself where the set is
/// empty, and else the woven body under the signature of `decl`.
pub open spec fn woven_function(decl: FunctionDeclView, set: DirectiveSetView) -> WovenFunctionView {
    if is_empty_set(set) {
        unchanged(decl)
    } else {
        WovenFunctionView {
            signature: decl.signature,
            body: woven_body(decl, set.prologue, set.decorator, set.entry_hooks, set.exit_hooks),
        }
    }
}

fn push_hook_calls(body: &mut Vec<WovenStmt>, hooks: &Vec<FunctionSpec>)
    ensures
        final(body).deep_view() == old(body).deep_view() + hook_calls(hooks.deep_view()),
{
    let mut i: usize = 0;
    proof {
        assert(body.deep_view() =~= old(body).deep_view() + hook_calls(hooks.deep_view().take(0)));
    }
    while i < hooks.len()
        invariant
            i <= hooks.len(),
            body.deep_view() == old(body).deep_view() + hook_calls(
                hooks.deep_view().take(i as int),
            ),
        decreases hooks.len() - i,
    {
        let call = WovenStmt::HookCall(hooks[i].copy());
        let ghost before = body.deep_view();
        body.push(call);
        proof {
            assert(body.deep_view() =~= before.push(call.deep_view()));
            assert(hook_calls(hooks.deep_view().take(i + 1)) =~= hook_calls(
                hooks.deep_view().take(i as int),
            ).push(call.deep_view()));
            assert(body.deep_view() =~= old(body).deep_view() + hook_calls(
                hooks.deep_view().take(i + 1),
            ));
        }
        i = i + 1;
    }
    proof {
        assert(hooks.deep_view().take(hooks.len() as int) =~= hooks.deep_view());
    }
}

/// The parameters as they are declared.
pub(crate) fn parameter_sources(params: &Vec<Parameter>) -> (sources: Vec<Fragment>)
    ensures
        sources.deep_view() == declared_params(params.deep_view()),
{
    let mut sources: Vec<Fragment> = Vec::new();
    let mut i: usize = 0;
    while i < params.len()
        invariant
            i <= params.len(),
            sources.len() == i,
            forall|k: int| 0 <= k < i ==> sources[k].deep_view() == params[k].source.deep_view(),
        decreases params.len() - i,
    {
        sources.push(params[i].source.copy());
        i = i + 1;
    }
    proof {
        assert(sources.deep_view() =~= declared_params(params.deep_view()));
    }
    sources
}

/// The names of the parameters that are bound by a plain identifier.
fn forwarding_args(params: &Vec<Parameter>) -> (names: Vec<Fragment>)
    ensures
        names.deep_view() == forwarded_names(params.deep_view()),
{
    let mut names: Vec<Fragment> = Vec::new();
    let mut i: usize = 0;
    proof {
        assert(names.deep_view() =~= Seq::<Seq<Tree>>::empty());
        assert(params.deep_view().take(0) =~= Seq::<ParameterView>::empty());
    }
    while i < params.len()
        invariant
            i <= params.len(),
            names.deep_view() == forwarded_names(params.deep_view().take(i as int)),
        decreases params.len() - i,
    {
        let ghost before = names.deep_view();
        proof {
            let next = params.deep_view().take(i + 1);
            assert(next.drop_last() =~= params.deep_view().take(i as int));
            assert(next.last() == params[i as int].deep_view());
        }
        match &params[i].binding {
            Binding::Identifier(name) => {
                let copy = name.copy();
                names.push(copy);
                proof {
                    assert(names.deep_view() =~= before.push(copy.deep_view()));
                }
            },
            Binding::Other => {},
        }
        i = i + 1;
    }
    proof {
        assert(params.deep_view().take(params.len() as int) =~= params.deep_view());
    }
    names
}

/// Weaves the given directives into `input_fn`. Without any directive the
/// function comes back as it was written. With some, its body becomes: the
/// entry hooks in their order, the core callable around the prologue and the
/// function's own statements, the call that yields the result, the exit
/// hooks in their order, and the return. The signature is kept.
pub fn generate_enhanced_function(
    input_fn: FunctionDecl,
    prologue_stmts: Vec<Fragment>,
    decorator_fn: Option<FunctionSpec>,
    on_enter_funcs: Vec<FunctionSpec>,
    on_exit_funcs: Vec<FunctionSpec>,
) -> (woven: WovenFunction)
    ensures
        woven.deep_view() == woven_function(
            input_fn.deep_view(),
            DirectiveSetView {
                prologue: prologue_stmts.deep_view(),
                entry_hooks: on_enter_funcs.deep_view(),
                exit_hooks: on_exit_funcs.deep_view(),
                decorator: decorator_fn.deep_view(),
            },
        ),
{
    if prologue_stmts.len() == 0 && decorator_fn.is_none() && on_enter_funcs.len() == 0
        && on_exit_funcs.len() == 0 {
        return keep_unchanged(input_fn);
    }
    let mut body: Vec<WovenStmt> = Vec::new();
    proof {
        assert(body.deep_view() =~= Seq::<WovenStmtView>::empty());
    }
    push_hook_calls(&mut body, &on_enter_funcs);

    let params = parameter_sources(&input_fn.signature.params);
    let output = input_fn.signature.output.copy();
    let mut inner = prologue_stmts;
    extend_fragments(&mut inner, &input_fn.body);
    let core = WovenStmt::DefineCore { params, output, body: inner };
    let ghost entered = body.deep_view();
    body.push(core);

    let forwarded = forwarding_args(&input_fn.signature.params);
    let binding = WovenStmt::BindResult { decorator: decorator_fn, forwarded };
    body.push(binding);
    proof {
        assert(body.deep_view() =~= entered + seq![core.deep_view(), binding.deep_view()]);
        assert(entered =~= hook_calls(on_enter_funcs.deep_view()));
    }

    push_hook_calls(&mut body, &on_exit_funcs);
    let ghost left = body.deep_view();
    body.push(WovenStmt::ReturnResult);
    proof {
        assert(body.deep_view() =~= left + seq![WovenStmtView::ReturnResult]);
    }
    WovenFunction { signature: input_fn.signature, body }
}

/// The name that the woven body gives to the core callable.
pub open spec fn core_name() -> Seq<char> {
    "original_fn"@
}

/// The tokens of a call of `spec`: the path, then its arguments in round
/// brackets, separated by commas; empty brackets for a bare path.
pub open spec fn call_tokens(spec: FunctionSpecView) -> Seq<Tree> {
    match spec {
        FunctionSpecView::Simple(path) => path.push(Tree::Group(Delim::Paren, Seq::empty())),
        FunctionSpecView::WithArgs(path, args) => path.push(
            Tree::Group(Delim::Paren, joined(args, comma())),
        ),
    }
}

/// What a decorator is called with: the core callable, then the forwarded
/// arguments.
pub open spec fn wrapped_arguments(forwarded: Seq<Seq<Tree>>) -> Seq<Tree> {
    joined(seq![seq![Tree::Ident(core_name())]] + forwarded, comma())
}

/// The tokens of the call of a decorator. A bare path is called directly. A
/// path with arguments is called with them first, in brackets of its own, and
/// what that yields is called with the core callable and the forwarded
/// arguments.
pub open spec fn decorator_call_tokens(
    spec: FunctionSpecView,
    forwarded: Seq<Seq<Tree>>,
) -> Seq<Tree> {
    match spec {
        FunctionSpecView::Simple(path) => path.push(
            Tree::Group(Delim::Paren, wrapped_arguments(forwarded)),
        ),
        FunctionSpecView::WithArgs(_, _) => seq![
            Tree::Group(Delim::Paren, call_tokens(spec)),
            Tree::Group(Delim::Paren, wrapped_arguments(forwarded)),
        ],
    }
}

/// The identifier of the core callable.
pub(crate) fn core_ident() -> (tree: TokenTree)
    ensures
        tree_content(tree) == Tree::Ident(core_name()),
{
    proof {
        reveal_strlit("original_fn");
    }
    make_ident("original_fn")
}

/// The call expression for a hook: `path()` or `path(args)`.
pub fn generate_function_call(func_spec: &FunctionSpec) -> (call: Fragment)
    ensures
        call.deep_view() == call_tokens(func_spec.deep_view()),
{
    match func_spec {
        FunctionSpec::Simple(path) => {
            let mut trees = path.copy().trees;
            let none: Vec<TokenTree> = Vec::new();
            let brackets = make_group(Delim::Paren, &none);
            proof {
                assert(held(none@) =~= Seq::<Tree>::empty());
                lemma_held_push(trees@, brackets);
            }
            trees.push(brackets);
            Fragment { trees }
        },
        FunctionSpec::WithArgs(path, args) => {
            let mut trees = path.copy().trees;
            let inner = join_with_commas(args);
            let brackets = make_group(Delim::Paren, &inner);
            proof {
                lemma_held_push(trees@, brackets);
            }
            trees.push(brackets);
            Fragment { trees }
        },
    }
}

/// The call expression for the decorator around the core callable:
/// `path(original_fn, args...)` for a bare path, and
/// `(path(own args))(original_fn, args...)` for a path with arguments.
pub fn generate_decorator_call(func_spec: &FunctionSpec, orig_args: &Vec<Fragment>) -> (call:
    Fragment)
    ensures
        call.deep_view() == decorator_call_tokens(func_spec.deep_view(), orig_args.deep_view()),
{
    let mut first: Vec<TokenTree> = Vec::new();
    let core = core_ident();
    proof {
        lemma_held_push(first@, core);
        assert(held(first@.push(core)) =~= seq![Tree::Ident(core_name())]);
    }
    first.push(core);
    let mut arguments: Vec<Fragment> = Vec::new();
    arguments.push(Fragment { trees: first });
    proof {
        assert(arguments.deep_view() =~= seq![seq![Tree::Ident(core_name())]]);
    }
    extend_fragments(&mut arguments, orig_args);
    let inner = join_with_commas(&arguments);
    let applied = make_group(Delim::Paren, &inner);
    match func_spec {
        FunctionSpec::Simple(path) => {
            let mut trees = path.copy().trees;
            proof {
                lemma_held_push(trees@, applied);
            }
            trees.push(applied);
            Fragment { trees }
        },
        FunctionSpec::WithArgs(_, _) => {
            let made = generate_function_call(func_spec);
            let maker = make_group(Delim::Paren, &made.trees);
            let mut trees: Vec<TokenTree> = Vec::new();
            proof {
                lemma_held_empty(trees@);
                lemma_held_push(trees@, maker);
                lemma_held_push(trees@.push(maker), applied);
            }
            trees.push(maker);
            trees.push(applied);
            proof {
                assert(held(trees@) =~= seq![tree_content(maker), tree_content(applied)]);
            }
            Fragment { trees }
        },
    }
}

/// Sorts the clauses of a directive list into its four parts: the prologue
/// statements, the decorator, the entry hooks and the exit hooks. Hooks keep
/// their order from left to right across all clauses. Of several prologue
/// clauses the last one stays, and so of several decorators.
pub fn process_attribute_args(attribute_args: AxinArgs) -> (parts: (
    Vec<Fragment>,
    Option<FunctionSpec>,
    Vec<FunctionSpec>,
    Vec<FunctionSpec>,
))
    ensures
        parts.0.deep_view() == collect(attribute_args.deep_view()).prologue,
        parts.1.deep_view() == collect(attribute_args.deep_view()).decorator,
        parts.2.deep_view() == collect(attribute_args.deep_view()).entry_hooks,
        parts.3.deep_view() == collect(attribute_args.deep_view()).exit_hooks,
{
    let mut prologue_stmts: Vec<Fragment> = Vec::new();
    let mut decorator_fn: Option<FunctionSpec> = None;
    let mut on_enter_funcs: Vec<FunctionSpec> = Vec::new();
    let mut on_exit_funcs: Vec<FunctionSpec> = Vec::new();
    let ghost all = attribute_args.deep_view();
    let mut i: usize = 0;
    proof {
        assert(prologue_stmts.deep_view() =~= Seq::<Seq<Tree>>::empty());
        assert(on_enter_funcs.deep_view() =~= Seq::<FunctionSpecView>::empty());
        assert(on_exit_funcs.deep_view() =~= Seq::<FunctionSpecView>::empty());
        assert(all.take(0) =~= Seq::<AxinArgView>::empty());
    }
    while i < attribute_args.args.len()
        invariant
            i <= attribute_args.args.len(),
            all == attribute_args.deep_view(),
            prologue_stmts.deep_view() == collect(all.take(i as int)).prologue,
            decorator_fn.deep_view() == collect(all.take(i as int)).decorator,
            on_enter_funcs.deep_view() == collect(all.take(i as int)).entry_hooks,
            on_exit_funcs.deep_view() == collect(all.take(i as int)).exit_hooks,
        decreases attribute_args.args.len() - i,
    {
        proof {
            assert(all.take(i + 1).drop_last() =~= all.take(i as int));
            assert(all.take(i + 1).last() == attribute_args.args[i as int].deep_view());
        }
        match &attribute_args.args[i] {
            AxinArg::Prologue { stmts } => {
                prologue_stmts = copy_fragments(stmts);
            },
            AxinArg::OnEnter { funcs } => {
                extend_specs(&mut on_enter_funcs, &funcs.list);
            },
            AxinArg::OnExit { funcs } => {
                extend_specs(&mut on_exit_funcs, &funcs.list);
            },
            AxinArg::Decorator { func } => {
                decorator_fn = Some(func.copy());
            },
        }
        i = i + 1;
    }
    proof {
        assert(all.take(attribute_args.args.len() as int) =~= all);
    }
    (prologue_stmts, decorator_fn, on_enter_funcs, on_exit_funcs)
}

impl DirectiveSet {
    /// The set that the clauses of a directive list add up to.
    pub fn from_args(attribute_args: AxinArgs) -> (set: DirectiveSet)
        ensures
            set.deep_view() == collect(attribute_args.deep_view()),
    {
        let (prologue, decorator, entry_hooks, exit_hooks) = process_attribute_args(attribute_args);
        DirectiveSet { prologue, entry_hooks, exit_hooks, decorator }
    }

    /// The canonical directive list of this set, from which
    /// [`DirectiveSet::from_args`] yields the set again.
    pub fn to_args(&self) -> (attribute_args: AxinArgs)
        ensures
            attribute_args.deep_view() == canonical(self.deep_view()),
    {
        let mut args: Vec<AxinArg> = Vec::new();
        proof {
            assert(args.deep_view() =~= Seq::<AxinArgView>::empty());
        }
        if self.prologue.len() > 0 {
            let clause = AxinArg::Prologue { stmts: copy_fragments(&self.prologue) };
            args.push(clause);
            proof {
                assert(args.deep_view() =~= seq![clause.deep_view()]);
            }
        }
        proof {
            assert(args.deep_view() =~= prologue_clause(self.deep_view().prologue));
        }
        if self.entry_hooks.len() > 0 {
            let mut list: Vec<FunctionSpec> = Vec::new();
            proof {
                assert(list.deep_view() =~= Seq::<FunctionSpecView>::empty());
            }
            extend_specs(&mut list, &self.entry_hooks);
            let clause = AxinArg::OnEnter { funcs: FunctionSpecList { list } };
            let ghost before = args.deep_view();
            args.push(clause);
            proof {
                assert(Seq::<FunctionSpecView>::empty() + self.entry_hooks.deep_view()
                    =~= self.entry_hooks.deep_view());
                assert(args.deep_view() =~= before + seq![clause.deep_view()]);
            }
        }
        proof {
            assert(args.deep_view() =~= prologue_clause(self.deep_view().prologue) + entry_clause(
                self.deep_view().entry_hooks,
            ));
        }
        match &self.decorator {
            Some(func) => {
                let clause = AxinArg::Decorator { func: func.copy() };
                let ghost before = args.deep_view();
                args.push(clause);
                proof {
                    assert(args.deep_view() =~= before + seq![clause.deep_view()]);
                }
            },
            None => {},
        }
        proof {
            assert(args.deep_view() =~= prologue_clause(self.deep_view().prologue) + entry_clause(
                self.deep_view().entry_hooks,
            ) + decorator_clause(self.deep_view().decorator));
        }
        if self.exit_hooks.len() > 0 {
            let mut list: Vec<FunctionSpec> = Vec::new();
            proof {
                assert(list.deep_view() =~= Seq::<FunctionSpecView>::empty());
            }
            extend_specs(&mut list, &self.exit_hooks);
            let clause = AxinArg::OnExit { funcs: FunctionSpecList { list } };
            let ghost before = args.deep_view();
            args.push(clause);
            proof {
                assert(Seq::<FunctionSpecView>::empty() + self.exit_hooks.deep_view()
                    =~= self.exit_hooks.deep_view());
                assert(args.deep_view() =~= before + seq![clause.deep_view()]);
            }
        }
        proof {
            assert(args.deep_view() =~= canonical(self.deep_view()));
        }
        AxinArgs { args }
    }

    /// Whether the set holds no prologue statement, no hook and no decorator.
    pub fn is_empty(&self) -> (empty: bool)
        ensures
            empty == is_empty_set(self.deep_view()),
    {
        self.prologue.len() == 0 && self.entry_hooks.len() == 0 && self.exit_hooks.len() == 0
            && self.decorator.is_none()
    }
}

/// `decl` as a woven function to which nothing was added.
fn keep_unchanged(decl: FunctionDecl) -> (kept: WovenFunction)
    ensures
        kept.deep_view() == unchanged(decl.deep_view()),
{
    let mut body: Vec<WovenStmt> = Vec::new();
    let mut i: usize = 0;
    while i < decl.body.len()
        invariant
            i <= decl.body.len(),
            body.len() == i,
            forall|k: int|
                0 <= k < i ==> body[k].deep_view() == WovenStmtView::Source(
                    decl.body[k].deep_view(),
                ),
        decreases decl.body.len() - i,
    {
        body.push(WovenStmt::Source(decl.body[i].copy()));
        i = i + 1;
    }
    proof {
        assert(body.deep_view() =~= source_body(decl.deep_view()));
    }
    WovenFunction { signature: decl.signature, body }
}

/// Weaves a set of directives into a function. With an empty set the
/// function comes back as it was written; with any other, its body is woven
/// in the fixed order.
pub fn weave(decl: FunctionDecl, set: DirectiveSet) -> (woven: WovenFunction)
    ensures
        woven.deep_view() == woven_function(decl.deep_view(), set.deep_view()),
{
    generate_enhanced_function(decl, set.prologue, set.decorator, set.entry_hooks, set.exit_hooks)
}

} // verus!
