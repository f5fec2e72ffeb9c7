//! The woven function, and a directive list, as tokens of the host language.

use crate::args::{
    clause_name, AxinArg, AxinArgView, AxinArgs, FunctionSpec, FunctionSpecView,
};
use crate::function::{
    FunctionDeclView, SignatureView, WovenFunction, WovenFunctionView, WovenStmt, WovenStmtView,
};
use crate::generator::{
    call_tokens, core_ident, core_name, declared_params, decorator_call_tokens,
    generate_decorator_call, generate_function_call, parameter_sources,
};
use crate::tokens::{
    append_trees, comma, flatten, flattened, held, is_negative, join_with_commas, joined,
    lemma_held_push, make_group, make_ident, make_punct, semicolon, stream_trees,
    tree_content,
    trees_to_stream, Delim, Fragment, Tree,
};
use proc_macro2::{TokenStream, TokenTree};
use vstd::prelude::*;

verus! {

/// The name that the woven body gives to the result.
pub open spec fn result_name() -> Seq<char> {
    "__result"@
}

/// The tokens of the direct call of the core callable.
pub open spec fn core_call_tokens(forwarded: Seq<Seq<Tree>>) -> Seq<Tree> {
    seq![Tree::Ident(core_name()), Tree::Group(Delim::Paren, joined(forwarded, comma()))]
}

/// The tokens of the call that yields the result.
pub open spec fn result_call_tokens(
    decorator: Option<FunctionSpecView>,
    forwarded: Seq<Seq<Tree>>,
) -> Seq<Tree> {
    match decorator {
        Some(spec) => decorator_call_tokens(spec, forwarded),
        None => core_call_tokens(forwarded),
    }
}

/// The tokens of one statement of a woven body.
///
/// - a source statement: as it was written;
/// - a hook call: `path(args);`
/// - the core callable: `let original_fn = |params| output { body };`
/// - the result: `let __result = call;`
/// - the return: `return __result;`
pub open spec fn statement_tokens(stmt: WovenStmtView) -> Seq<Tree> {
    match stmt {
        WovenStmtView::Source(tokens) => tokens,
        WovenStmtView::HookCall(hook) => call_tokens(hook).push(semicolon()),
        WovenStmtView::DefineCore { params, output, body } => seq![
            Tree::Ident("let"@),
            Tree::Ident(core_name()),
            Tree::Punct('=', false),
            Tree::Punct('|', false),
        ] + joined(params, comma()) + seq![Tree::Punct('|', false)] + output + seq![
            Tree::Group(Delim::Brace, flattened(body)),
            semicolon(),
        ],
        WovenStmtView::BindResult { decorator, forwarded } => seq![
            Tree::Ident("let"@),
            Tree::Ident(result_name()),
            Tree::Punct('=', false),
        ] + result_call_tokens(decorator, forwarded) + seq![semicolon()],
        WovenStmtView::ReturnResult => seq![
            Tree::Ident("return"@),
            Tree::Ident(result_name()),
            semicolon(),
        ],
    }
}

/// The tokens of a woven body: those of its statements, one after another.
pub open spec fn body_tokens(body: Seq<WovenStmtView>) -> Seq<Tree>
    decreases body.len(),
{
    if body.len() == 0 {
        Seq::empty()
    } else {
        body_tokens(body.drop_last()) + statement_tokens(body.last())
    }
}

/// The tokens of a function with the given signature and body tokens: the
/// head, the parameters in round brackets, the return type, the `where`
/// clause, and the body in braces.
pub open spec fn declaration_tokens(signature: SignatureView, body: Seq<Tree>) -> Seq<Tree> {
    signature.head + seq![
        Tree::Group(Delim::Paren, joined(declared_params(signature.params), comma())),
    ] + signature.output + signature.where_clause + seq![Tree::Group(Delim::Brace, body)]
}

/// The tokens of a woven function.
pub open spec fn function_tokens(function: WovenFunctionView) -> Seq<Tree> {
    declaration_tokens(function.signature, body_tokens(function.body))
}

/// The tokens of a function as it was written.
pub open spec fn source_tokens(decl: FunctionDeclView) -> Seq<Tree> {
    declaration_tokens(decl.signature, flattened(decl.body))
}

fn keyword_let() -> (tree: TokenTree)
    ensures
        tree_content(tree) == Tree::Ident("let"@),
{
    proof {
        reveal_strlit("let");
    }
    make_ident("let")
}

fn keyword_return() -> (tree: TokenTree)
    ensures
        tree_content(tree) == Tree::Ident("return"@),
{
    proof {
        reveal_strlit("return");
    }
    make_ident("return")
}

fn result_ident() -> (tree: TokenTree)
    ensures
        tree_content(tree) == Tree::Ident(result_name()),
{
    proof {
        reveal_strlit("__result");
    }
    make_ident("__result")
}

fn push_tree(trees: &mut Vec<TokenTree>, tree: TokenTree)
    requires
        !is_negative(tree_content(tree)),
    ensures
        held(final(trees)@) == held(old(trees)@).push(tree_content(tree)),
{
    proof {
        lemma_held_push(trees@, tree);
    }
    trees.push(tree);
}

impl WovenStmt {
    /// The statement as tokens.
    pub fn to_tokens(&self) -> (tokens: Fragment)
        ensures
            tokens.deep_view() == statement_tokens(self.deep_view()),
    {
        match self {
            WovenStmt::Source(tokens) => tokens.copy(),
            WovenStmt::HookCall(hook) => {
                let mut trees = generate_function_call(hook).trees;
                push_tree(&mut trees, make_punct(';'));
                Fragment { trees }
            },
            WovenStmt::DefineCore { params, output, body } => {
                let mut trees: Vec<TokenTree> = Vec::new();
                proof {
                    assert(held(trees@) =~= Seq::<Tree>::empty());
                }
                push_tree(&mut trees, keyword_let());
                push_tree(&mut trees, core_ident());
                push_tree(&mut trees, make_punct('='));
                push_tree(&mut trees, make_punct('|'));
                let declared = join_with_commas(params);
                append_trees(&mut trees, &declared);
                push_tree(&mut trees, make_punct('|'));
                append_trees(&mut trees, &output.trees);
                let inner = flatten(body);
                push_tree(&mut trees, make_group(Delim::Brace, &inner));
                push_tree(&mut trees, make_punct(';'));
                proof {
                    assert(held(trees@) =~= statement_tokens(self.deep_view()));
                }
                Fragment { trees }
            },
            WovenStmt::BindResult { decorator, forwarded } => {
                let mut trees: Vec<TokenTree> = Vec::new();
                proof {
                    assert(held(trees@) =~= Seq::<Tree>::empty());
                }
                push_tree(&mut trees, keyword_let());
                push_tree(&mut trees, result_ident());
                push_tree(&mut trees, make_punct('='));
                match decorator {
                    Some(spec) => {
                        let call = generate_decorator_call(spec, forwarded);
                        append_trees(&mut trees, &call.trees);
                    },
                    None => {
                        push_tree(&mut trees, core_ident());
                        let inner = join_with_commas(forwarded);
                        push_tree(&mut trees, make_group(Delim::Paren, &inner));
                    },
                }
                push_tree(&mut trees, make_punct(';'));
                proof {
                    assert(held(trees@) =~= statement_tokens(self.deep_view()));
                }
                Fragment { trees }
            },
            WovenStmt::ReturnResult => {
                let mut trees: Vec<TokenTree> = Vec::new();
                proof {
                    assert(held(trees@) =~= Seq::<Tree>::empty());
                }
                push_tree(&mut trees, keyword_return());
                push_tree(&mut trees, result_ident());
                push_tree(&mut trees, make_punct(';'));
                proof {
                    assert(held(trees@) =~= statement_tokens(self.deep_view()));
                }
                Fragment { trees }
            },
        }
    }
}

impl WovenFunction {
    /// The whole function as tokens: its signature as it was, and its body.
    pub fn to_tokens(&self) -> (tokens: Fragment)
        ensures
            tokens.deep_view() == function_tokens(self.deep_view()),
    {
        let mut inner: Vec<TokenTree> = Vec::new();
        let mut i: usize = 0;
        proof {
            assert(held(inner@) =~= Seq::<Tree>::empty());
            assert(self.body.deep_view().take(0) =~= Seq::<WovenStmtView>::empty());
        }
        while i < self.body.len()
            invariant
                i <= self.body.len(),
                held(inner@) == body_tokens(self.body.deep_view().take(i as int)),
            decreases self.body.len() - i,
        {
            proof {
                let next = self.body.deep_view().take(i + 1);
                assert(next.drop_last() =~= self.body.deep_view().take(i as int));
                assert(next.last() == self.body[i as int].deep_view());
            }
            let statement = self.body[i].to_tokens();
            append_trees(&mut inner, &statement.trees);
            i = i + 1;
        }
        proof {
            assert(self.body.deep_view().take(self.body.len() as int) =~= self.body.deep_view());
        }
        let sources = parameter_sources(&self.signature.params);
        let mut trees = self.signature.head.copy().trees;
        let declared = join_with_commas(&sources);
        push_tree(&mut trees, make_group(Delim::Paren, &declared));
        append_trees(&mut trees, &self.signature.output.trees);
        append_trees(&mut trees, &self.signature.where_clause.trees);
        push_tree(&mut trees, make_group(Delim::Brace, &inner));
        proof {
            assert(held(trees@) =~= function_tokens(self.deep_view()));
        }
        Fragment { trees }
    }

    /// The whole function as a token stream.
    pub fn to_token_stream(&self) -> (stream: TokenStream)
        ensures
            stream_trees(stream) == function_tokens(self.deep_view()),
    {
        let tokens = self.to_tokens();
        trees_to_stream(&tokens.trees)
    }
}

/// A function spec as it is written in a directive: `path` or `path(args)`.
pub open spec fn spec_tokens(spec: FunctionSpecView) -> Seq<Tree> {
    match spec {
        FunctionSpecView::Simple(path) => path,
        FunctionSpecView::WithArgs(_, _) => call_tokens(spec),
    }
}

/// Function specs as they are written in a hook clause, separated by commas.
pub open spec fn spec_list_tokens(specs: Seq<FunctionSpecView>) -> Seq<Tree> {
    joined(specs.map_values(|f: FunctionSpecView| spec_tokens(f)), comma())
}

/// What stands between the brackets of a clause.
pub open spec fn clause_body(arg: AxinArgView) -> Seq<Tree> {
    match arg {
        AxinArgView::Prologue(stmts) => flattened(stmts),
        AxinArgView::OnEnter(funcs) => spec_list_tokens(funcs),
        AxinArgView::OnExit(funcs) => spec_list_tokens(funcs),
        AxinArgView::Decorator(func) => spec_tokens(func),
    }
}

/// A clause as it is written: its name, then its body in round brackets.
pub open spec fn clause_tokens(arg: AxinArgView) -> Seq<Tree> {
    seq![Tree::Ident(clause_name(arg)), Tree::Group(Delim::Paren, clause_body(arg))]
}

/// A directive list as it is written: its clauses, separated by commas.
pub open spec fn directive_tokens(args: Seq<AxinArgView>) -> Seq<Tree> {
    joined(args.map_values(|a: AxinArgView| clause_tokens(a)), comma())
}

impl FunctionSpec {
    /// The spec as it is written in a directive.
    pub fn to_tokens(&self) -> (tokens: Fragment)
        ensures
            tokens.deep_view() == spec_tokens(self.deep_view()),
    {
        match self {
            FunctionSpec::Simple(path) => path.copy(),
            FunctionSpec::WithArgs(_, _) => generate_function_call(self),
        }
    }
}

fn spec_list_to_tokens(specs: &Vec<FunctionSpec>) -> (trees: Vec<TokenTree>)
    ensures
        held(trees@) == spec_list_tokens(specs.deep_view()),
{
    let mut parts: Vec<Fragment> = Vec::new();
    let mut i: usize = 0;
    while i < specs.len()
        invariant
            i <= specs.len(),
            parts.len() == i,
            forall|k: int|
                0 <= k < i ==> parts[k].deep_view() == spec_tokens(specs[k].deep_view()),
        decreases specs.len() - i,
    {
        parts.push(specs[i].to_tokens());
        i = i + 1;
    }
    proof {
        assert(parts.deep_view() =~= specs.deep_view().map_values(
            |f: FunctionSpecView| spec_tokens(f),
        ));
    }
    join_with_commas(&parts)
}

impl AxinArg {
    /// The clause as it is written.
    pub fn to_tokens(&self) -> (tokens: Fragment)
        ensures
            tokens.deep_view() == clause_tokens(self.deep_view()),
    {
        proof {
            reveal_strlit("prologue");
            reveal_strlit("on_enter");
            reveal_strlit("on_exit");
            reveal_strlit("decorator");
        }
        let (name, body) = match self {
            AxinArg::Prologue { stmts } => (make_ident("prologue"), flatten(stmts)),
            AxinArg::OnEnter { funcs } => (make_ident("on_enter"), spec_list_to_tokens(&funcs.list)),
            AxinArg::OnExit { funcs } => (make_ident("on_exit"), spec_list_to_tokens(&funcs.list)),
            AxinArg::Decorator { func } => (make_ident("decorator"), func.to_tokens().trees),
        };
        let mut trees: Vec<TokenTree> = Vec::new();
        proof {
            assert(held(trees@) =~= Seq::<Tree>::empty());
        }
        push_tree(&mut trees, name);
        push_tree(&mut trees, make_group(Delim::Paren, &body));
        proof {
            assert(held(trees@) =~= clause_tokens(self.deep_view()));
        }
        Fragment { trees }
    }
}

impl AxinArgs {
    /// The directive list as it is written, for a message or to be read
    /// again.
    pub fn to_tokens(&self) -> (tokens: Fragment)
        ensures
            tokens.deep_view() == directive_tokens(self.deep_view()),
    {
        let mut parts: Vec<Fragment> = Vec::new();
        let mut i: usize = 0;
        while i < self.args.len()
            invariant
                i <= self.args.len(),
                parts.len() == i,
                forall|k: int|
                    0 <= k < i ==> parts[k].deep_view() == clause_tokens(self.args[k].deep_view()),
            decreases self.args.len() - i,
        {
            parts.push(self.args[i].to_tokens());
            i = i + 1;
        }
        proof {
            assert(parts.deep_view() =~= self.deep_view().map_values(
                |a: AxinArgView| clause_tokens(a),
            ));
        }
        Fragment { trees: join_with_commas(&parts) }
    }

    /// The directive list as a token stream.
    pub fn to_token_stream(&self) -> (stream: TokenStream)
        ensures
            stream_trees(stream) == directive_tokens(self.deep_view()),
    {
        let tokens = self.to_tokens();
        trees_to_stream(&tokens.trees)
    }
}

} // verus!
