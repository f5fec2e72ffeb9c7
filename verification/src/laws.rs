//! What holds of the directive grammar and of the weaver for every input.

use crate::args::{
    is_supported, parse_attribute, parse_clause, parse_spec_list,
    supported_names, AxinArgView, DirectiveErrorView, FunctionSpecView, SpecErrorView,
};
use crate::emit::{
    body_tokens, function_tokens, result_name, source_tokens, statement_tokens,
};
use crate::function::{FunctionDeclView, WovenStmtView};
use crate::generator::{
    absorb, call_tokens, canonical, collect, core_definition, decorator_clause, empty_set,
    entry_clause, exit_clause, hook_calls, prologue_clause, result_binding, unchanged,
    woven_body, woven_function,
    wrapped_arguments, DirectiveSetView,
};
use crate::tokens::{
    flattened, lemma_opened_add, opened, opened_tree, semicolon, Delim, Tree,
};
use vstd::prelude::*;

verus! {

/// The tokens of a body taken over as written are the tokens of its
/// statements.
proof fn lemma_source_body_tokens(body: Seq<Seq<Tree>>)
    ensures
        body_tokens(body.map_values(|s: Seq<Tree>| WovenStmtView::Source(s))) == flattened(body),
    decreases body.len(),
{
    let woven = body.map_values(|s: Seq<Tree>| WovenStmtView::Source(s));
    if body.len() > 0 {
        lemma_source_body_tokens(body.drop_last());
        assert(woven.drop_last() =~= body.drop_last().map_values(
            |s: Seq<Tree>| WovenStmtView::Source(s),
        ));
    }
}

/// Identity: weaving a function with an empty directive set yields the
/// function as it was written, with the same signature, the same statements
/// in the same order, and so the same tokens. An empty directive list is
/// accepted and adds up to the empty set.
pub proof fn law_identity(decl: FunctionDeclView)
    ensures
        woven_function(decl, empty_set()) == unchanged(decl),
        unchanged(decl).signature == decl.signature,
        unchanged(decl).body.len() == decl.body.len(),
        forall|i: int|
            0 <= i < decl.body.len() ==> unchanged(decl).body[i] == WovenStmtView::Source(
                decl.body[i],
            ),
        function_tokens(unchanged(decl)) == source_tokens(decl),
        parse_attribute(Seq::empty()) == Ok::<Seq<AxinArgView>, DirectiveErrorView>(Seq::empty()),
        collect(Seq::empty()) == empty_set(),
{
    lemma_source_body_tokens(decl.body);
}

/// One clause more adds to each list at its end.
proof fn lemma_collect_push(args: Seq<AxinArgView>, arg: AxinArgView)
    ensures
        collect(args.push(arg)) == absorb(collect(args), arg),
{
    assert(args.push(arg).drop_last() =~= args);
}

/// Hook order, across clauses: the hooks of a directive list are those of
/// any front part of it, followed by those of the rest. Splitting a list
/// never changes the relative order.
pub proof fn law_collect_in_order(first: Seq<AxinArgView>, second: Seq<AxinArgView>)
    ensures
        collect(first + second).entry_hooks == collect(first).entry_hooks + collect(
            second,
        ).entry_hooks,
        collect(first + second).exit_hooks == collect(first).exit_hooks + collect(
            second,
        ).exit_hooks,
    decreases second.len(),
{
    if second.len() == 0 {
        assert(first + second =~= first);
        assert(collect(first).entry_hooks + collect(second).entry_hooks =~= collect(
            first,
        ).entry_hooks);
        assert(collect(first).exit_hooks + collect(second).exit_hooks =~= collect(
            first,
        ).exit_hooks);
    } else {
        law_collect_in_order(first, second.drop_last());
        assert((first + second).drop_last() =~= first + second.drop_last());
        assert((first + second).last() == second.last());
        let a = collect(first);
        let b = collect(second.drop_last());
        match second.last() {
            AxinArgView::Prologue(_) => {},
            AxinArgView::OnEnter(funcs) => {
                assert((a.entry_hooks + b.entry_hooks) + funcs =~= a.entry_hooks + (b.entry_hooks
                    + funcs));
            },
            AxinArgView::OnExit(funcs) => {
                assert((a.exit_hooks + b.exit_hooks) + funcs =~= a.exit_hooks + (b.exit_hooks
                    + funcs));
            },
            AxinArgView::Decorator(_) => {},
        }
    }
}

/// Whether a directive list holds a prologue clause.
pub open spec fn holds_prologue(args: Seq<AxinArgView>) -> bool {
    exists|i: int| 0 <= i < args.len() && #[trigger] args[i] is Prologue
}

/// Whether a directive list holds a decorator clause.
pub open spec fn holds_decorator(args: Seq<AxinArgView>) -> bool {
    exists|i: int| 0 <= i < args.len() && #[trigger] args[i] is Decorator
}

/// The last one wins: of several prologue clauses the last one gives the
/// prologue, whole and alone, and of several decorator clauses the last one
/// gives the decorator. Clauses of other kinds change neither.
pub proof fn law_last_one_wins(first: Seq<AxinArgView>, second: Seq<AxinArgView>)
    ensures
        collect(first + second).prologue == if holds_prologue(second) {
            collect(second).prologue
        } else {
            collect(first).prologue
        },
        collect(first + second).decorator == if holds_decorator(second) {
            collect(second).decorator
        } else {
            collect(first).decorator
        },
        forall|stmts: Seq<Seq<Tree>>| #[trigger]
            collect(first.push(AxinArgView::Prologue(stmts))).prologue == stmts,
        forall|func: FunctionSpecView| #[trigger]
            collect(first.push(AxinArgView::Decorator(func))).decorator == Some(func),
    decreases second.len(),
{
    assert forall|stmts: Seq<Seq<Tree>>| #[trigger]
        collect(first.push(AxinArgView::Prologue(stmts))).prologue == stmts by {
        lemma_collect_push(first, AxinArgView::Prologue(stmts));
    }
    assert forall|func: FunctionSpecView| #[trigger]
        collect(first.push(AxinArgView::Decorator(func))).decorator == Some(func) by {
        lemma_collect_push(first, AxinArgView::Decorator(func));
    }
    if second.len() == 0 {
        assert(first + second =~= first);
    } else {
        let front = second.drop_last();
        let last = second.last();
        law_last_one_wins(first, front);
        assert((first + second).drop_last() =~= first + front);
        assert((first + second).last() == last);
        assert(second[second.len() - 1] == last);
        if holds_prologue(front) {
            let i = choose|i: int| 0 <= i < front.len() && #[trigger] front[i] is Prologue;
            assert(second[i] == front[i]);
        }
        if holds_decorator(front) {
            let i = choose|i: int| 0 <= i < front.len() && #[trigger] front[i] is Decorator;
            assert(second[i] == front[i]);
        }
        if holds_prologue(second) && !(last is Prologue) {
            let i = choose|i: int| 0 <= i < second.len() && #[trigger] second[i] is Prologue;
            assert(front[i] == second[i]);
        }
        if holds_decorator(second) && !(last is Decorator) {
            let i = choose|i: int| 0 <= i < second.len() && #[trigger] second[i] is Decorator;
            assert(front[i] == second[i]);
        }
    }
}

/// Hook order, within and across clauses: hooks given in two clauses, one
/// after the other, are the hooks given in one clause that lists them all.
pub proof fn law_split_hook_clause(
    before: Seq<AxinArgView>,
    front: Seq<FunctionSpecView>,
    back: Seq<FunctionSpecView>,
)
    ensures
        collect(before.push(AxinArgView::OnEnter(front)).push(AxinArgView::OnEnter(back)))
            == collect(before.push(AxinArgView::OnEnter(front + back))),
        collect(before.push(AxinArgView::OnExit(front)).push(AxinArgView::OnExit(back)))
            == collect(before.push(AxinArgView::OnExit(front + back))),
        collect(before.push(AxinArgView::OnEnter(front + back))).entry_hooks == collect(
            before,
        ).entry_hooks + front + back,
        collect(before.push(AxinArgView::OnExit(front + back))).exit_hooks == collect(
            before,
        ).exit_hooks + front + back,
{
    let set = collect(before);
    lemma_collect_push(before, AxinArgView::OnEnter(front));
    lemma_collect_push(before.push(AxinArgView::OnEnter(front)), AxinArgView::OnEnter(back));
    lemma_collect_push(before, AxinArgView::OnEnter(front + back));
    lemma_collect_push(before, AxinArgView::OnExit(front));
    lemma_collect_push(before.push(AxinArgView::OnExit(front)), AxinArgView::OnExit(back));
    lemma_collect_push(before, AxinArgView::OnExit(front + back));
    assert((set.entry_hooks + front) + back =~= set.entry_hooks + (front + back));
    assert((set.exit_hooks + front) + back =~= set.exit_hooks + (front + back));
}

/// The fixed order of a woven body: the entry hooks in their order, the
/// definition of the core callable, the binding of the result, the exit hooks
/// in their order, and the return, and nothing else.
pub proof fn law_woven_order(
    decl: FunctionDeclView,
    prologue: Seq<Seq<Tree>>,
    decorator: Option<FunctionSpecView>,
    on_enter: Seq<FunctionSpecView>,
    on_exit: Seq<FunctionSpecView>,
)
    ensures
        ({
            let body = woven_body(decl, prologue, decorator, on_enter, on_exit);
            let n = on_enter.len() as int;
            &&& body.len() == on_enter.len() + on_exit.len() + 3
            &&& forall|i: int| 0 <= i < n ==> body[i] == WovenStmtView::HookCall(on_enter[i])
            &&& body[n] == core_definition(decl, prologue)
            &&& body[n + 1] == result_binding(decl, decorator)
            &&& forall|j: int|
                0 <= j < on_exit.len() ==> body[n + 2 + j] == WovenStmtView::HookCall(on_exit[j])
            &&& body.last() == WovenStmtView::ReturnResult
        }),
{
}

/// The number of statements of a body that call the decorator or the core
/// callable.
pub open spec fn result_calls(body: Seq<WovenStmtView>) -> nat
    decreases body.len(),
{
    if body.len() == 0 {
        0
    } else {
        result_calls(body.drop_last()) + if body.last() is BindResult {
            1nat
        } else {
            0nat
        }
    }
}

proof fn lemma_hook_calls_bind_nothing(hooks: Seq<FunctionSpecView>)
    ensures
        result_calls(hook_calls(hooks)) == 0,
    decreases hooks.len(),
{
    if hooks.len() > 0 {
        lemma_hook_calls_bind_nothing(hooks.drop_last());
        assert(hook_calls(hooks).drop_last() =~= hook_calls(hooks.drop_last()));
    }
}

proof fn lemma_result_calls_add(a: Seq<WovenStmtView>, b: Seq<WovenStmtView>)
    ensures
        result_calls(a + b) == result_calls(a) + result_calls(b),
    decreases b.len(),
{
    if b.len() == 0 {
        assert(a + b =~= a);
    } else {
        lemma_result_calls_add(a, b.drop_last());
        assert((a + b).drop_last() =~= a + b.drop_last());
    }
}

/// The decorator wraps once: a woven body holds exactly one statement that
/// calls the decorator, or the core callable where there is no decorator; it
/// binds the result. The statement of the decorator's call holds that call
/// and nothing else, and what it binds is what the last statement returns.
pub proof fn law_one_result_call(
    decl: FunctionDeclView,
    prologue: Seq<Seq<Tree>>,
    decorator: Option<FunctionSpecView>,
    on_enter: Seq<FunctionSpecView>,
    on_exit: Seq<FunctionSpecView>,
)
    ensures
        result_calls(woven_body(decl, prologue, decorator, on_enter, on_exit)) == 1,
        statement_tokens(WovenStmtView::ReturnResult) == seq![
            Tree::Ident("return"@),
            Tree::Ident(result_name()),
            semicolon(),
        ],
        statement_tokens(result_binding(decl, decorator)).len() >= 3,
        statement_tokens(result_binding(decl, decorator))[1] == Tree::Ident(result_name()),
{
    let middle = seq![core_definition(decl, prologue), result_binding(decl, decorator)];
    let last = seq![WovenStmtView::ReturnResult];
    lemma_hook_calls_bind_nothing(on_enter);
    lemma_hook_calls_bind_nothing(on_exit);
    lemma_result_calls_add(hook_calls(on_enter), middle);
    lemma_result_calls_add(hook_calls(on_enter) + middle, hook_calls(on_exit));
    lemma_result_calls_add(hook_calls(on_enter) + middle + hook_calls(on_exit), last);
    let none = Seq::<WovenStmtView>::empty();
    let one = seq![core_definition(decl, prologue)];
    assert(result_calls(none) == 0);
    assert(one.drop_last() =~= none);
    assert(result_calls(one) == 0);
    assert(middle.drop_last() =~= one);
    assert(result_calls(middle) == 1);
    assert(last.drop_last() =~= none);
    assert(result_calls(last) == 0);
}

/// A decorator alone: with a decorator and no other directive, the woven
/// body is the definition of the core callable around the function's own
/// statements, the one call of the decorator, and the return of what that
/// call yielded.
pub proof fn law_decorator_alone(decl: FunctionDeclView, decorator: FunctionSpecView)
    ensures
        woven_function(
            decl,
            DirectiveSetView { decorator: Some(decorator), ..empty_set() },
        ).body == seq![
            core_definition(decl, Seq::empty()),
            result_binding(decl, Some(decorator)),
            WovenStmtView::ReturnResult,
        ],
        core_definition(decl, Seq::empty())->DefineCore_body == decl.body,
{
    let set = DirectiveSetView { decorator: Some(decorator), ..empty_set() };
    assert(woven_function(decl, set).body =~= seq![
        core_definition(decl, Seq::empty()),
        result_binding(decl, Some(decorator)),
        WovenStmtView::ReturnResult,
    ]);
    assert(Seq::<Seq<Tree>>::empty() + decl.body =~= decl.body);
}

/// Currying: the call of a decorator with arguments of its own stands inside
/// the statement that binds the result, in brackets of its own, and what it
/// yields is applied there to the core callable and the forwarded arguments.
/// It is thus made once each time the woven body runs, and nowhere else.
pub proof fn law_curried_decorator(
    path: Seq<Tree>,
    args: Seq<Seq<Tree>>,
    forwarded: Seq<Seq<Tree>>,
)
    ensures
        statement_tokens(
            WovenStmtView::BindResult {
                decorator: Some(FunctionSpecView::WithArgs(path, args)),
                forwarded,
            },
        ) == seq![
            Tree::Ident("let"@),
            Tree::Ident(result_name()),
            Tree::Punct('=', false),
            Tree::Group(Delim::Paren, call_tokens(FunctionSpecView::WithArgs(path, args))),
            Tree::Group(Delim::Paren, wrapped_arguments(forwarded)),
            semicolon(),
        ],
{
    let stmt = WovenStmtView::BindResult {
        decorator: Some(FunctionSpecView::WithArgs(path, args)),
        forwarded,
    };
    assert(statement_tokens(stmt) =~= seq![
        Tree::Ident("let"@),
        Tree::Ident(result_name()),
        Tree::Punct('=', false),
        Tree::Group(Delim::Paren, call_tokens(FunctionSpecView::WithArgs(path, args))),
        Tree::Group(Delim::Paren, wrapped_arguments(forwarded)),
        semicolon(),
    ]);
}

/// A name and its brackets stand at the front of a directive list as they
/// are: opening groups without visible brackets leaves them alone.
proof fn lemma_opened_clause(name: Seq<char>, body: Seq<Tree>, rest: Seq<Tree>)
    ensures
        opened(seq![Tree::Ident(name), Tree::Group(Delim::Paren, body)] + rest) == seq![
            Tree::Ident(name),
            Tree::Group(Delim::Paren, body),
        ] + opened(rest),
{
    let none = Seq::<Tree>::empty();
    let one = seq![Tree::Ident(name)];
    let two = seq![Tree::Ident(name), Tree::Group(Delim::Paren, body)];
    lemma_opened_add(two, rest);
    let group = Tree::Group(Delim::Paren, body);
    assert(opened(none) =~= none);
    assert(one.drop_last() =~= none);
    assert(one.last() == Tree::Ident(name));
    assert(opened_tree(Tree::Ident(name)) == seq![Tree::Ident(name)]);
    assert(opened(one) == opened(one.drop_last()) + opened_tree(one.last()));
    assert(opened(one) =~= one);
    assert(two.drop_last() =~= one);
    assert(two.last() == group);
    assert(opened_tree(group) == seq![group]);
    assert(opened(two) == opened(two.drop_last()) + opened_tree(two.last()));
    assert(opened(two) =~= two);
}

/// A hook clause without a function spec is rejected: `on_enter()` and
/// `on_exit()` are, alone and in front of whatever follows them.
pub proof fn law_empty_hook_list(rest: Seq<Tree>)
    ensures
        parse_clause("on_enter"@, Seq::empty()) == Err::<AxinArgView, DirectiveErrorView>(
            DirectiveErrorView::EmptyHookList {
                directive: "on_enter"@,
                at: seq![Tree::Ident("on_enter"@)],
            },
        ),
        parse_clause("on_exit"@, Seq::empty()) == Err::<AxinArgView, DirectiveErrorView>(
            DirectiveErrorView::EmptyHookList {
                directive: "on_exit"@,
                at: seq![Tree::Ident("on_exit"@)],
            },
        ),
        parse_attribute(
            seq![Tree::Ident("on_enter"@), Tree::Group(Delim::Paren, Seq::empty())] + rest,
        ) == Err::<Seq<AxinArgView>, DirectiveErrorView>(
            DirectiveErrorView::EmptyHookList {
                directive: "on_enter"@,
                at: seq![Tree::Ident("on_enter"@)],
            },
        ),
        parse_attribute(
            seq![Tree::Ident("on_exit"@), Tree::Group(Delim::Paren, Seq::empty())] + rest,
        ) == Err::<Seq<AxinArgView>, DirectiveErrorView>(
            DirectiveErrorView::EmptyHookList {
                directive: "on_exit"@,
                at: seq![Tree::Ident("on_exit"@)],
            },
        ),
{
    reveal_strlit("prologue");
    reveal_strlit("on_enter");
    reveal_strlit("on_exit");
    assert("on_enter"@ != "prologue"@) by {
        assert("on_enter"@[0] == 'o');
        assert("prologue"@[0] == 'p');
    }
    assert("on_exit"@ != "prologue"@) by {
        assert("on_exit"@.len() == 7);
        assert("prologue"@.len() == 8);
    }
    assert("on_exit"@ != "on_enter"@) by {
        assert("on_exit"@.len() == 7);
        assert("on_enter"@.len() == 8);
    }
    assert(parse_spec_list(Seq::empty()) == Ok::<Seq<FunctionSpecView>, SpecErrorView>(
        Seq::empty(),
    ));
    lemma_opened_clause("on_enter"@, Seq::empty(), rest);
    lemma_opened_clause("on_exit"@, Seq::empty(), rest);
}

/// An unknown directive is rejected with its name and the list of the four
/// supported names, whatever its body holds and whatever follows it.
pub proof fn law_unknown_directive(name: Seq<char>, body: Seq<Tree>, rest: Seq<Tree>)
    requires
        !is_supported(name),
    ensures
        parse_clause(name, body) == Err::<AxinArgView, DirectiveErrorView>(
            DirectiveErrorView::UnknownDirective {
                name,
                supported: supported_names(),
                at: seq![Tree::Ident(name)],
            },
        ),
        parse_attribute(seq![Tree::Ident(name), Tree::Group(Delim::Paren, body)] + rest) == Err::<
            Seq<AxinArgView>,
            DirectiveErrorView,
        >(
            DirectiveErrorView::UnknownDirective {
                name,
                supported: supported_names(),
                at: seq![Tree::Ident(name)],
            },
        ),
        supported_names() == seq!["prologue"@, "on_enter"@, "on_exit"@, "decorator"@],
        forall|other: Seq<char>| is_supported(other) <==> supported_names().contains(other),
{
    lemma_opened_clause(name, body, rest);
    assert forall|other: Seq<char>| is_supported(other) <==> supported_names().contains(
        other,
    ) by {
        if is_supported(other) {
            if other == "prologue"@ {
                assert(supported_names()[0] == other);
            } else if other == "on_enter"@ {
                assert(supported_names()[1] == other);
            } else if other == "on_exit"@ {
                assert(supported_names()[2] == other);
            } else {
                assert(supported_names()[3] == other);
            }
        }
    }
}

/// Round trip: the canonical directive list of a set adds up to that set
/// again, with the entry hooks, the exit hooks and the prologue statements in
/// their order and the same decorator.
pub proof fn law_round_trip(set: DirectiveSetView)
    ensures
        collect(canonical(set)) == set,
{
    let p = prologue_clause(set.prologue);
    let e = entry_clause(set.entry_hooks);
    let d = decorator_clause(set.decorator);
    let x = exit_clause(set.exit_hooks);
    // one clause after the other
    let none = Seq::<AxinArgView>::empty();
    let after_p = collect(p);
    assert(collect(none) == empty_set());
    if set.prologue.len() > 0 {
        lemma_collect_push(none, AxinArgView::Prologue(set.prologue));
        assert(p =~= none.push(AxinArgView::Prologue(set.prologue)));
    } else {
        assert(set.prologue =~= Seq::<Seq<Tree>>::empty());
    }
    assert(after_p == DirectiveSetView { prologue: set.prologue, ..empty_set() });
    let after_e = collect(p + e);
    if set.entry_hooks.len() > 0 {
        lemma_collect_push(p, AxinArgView::OnEnter(set.entry_hooks));
        assert(p + e =~= p.push(AxinArgView::OnEnter(set.entry_hooks)));
        assert(Seq::<FunctionSpecView>::empty() + set.entry_hooks =~= set.entry_hooks);
    } else {
        assert(p + e =~= p);
        assert(set.entry_hooks =~= Seq::<FunctionSpecView>::empty());
    }
    assert(after_e == DirectiveSetView {
        prologue: set.prologue,
        entry_hooks: set.entry_hooks,
        ..empty_set()
    });
    let after_d = collect(p + e + d);
    match set.decorator {
        Some(func) => {
            lemma_collect_push(p + e, AxinArgView::Decorator(func));
            assert(p + e + d =~= (p + e).push(AxinArgView::Decorator(func)));
        },
        None => {
            assert(p + e + d =~= p + e);
        },
    }
    assert(after_d == DirectiveSetView {
        prologue: set.prologue,
        entry_hooks: set.entry_hooks,
        decorator: set.decorator,
        ..empty_set()
    });
    if set.exit_hooks.len() > 0 {
        lemma_collect_push(p + e + d, AxinArgView::OnExit(set.exit_hooks));
        assert(p + e + d + x =~= (p + e + d).push(AxinArgView::OnExit(set.exit_hooks)));
        assert(Seq::<FunctionSpecView>::empty() + set.exit_hooks =~= set.exit_hooks);
    } else {
        assert(p + e + d + x =~= p + e + d);
        assert(set.exit_hooks =~= Seq::<FunctionSpecView>::empty());
    }
}

} // verus!
