//! The directive grammar, on token streams lexed from text.

use axin::args::{AxinArg, AxinArgs, DirectiveError, FunctionSpec, FunctionSpecList, SpecError};
use axin::generator::{process_attribute_args, DirectiveSet};
use axin::tokens::Fragment;
use proc_macro2::{TokenStream, TokenTree};
use std::str::FromStr;

fn tokens(text: &str) -> TokenStream {
    TokenStream::from_str(text).expect("the text lexes")
}

fn trees(text: &str) -> Vec<TokenTree> {
    tokens(text).into_iter().collect()
}

/// The tokens of `stream` with one space between each two, whatever the
/// spacing they were lexed or printed with.
fn written(stream: TokenStream) -> String {
    let mut parts: Vec<String> = Vec::new();
    for tree in stream {
        match tree {
            TokenTree::Group(group) => {
                let (open, close) = match group.delimiter() {
                    proc_macro2::Delimiter::Parenthesis => ("(", ")"),
                    proc_macro2::Delimiter::Brace => ("{", "}"),
                    proc_macro2::Delimiter::Bracket => ("[", "]"),
                    proc_macro2::Delimiter::None => ("", ""),
                };
                parts.push(open.to_string());
                let inner = written(group.stream());
                if !inner.is_empty() {
                    parts.push(inner);
                }
                parts.push(close.to_string());
            }
            other => parts.push(other.to_string()),
        }
    }
    parts.retain(|p| !p.is_empty());
    parts.join(" ")
}

fn text_of(fragment: &Fragment) -> String {
    written(fragment.trees.iter().cloned().collect())
}

/// The text of `source` as the lexer spells it back.
fn spelled(source: &str) -> String {
    written(tokens(source))
}

fn parse(text: &str) -> Vec<AxinArg> {
    match AxinArgs::parse(tokens(text)) {
        Ok(args) => args.args,
        Err(error) => panic!("rejected: {}", error.message()),
    }
}

fn rejection(text: &str) -> DirectiveError {
    match AxinArgs::parse(tokens(text)) {
        Ok(_) => panic!("accepted: {}", text),
        Err(error) => error,
    }
}

/// A spec as `path` or `path(arg; arg)`, each part spelled by the lexer.
fn show(spec: &FunctionSpec) -> String {
    match spec {
        FunctionSpec::Simple(path) => text_of(path),
        FunctionSpec::WithArgs(path, args) => {
            let args: Vec<String> = args.iter().map(text_of).collect();
            format!("{}({})", text_of(path), args.join("; "))
        }
    }
}

fn show_all(specs: &[FunctionSpec]) -> Vec<String> {
    specs.iter().map(show).collect()
}

#[test]
fn empty_input_holds_no_directive() {
    assert!(parse("").is_empty());
}

#[test]
fn simple_spec_is_a_bare_path() {
    let args = parse("on_enter(setup)");
    assert_eq!(args.len(), 1);
    let AxinArg::OnEnter { funcs } = &args[0] else {
        panic!("an entry clause");
    };
    assert_eq!(show_all(&funcs.list), vec!["setup"]);
    assert!(matches!(funcs.list[0], FunctionSpec::Simple(_)));
}

#[test]
fn spec_with_arguments_keeps_them_in_order() {
    let args = parse("on_exit(cleanup(\"Goodbye, (world\", 1 + 2, other::<A, B>()))");
    let AxinArg::OnExit { funcs } = &args[0] else {
        panic!("an exit clause");
    };
    let FunctionSpec::WithArgs(path, list) = &funcs.list[0] else {
        panic!("a spec with arguments");
    };
    assert_eq!(text_of(path), "cleanup");
    let list: Vec<String> = list.iter().map(text_of).collect();
    assert_eq!(
        list,
        vec![spelled("\"Goodbye, (world\""), spelled("1 + 2"), spelled("other::<A, B>()")]
    );
}

#[test]
fn spec_with_empty_brackets_has_no_arguments() {
    let args = parse("decorator(make())");
    let AxinArg::Decorator { func } = &args[0] else {
        panic!("a decorator clause");
    };
    let FunctionSpec::WithArgs(path, list) = func else {
        panic!("a spec with arguments");
    };
    assert_eq!(text_of(path), "make");
    assert!(list.is_empty());
}

#[test]
fn path_may_have_segments_and_generics() {
    let args = parse("on_enter(hooks::log::<Vec<u8>, u8>, crate::other)");
    let AxinArg::OnEnter { funcs } = &args[0] else {
        panic!("an entry clause");
    };
    assert_eq!(
        show_all(&funcs.list),
        vec![spelled("hooks::log::<Vec<u8>, u8>"), spelled("crate::other")]
    );
}

#[test]
fn hook_list_keeps_order_and_duplicates() {
    let args = parse("on_enter(a, b(1), a, c)");
    let AxinArg::OnEnter { funcs } = &args[0] else {
        panic!("an entry clause");
    };
    assert_eq!(show_all(&funcs.list), vec!["a", "b(1)", "a", "c"]);
}

#[test]
fn trailing_commas_are_accepted() {
    let args = parse("on_enter(a, b,), on_exit(c),");
    assert_eq!(args.len(), 2);
    let AxinArg::OnEnter { funcs } = &args[0] else {
        panic!("an entry clause");
    };
    assert_eq!(show_all(&funcs.list), vec!["a", "b"]);
    let AxinArg::OnExit { funcs } = &args[1] else {
        panic!("an exit clause");
    };
    assert_eq!(show_all(&funcs.list), vec!["c"]);
}

#[test]
fn clauses_come_out_in_source_order() {
    let args = parse("on_exit(x), prologue(let a = 1;), decorator(d), on_enter(y)");
    assert!(matches!(args[0], AxinArg::OnExit { .. }));
    assert!(matches!(args[1], AxinArg::Prologue { .. }));
    assert!(matches!(args[2], AxinArg::Decorator { .. }));
    assert!(matches!(args[3], AxinArg::OnEnter { .. }));
}

#[test]
fn prologue_statements_are_terminated() {
    let args = parse("prologue(let a = 1; call(a); a + 1)");
    let AxinArg::Prologue { stmts } = &args[0] else {
        panic!("a prologue clause");
    };
    let stmts: Vec<String> = stmts.iter().map(text_of).collect();
    assert_eq!(stmts, vec![spelled("let a = 1;"), spelled("call(a);"), spelled("a + 1;")]);
}

#[test]
fn trailing_prologue_expression_gets_a_terminator() {
    let arg = AxinArg::parse(&trees("prologue(a(); b())")).expect("a clause");
    let AxinArg::Prologue { stmts } = arg else {
        panic!("a prologue clause");
    };
    let stmts: Vec<String> = stmts.iter().map(text_of).collect();
    assert_eq!(stmts, vec![spelled("a();"), spelled("b();")]);
}

#[test]
fn empty_prologue_is_accepted() {
    let args = parse("prologue()");
    let AxinArg::Prologue { stmts } = &args[0] else {
        panic!("a prologue clause");
    };
    assert!(stmts.is_empty());
}

#[test]
fn empty_entry_hook_list_is_rejected() {
    let DirectiveError::EmptyHookList { directive, at } = rejection("on_enter()") else {
        panic!("an empty hook list");
    };
    assert_eq!(directive, "on_enter");
    assert_eq!(text_of(&at), "on_enter");
}

#[test]
fn empty_exit_hook_list_is_rejected() {
    let error = rejection("on_exit()");
    assert_eq!(error.message(), "The 'on_exit' parameter requires at least one function.");
    let DirectiveError::EmptyHookList { directive, .. } = error else {
        panic!("an empty hook list");
    };
    assert_eq!(directive, "on_exit");
}

#[test]
fn unknown_directive_lists_the_supported_names() {
    let error = rejection("foo(bar)");
    assert_eq!(
        error.message(),
        "Unsupported parameter: 'foo'. Supported parameters are: prologue, on_enter, on_exit, decorator"
    );
    let DirectiveError::UnknownDirective { name, supported, at } = error else {
        panic!("an unknown directive");
    };
    assert_eq!(name, "foo");
    assert_eq!(supported, vec!["prologue", "on_enter", "on_exit", "decorator"]);
    assert_eq!(text_of(&at), "foo");
}

#[test]
fn unknown_directive_is_rejected_whatever_its_body() {
    assert!(matches!(rejection("foo()"), DirectiveError::UnknownDirective { .. }));
    assert!(matches!(rejection("on_entry(1 +)"), DirectiveError::UnknownDirective { .. }));
    assert!(matches!(rejection("Prologue(x;)"), DirectiveError::UnknownDirective { .. }));
}

#[test]
fn decorator_takes_exactly_one_spec() {
    for text in ["decorator()", "decorator(a, b)", "decorator(a,)", "decorator(a b)"] {
        let DirectiveError::MalformedFunctionSpec { directive, at } = rejection(text) else {
            panic!("a malformed function spec: {}", text);
        };
        assert_eq!(directive, "decorator");
        assert_eq!(text_of(&at), "decorator");
    }
    assert_eq!(
        rejection("decorator(a b)").message(),
        "The 'decorator' parameter expects a function path, optionally followed by arguments in parentheses."
    );
}

#[test]
fn hook_that_is_no_path_is_rejected() {
    for text in ["on_enter(1)", "on_enter(a b)"] {
        let DirectiveError::MalformedFunctionSpec { directive, at } = rejection(text) else {
            panic!("a malformed function spec: {}", text);
        };
        assert_eq!(directive, "on_enter");
        assert_eq!(text_of(&at), "on_enter");
    }
    for text in ["on_exit(a, , b)", "on_exit(\"text\")"] {
        let DirectiveError::MalformedFunctionSpec { directive, at } = rejection(text) else {
            panic!("a malformed function spec: {}", text);
        };
        assert_eq!(directive, "on_exit");
        assert_eq!(text_of(&at), "on_exit");
    }
    assert_eq!(
        rejection("on_exit(\"text\")").message(),
        "The 'on_exit' parameter expects a function path, optionally followed by arguments in parentheses."
    );
}

#[test]
fn clause_that_is_no_name_with_brackets_is_rejected() {
    for text in ["on_enter", "on_enter[a]", "on_enter { a }", "on_enter, on_exit(b)"] {
        let DirectiveError::MalformedDirective { name, at } = rejection(text) else {
            panic!("a malformed clause: {}", text);
        };
        assert_eq!(name.as_deref(), Some("on_enter"));
        assert_eq!(text_of(&at), "on_enter");
    }
    for text in ["(a)", ", on_enter(a)", "\"text\"(a)", "on_enter(a), (b)"] {
        let DirectiveError::MalformedDirective { name, at } = rejection(text) else {
            panic!("a malformed clause: {}", text);
        };
        assert_eq!(name, None);
        assert_eq!(at.trees.len(), 1);
    }
    let DirectiveError::MalformedDirective { at, .. } = rejection("on_enter(a), (b)") else {
        panic!("a malformed clause");
    };
    assert_eq!(text_of(&at), spelled("(b)"));
    let Err(DirectiveError::MalformedDirective { name, at }) = AxinArg::parse(&trees("")) else {
        panic!("a malformed clause");
    };
    assert_eq!(name, None);
    assert!(at.trees.is_empty());
    assert_eq!(rejection("foo").message(), "The 'foo' parameter must be followed by parentheses.");
    assert_eq!(rejection("(a)").message(), "Expected a parameter of the form `name(...)`.");
}

#[test]
fn clauses_without_a_comma_between_them_are_rejected() {
    let DirectiveError::MissingComma { after, at } = rejection("on_enter(a) on_exit(b)") else {
        panic!("a missing comma");
    };
    assert_eq!(after, "on_enter");
    assert_eq!(text_of(&at), "on_exit");
    let error = rejection("on_enter(a), decorator(d) ; on_exit(b)");
    assert_eq!(error.message(), "Expected `,` after the 'decorator' parameter.");
    let DirectiveError::MissingComma { after, .. } = error else {
        panic!("a missing comma");
    };
    assert_eq!(after, "decorator");
}

#[test]
fn statement_errors_come_from_the_statement_parser() {
    let error = rejection("prologue(let x = ;)");
    let text = error.message();
    let DirectiveError::External { directive, error } = error else {
        panic!("an error of the statement parser");
    };
    assert_eq!(directive, "prologue");
    assert!(!error.to_string().is_empty());
    assert_eq!(text, format!("In the 'prologue' parameter: {}", error));
    assert!(matches!(rejection("prologue(a b)"), DirectiveError::External { .. }));
}

#[test]
fn expression_errors_come_from_the_expression_parser() {
    let DirectiveError::External { directive, .. } = rejection("on_enter(f(1 +))") else {
        panic!("an error of the expression parser");
    };
    assert_eq!(directive, "on_enter");
    let DirectiveError::External { directive, .. } = rejection("decorator(d(a b))") else {
        panic!("an error of the expression parser");
    };
    assert_eq!(directive, "decorator");
}

#[test]
fn first_rejected_clause_decides() {
    assert!(matches!(rejection("on_enter(), foo(x)"), DirectiveError::EmptyHookList { .. }));
    assert!(matches!(rejection("foo(x), on_enter()"), DirectiveError::UnknownDirective { .. }));
    assert!(matches!(rejection("on_enter(a), bar"), DirectiveError::MalformedDirective { .. }));
}

#[test]
fn function_spec_parse_returns_what_follows() {
    let input = trees("a::b(1, 2), c");
    let (spec, rest) = FunctionSpec::parse(&input).expect("a spec");
    assert_eq!(show(&spec), format!("{}(1; 2)", spelled("a::b")));
    let rest: TokenStream = rest.into_iter().collect();
    assert_eq!(written(rest), spelled(", c"));

    let input = trees("plain + 1");
    let (spec, rest) = FunctionSpec::parse(&input).expect("a spec");
    assert_eq!(show(&spec), "plain");
    assert_eq!(rest.len(), 2);

    assert!(matches!(FunctionSpec::parse(&trees("1 + a")), Err(SpecError::Malformed)));
    assert!(matches!(FunctionSpec::parse(&trees("")), Err(SpecError::Malformed)));
    assert!(matches!(FunctionSpec::parse(&trees("f(1 +)")), Err(SpecError::External(_))));
}

#[test]
fn function_spec_list_parse_reads_the_whole_input() {
    let list = FunctionSpecList::parse(&trees("a, b(x), c")).expect("a list").list;
    assert_eq!(show_all(&list), vec!["a", "b(x)", "c"]);
    assert!(matches!(FunctionSpecList::parse(&trees("a b")), Err(SpecError::Malformed)));
    let empty = FunctionSpecList::parse(&trees("")).expect("an empty list parses");
    assert!(empty.list.is_empty());
}

#[test]
fn clause_parse_reads_name_and_brackets() {
    let arg = AxinArg::parse(&trees("on_exit(done) , more")).expect("a clause");
    let AxinArg::OnExit { funcs } = arg else {
        panic!("an exit clause");
    };
    assert_eq!(show_all(&funcs.list), vec!["done"]);
    assert!(matches!(
        AxinArg::parse(&trees("on_exit")),
        Err(DirectiveError::MalformedDirective { name: Some(_), .. })
    ));
    assert!(matches!(
        AxinArg::parse(&trees("")),
        Err(DirectiveError::MalformedDirective { name: None, .. })
    ));
    let clause = AxinArg::parse(&trees("decorator(d)")).expect("a clause");
    assert_eq!(clause.name(), "decorator");
}

#[test]
fn hooks_accumulate_from_left_to_right() {
    let args = AxinArgs::parse(tokens("on_enter(a), on_exit(x), on_enter(b, c), on_exit(y)"))
        .expect("the directives parse");
    let (prologue, decorator, on_enter, on_exit) = process_attribute_args(args);
    assert!(prologue.is_empty());
    assert!(decorator.is_none());
    assert_eq!(show_all(&on_enter), vec!["a", "b", "c"]);
    assert_eq!(show_all(&on_exit), vec!["x", "y"]);
}

#[test]
fn prologue_expression_gets_a_terminator() {
    let args =
        AxinArgs::parse(tokens("prologue(let a = 1; a + 1)")).expect("the directives parse");
    let (prologue, _, _, _) = process_attribute_args(args);
    let prologue: Vec<String> = prologue.iter().map(text_of).collect();
    assert_eq!(prologue, vec![spelled("let a = 1;"), spelled("a + 1;")]);
}

#[test]
fn the_last_prologue_and_the_last_decorator_stay() {
    let args = AxinArgs::parse(tokens(
        "prologue(one();), decorator(first), prologue(two()), decorator(second(1))",
    ))
    .expect("the directives parse");
    let set = DirectiveSet::from_args(args);
    let prologue: Vec<String> = set.prologue.iter().map(text_of).collect();
    assert_eq!(prologue, vec![spelled("two();")]);
    assert_eq!(show(set.decorator.as_ref().expect("a decorator")), "second(1)");
    assert!(!set.is_empty());

    let args = AxinArgs::parse(tokens("prologue(p1();), prologue(p2();)")).expect("parses");
    let (prologue, _, _, _) = process_attribute_args(args);
    let prologue: Vec<String> = prologue.iter().map(text_of).collect();
    assert_eq!(prologue, vec![spelled("p2();")]);

    let args = AxinArgs::parse(tokens("prologue(p1();), on_enter(a), prologue()")).expect("parses");
    let (prologue, _, on_enter, _) = process_attribute_args(args);
    assert!(prologue.is_empty());
    assert_eq!(show_all(&on_enter), vec!["a"]);
}

#[test]
fn set_without_content_is_empty() {
    let none = DirectiveSet::from_args(AxinArgs::parse(tokens("")).expect("parses"));
    assert!(none.is_empty());
    let blank = DirectiveSet::from_args(AxinArgs::parse(tokens("prologue()")).expect("parses"));
    assert!(blank.is_empty());
    let some = DirectiveSet::from_args(AxinArgs::parse(tokens("on_exit(a)")).expect("parses"));
    assert!(!some.is_empty());
}

#[test]
fn canonical_form_round_trips_through_the_parser() {
    let source = "on_exit(x(1)), on_enter(a), prologue(p(); q()), on_enter(b(2, 3), c), \
                  decorator(d::e(\"s\")), on_exit(y)";
    let set = DirectiveSet::from_args(AxinArgs::parse(tokens(source)).expect("parses"));
    let canonical = set.to_args();
    assert_eq!(
        written(canonical.to_token_stream()),
        spelled(
            "prologue(p(); q();), on_enter(a, b(2, 3), c), decorator(d::e(\"s\")), \
             on_exit(x(1), y)"
        )
    );
    let again = DirectiveSet::from_args(
        AxinArgs::parse(canonical.to_token_stream()).expect("the canonical form parses"),
    );
    assert_eq!(show_all(&again.entry_hooks), show_all(&set.entry_hooks));
    assert_eq!(show_all(&again.entry_hooks), vec!["a", "b(2; 3)", "c"]);
    assert_eq!(show_all(&again.exit_hooks), show_all(&set.exit_hooks));
    assert_eq!(show_all(&again.exit_hooks), vec!["x(1)", "y"]);
    let before: Vec<String> = set.prologue.iter().map(text_of).collect();
    let after: Vec<String> = again.prologue.iter().map(text_of).collect();
    assert_eq!(before, after);
    assert_eq!(
        show(again.decorator.as_ref().expect("a decorator")),
        show(set.decorator.as_ref().expect("a decorator"))
    );
}

#[test]
fn directive_list_is_written_as_it_was_read() {
    let source = "on_enter(a, b(1)), prologue(let x = 2; x;), decorator(d)";
    let args = AxinArgs::parse(tokens(source)).expect("parses");
    assert_eq!(written(args.to_token_stream()), spelled(source));
    let open = AxinArgs::parse(tokens("prologue(let x = 2; x)")).expect("parses");
    assert_eq!(written(open.to_token_stream()), spelled("prologue(let x = 2; x;)"));
    assert_eq!(text_of(&args.args[2].to_tokens()), spelled("decorator(d)"));
    let empty = AxinArgs::parse(tokens("")).expect("parses");
    assert!(empty.to_tokens().trees.is_empty());
}

#[test]
fn copies_hold_the_same_tokens() {
    let input = trees("a::b(1, (2, 3)), c");
    let (spec, _) = FunctionSpec::parse(&input).expect("a spec");
    let copy = spec.copy();
    assert_eq!(show(&copy), show(&spec));
    let fragment = Fragment { trees: trees("x + [y, { z }]") };
    assert_eq!(text_of(&fragment.copy()), spelled("x + [y, { z }]"));
    assert!(Fragment::empty().trees.is_empty());
}

/// `stream` in a group without visible brackets.
fn invisible(stream: TokenStream) -> TokenStream {
    TokenStream::from(TokenTree::Group(proc_macro2::Group::new(
        proc_macro2::Delimiter::None,
        stream,
    )))
}

fn in_brackets(name: &str, body: TokenStream) -> TokenStream {
    let mut stream = tokens(name);
    stream.extend([TokenTree::Group(proc_macro2::Group::new(
        proc_macro2::Delimiter::Parenthesis,
        body,
    ))]);
    stream
}

#[test]
fn directive_list_in_an_invisible_group_is_read() {
    let wrapped = invisible(tokens("on_enter(a), on_exit(b(1))"));
    let args = AxinArgs::parse(wrapped).expect("the directives parse").args;
    assert_eq!(args.len(), 2);
    let AxinArg::OnExit { funcs } = &args[1] else {
        panic!("an exit clause");
    };
    assert_eq!(show_all(&funcs.list), vec!["b(1)"]);

    let mut mixed = invisible(invisible(tokens("on_enter(a)")));
    mixed.extend(tokens(","));
    mixed.extend(invisible(tokens("decorator(d)")));
    let args = AxinArgs::parse(mixed).expect("the directives parse").args;
    assert_eq!(args.len(), 2);
    assert!(matches!(args[0], AxinArg::OnEnter { .. }));
    assert!(matches!(args[1], AxinArg::Decorator { .. }));
}

#[test]
fn hook_in_an_invisible_group_is_read() {
    let mut body = invisible(tokens("f(1, 2)"));
    body.extend(tokens(","));
    body.extend(invisible(tokens("a::b")));
    let args = AxinArgs::parse(in_brackets("on_enter", body)).expect("the directives parse").args;
    let AxinArg::OnEnter { funcs } = &args[0] else {
        panic!("an entry clause");
    };
    assert_eq!(show_all(&funcs.list), vec!["f(1; 2)".to_string(), spelled("a::b")]);
    assert!(matches!(funcs.list[0], FunctionSpec::WithArgs(_, _)));

    let args = AxinArgs::parse(in_brackets("decorator", invisible(tokens("d(\"x\")"))))
        .expect("the directives parse")
        .args;
    let AxinArg::Decorator { func } = &args[0] else {
        panic!("a decorator clause");
    };
    assert_eq!(show(func), "d(\"x\")");

    let empty = in_brackets("on_exit", invisible(TokenStream::new()));
    assert!(matches!(AxinArgs::parse(empty), Err(DirectiveError::EmptyHookList { .. })));
}
