//! The weaver and the tokens it writes, held against the source text that
//! the woven function stands for.

use axin::args::{AxinArgs, FunctionSpec};
use axin::function::{Binding, FunctionDecl, Parameter, Signature, WovenStmt};
use axin::generator::{
    generate_decorator_call, generate_enhanced_function, generate_function_call, weave,
    DirectiveSet,
};
use axin::tokens::Fragment;
use proc_macro2::{TokenStream, TokenTree};
use quote::ToTokens;
use std::str::FromStr;

fn tokens(text: &str) -> TokenStream {
    TokenStream::from_str(text).expect("the text lexes")
}

fn trees(text: &str) -> Vec<TokenTree> {
    tokens(text).into_iter().collect()
}

fn fragment(text: &str) -> Fragment {
    Fragment { trees: trees(text) }
}

/// The tokens of `stream` with one space between each two, whatever the
/// spacing they were lexed or printed with.
fn written(stream: TokenStream) -> String {
    let mut parts: Vec<String> = Vec::new();
    for tree in stream {
        match tree {
            TokenTree::Group(group) => {
                let (open, close) = match group.delimiter() {
                    proc_macro2::Delimiter::Parenthesis => ("(", ")"),
                    proc_macro2::Delimiter::Brace => ("{", "}"),
                    proc_macro2::Delimiter::Bracket => ("[", "]"),
                    proc_macro2::Delimiter::None => ("", ""),
                };
                parts.push(open.to_string());
                let inner = written(group.stream());
                if !inner.is_empty() {
                    parts.push(inner);
                }
                parts.push(close.to_string());
            }
            other => parts.push(other.to_string()),
        }
    }
    parts.retain(|p| !p.is_empty());
    parts.join(" ")
}

fn text_of(fragment: &Fragment) -> String {
    written(fragment.trees.iter().cloned().collect())
}

/// The text of `source` as the lexer spells it back.
fn spelled(source: &str) -> String {
    written(tokens(source))
}

fn spec(text: &str) -> FunctionSpec {
    match FunctionSpec::parse(&trees(text)) {
        Ok((spec, rest)) => {
            assert!(rest.is_empty());
            spec
        }
        Err(error) => panic!("rejected: {:?}", error),
    }
}

fn specs(texts: &[&str]) -> Vec<FunctionSpec> {
    texts.iter().map(|t| spec(t)).collect()
}

/// The declaration that `syn` reads from `source`.
fn declaration(source: &str) -> FunctionDecl {
    let item: syn::ItemFn = syn::parse_str(source).expect("the source is a function");
    let mut head = TokenStream::new();
    for attribute in &item.attrs {
        attribute.to_tokens(&mut head);
    }
    item.vis.to_tokens(&mut head);
    item.sig.constness.to_tokens(&mut head);
    item.sig.asyncness.to_tokens(&mut head);
    item.sig.unsafety.to_tokens(&mut head);
    item.sig.abi.to_tokens(&mut head);
    item.sig.fn_token.to_tokens(&mut head);
    item.sig.ident.to_tokens(&mut head);
    item.sig.generics.to_tokens(&mut head);
    let mut params = Vec::new();
    for input in item.sig.inputs.iter() {
        let binding = match input {
            syn::FnArg::Typed(typed) => match &*typed.pat {
                syn::Pat::Ident(pattern) => Binding::Identifier(Fragment {
                    trees: pattern.ident.to_token_stream().into_iter().collect(),
                }),
                _ => Binding::Other,
            },
            syn::FnArg::Receiver(_) => Binding::Other,
        };
        let source = Fragment { trees: input.to_token_stream().into_iter().collect() };
        params.push(Parameter { source, binding });
    }
    let signature = Signature {
        head: Fragment { trees: head.into_iter().collect() },
        params,
        output: Fragment { trees: item.sig.output.to_token_stream().into_iter().collect() },
        where_clause: Fragment {
            trees: item.sig.generics.where_clause.to_token_stream().into_iter().collect(),
        },
    };
    let body = item
        .block
        .stmts
        .iter()
        .map(|s| Fragment { trees: s.to_token_stream().into_iter().collect() })
        .collect();
    FunctionDecl { signature, body }
}

fn set(directives: &str) -> DirectiveSet {
    DirectiveSet::from_args(AxinArgs::parse(tokens(directives)).expect("the directives parse"))
}

fn woven_text(directives: &str, source: &str) -> String {
    written(weave(declaration(source), set(directives)).to_token_stream())
}

#[test]
fn hook_call_of_a_bare_path_has_empty_brackets() {
    assert_eq!(text_of(&generate_function_call(&spec("setup"))), spelled("setup()"));
    assert_eq!(text_of(&generate_function_call(&spec("a::b"))), spelled("a::b()"));
}

#[test]
fn hook_call_with_arguments_passes_them_in_order() {
    assert_eq!(
        text_of(&generate_function_call(&spec("cleanup(\"bye\", 42)"))),
        spelled("cleanup(\"bye\", 42)")
    );
    assert_eq!(text_of(&generate_function_call(&spec("make()"))), spelled("make()"));
    assert_eq!(text_of(&generate_function_call(&spec("one(1,)"))), spelled("one(1)"));
}

#[test]
fn simple_decorator_gets_the_core_callable_first() {
    let none: Vec<Fragment> = Vec::new();
    assert_eq!(
        text_of(&generate_decorator_call(&spec("timing"), &none)),
        spelled("timing(original_fn)")
    );
    let forwarded = vec![fragment("a"), fragment("b")];
    assert_eq!(
        text_of(&generate_decorator_call(&spec("timing"), &forwarded)),
        spelled("timing(original_fn, a, b)")
    );
}

#[test]
fn curried_decorator_is_called_before_it_is_applied() {
    let none: Vec<Fragment> = Vec::new();
    assert_eq!(
        text_of(&generate_decorator_call(&spec("log(\"msg\")"), &none)),
        spelled("(log(\"msg\"))(original_fn)")
    );
    let forwarded = vec![fragment("n")];
    assert_eq!(
        text_of(&generate_decorator_call(&spec("retry(3, true)"), &forwarded)),
        spelled("(retry(3, true))(original_fn, n)")
    );
    assert_eq!(
        text_of(&generate_decorator_call(&spec("make()"), &forwarded)),
        spelled("(make())(original_fn, n)")
    );
}

#[test]
fn woven_function_is_written_in_the_fixed_order() {
    let text = woven_text(
        "prologue(let step = 1;), on_enter(a, b(1)), decorator(d), on_exit(c)",
        "pub fn work(n: i32, m: u8) -> i32 { log(n); n + 1 }",
    );
    assert_eq!(
        text,
        spelled(
            "pub fn work(n: i32, m: u8) -> i32 {
                a();
                b(1);
                let original_fn = |n: i32, m: u8| -> i32 { let step = 1; log(n); n + 1 };
                let __result = d(original_fn, n, m);
                c();
                return __result;
            }"
        )
    );
}

#[test]
fn without_decorator_the_core_callable_is_called_directly() {
    let text = woven_text("on_enter(a)", "fn unit(x: u8) { use_it(x); }");
    assert_eq!(
        text,
        spelled(
            "fn unit(x: u8) {
                a();
                let original_fn = |x: u8| { use_it(x); };
                let __result = original_fn(x);
                return __result;
            }"
        )
    );
}

#[test]
fn unit_result_is_bound_and_returned_too() {
    let text = woven_text("on_exit(done)", "fn quiet() {}");
    assert_eq!(
        text,
        spelled(
            "fn quiet() {
                let original_fn = | | { };
                let __result = original_fn();
                done();
                return __result;
            }"
        )
    );
}

#[test]
fn curried_decorator_is_built_inside_the_woven_body() {
    let text = woven_text("decorator(retry(3))", "fn get(key: &str) -> u8 { fetch(key) }");
    assert_eq!(
        text,
        spelled(
            "fn get(key: &str) -> u8 {
                let original_fn = |key: &str| -> u8 { fetch(key) };
                let __result = (retry(3))(original_fn, key);
                return __result;
            }"
        )
    );
}

#[test]
fn only_identifier_patterns_are_forwarded() {
    let decl = declaration("fn f((a, b): (i32, i32), mut c: i32, _: u8, d: u8) -> i32 { a + c }");
    let woven = weave(decl, set("decorator(dec)"));
    let WovenStmt::BindResult { forwarded, .. } = &woven.body[1] else {
        panic!("the second statement binds the result");
    };
    let names: Vec<String> = forwarded.iter().map(text_of).collect();
    assert_eq!(names, vec!["c", "d"]);
    let WovenStmt::DefineCore { params, .. } = &woven.body[0] else {
        panic!("the first statement defines the core callable");
    };
    let params: Vec<String> = params.iter().map(text_of).collect();
    assert_eq!(
        params,
        vec![
            spelled("(a, b): (i32, i32)"),
            spelled("mut c: i32"),
            spelled("_: u8"),
            spelled("d: u8")
        ]
    );
    assert_eq!(
        text_of(&woven.body[1].to_tokens()),
        spelled("let __result = dec(original_fn, c, d);")
    );
}

#[test]
fn signature_is_kept_with_qualifiers_generics_and_where_clause() {
    let text = woven_text(
        "on_enter(a)",
        "pub(crate) async unsafe fn g<T: Clone>(t: T) -> T where T: Send { t }",
    );
    assert_eq!(
        text,
        spelled(
            "pub(crate) async unsafe fn g<T: Clone>(t: T) -> T where T: Send {
                a();
                let original_fn = |t: T| -> T { t };
                let __result = original_fn(t);
                return __result;
            }"
        )
    );
}

#[test]
fn woven_body_has_its_statements_in_the_fixed_order() {
    let woven = generate_enhanced_function(
        declaration("fn f(n: i32) -> i32 { n }"),
        vec![fragment("p();")],
        Some(spec("d(1)")),
        specs(&["a", "b"]),
        specs(&["c"]),
    );
    assert_eq!(woven.body.len(), 6);
    assert!(matches!(&woven.body[0], WovenStmt::HookCall(s) if text_of(&s.to_tokens()) == "a"));
    assert!(matches!(&woven.body[1], WovenStmt::HookCall(s) if text_of(&s.to_tokens()) == "b"));
    let WovenStmt::DefineCore { body, output, .. } = &woven.body[2] else {
        panic!("the core callable follows the entry hooks");
    };
    let body: Vec<String> = body.iter().map(text_of).collect();
    assert_eq!(body, vec![spelled("p();"), spelled("n")]);
    assert_eq!(text_of(output), spelled("-> i32"));
    let WovenStmt::BindResult { decorator, forwarded } = &woven.body[3] else {
        panic!("the result is bound after the core callable is defined");
    };
    assert_eq!(text_of(&decorator.as_ref().expect("a decorator").to_tokens()), spelled("d(1)"));
    assert_eq!(forwarded.len(), 1);
    assert!(matches!(&woven.body[4], WovenStmt::HookCall(s) if text_of(&s.to_tokens()) == "c"));
    assert!(matches!(&woven.body[5], WovenStmt::ReturnResult));
    let calls = woven.body.iter().filter(|s| matches!(s, WovenStmt::BindResult { .. })).count();
    assert_eq!(calls, 1);
}

#[test]
fn generation_without_directives_leaves_the_function_as_written() {
    let source = "pub fn f(n: i32) -> i32 { x(); n }";
    let woven = generate_enhanced_function(declaration(source), vec![], None, vec![], vec![]);
    assert_eq!(woven.body.len(), 2);
    assert!(woven.body.iter().all(|s| matches!(s, WovenStmt::Source(_))));
    assert_eq!(written(woven.to_token_stream()), spelled(source));
}

#[test]
fn generation_with_one_directive_weaves() {
    let woven = generate_enhanced_function(
        declaration("fn f() { x(); }"),
        vec![fragment("p();")],
        None,
        vec![],
        vec![],
    );
    assert_eq!(
        written(woven.to_token_stream()),
        spelled(
            "fn f() {
                let original_fn = | | { p(); x(); };
                let __result = original_fn();
                return __result;
            }"
        )
    );
}

#[test]
fn woven_tokens_are_a_function_item() {
    let woven = weave(
        declaration("pub fn work<T: Clone>(n: i32, (a, b): (u8, u8), t: T) -> i32 where T: Send { log(n); n + 1 }"),
        set("prologue(let step = 1; step), on_enter(a, b(1)), decorator(d(2)), on_exit(c)"),
    );
    let item: syn::ItemFn =
        syn::parse2(woven.to_token_stream()).expect("the woven tokens are a function");
    assert_eq!(item.sig.ident.to_string(), "work");
    assert_eq!(item.sig.inputs.len(), 3);
    assert_eq!(item.block.stmts.len(), 6);
    assert!(matches!(item.block.stmts[0], syn::Stmt::Expr(syn::Expr::Call(_), Some(_))));
    assert!(matches!(item.block.stmts[2], syn::Stmt::Local(_)));
    assert!(matches!(item.block.stmts[3], syn::Stmt::Local(_)));
    assert!(matches!(item.block.stmts[5], syn::Stmt::Expr(syn::Expr::Return(_), Some(_))));
    let syn::Stmt::Local(definition) = &item.block.stmts[2] else {
        panic!("the core callable is defined by `let`");
    };
    let init = definition.init.as_ref().expect("the definition has a value");
    let syn::Expr::Closure(closure) = &*init.expr else {
        panic!("the core callable is a closure");
    };
    assert_eq!(closure.inputs.len(), 3);
    let syn::Expr::Block(block) = &*closure.body else {
        panic!("the closure has a block");
    };
    assert_eq!(block.block.stmts.len(), 4);

    let kept = weave(declaration("fn plain(x: u8) -> u8 { x }"), set(""));
    let item: syn::ItemFn =
        syn::parse2(kept.to_token_stream()).expect("the kept tokens are a function");
    assert_eq!(item.block.stmts.len(), 1);
}

#[test]
fn empty_set_leaves_the_function_as_written() {
    let source = "pub fn keep<'a>(s: &'a str, (x, y): (u8, u8)) -> &'a str where u8: Copy { touch(x); s }";
    assert_eq!(woven_text("", source), spelled(source));
    assert_eq!(woven_text("prologue()", source), spelled(source));
    let woven = weave(declaration(source), set(""));
    assert_eq!(woven.body.len(), 2);
    let WovenStmt::Source(first) = &woven.body[0] else {
        panic!("a statement as written");
    };
    assert_eq!(text_of(first), spelled("touch(x);"));
}

#[test]
fn statements_are_written_one_by_one() {
    let woven = weave(declaration("fn f() { x(); }"), set("on_enter(a(1)), on_exit(b)"));
    let statements: Vec<String> =
        woven.body.iter().map(|s| text_of(&s.to_tokens())).collect();
    assert_eq!(
        statements,
        vec![
            spelled("a(1);"),
            spelled("let original_fn = | | { x(); };"),
            spelled("let __result = original_fn();"),
            spelled("b();"),
            spelled("return __result;"),
        ]
    );
    assert_eq!(text_of(&woven.to_tokens()), written(woven.to_token_stream()));
}

#[test]
fn weaving_twice_gives_the_same_tokens() {
    let directives = "prologue(p()), on_enter(a), decorator(d(1)), on_exit(b)";
    let source = "fn f(n: i32) -> i32 { n + 1 }";
    assert_eq!(woven_text(directives, source), woven_text(directives, source));
}

#[test]
fn literal_with_minus_sign_is_written_as_sign_and_literal() {
    let negative = TokenTree::Literal(proc_macro2::Literal::i32_unsuffixed(-7));
    let argument = Fragment { trees: vec![negative.clone()] };
    let call = generate_function_call(&FunctionSpec::WithArgs(fragment("f"), vec![argument]));
    let TokenTree::Group(group) = &call.trees[1] else {
        panic!("the arguments stand in brackets");
    };
    let inner: Vec<String> = group.stream().into_iter().map(|t| t.to_string()).collect();
    assert_eq!(inner, vec!["-", "7"]);

    let mut decl = declaration("fn f() {}");
    decl.body.push(Fragment { trees: vec![negative] });
    let woven = weave(decl, set(""));
    let all: Vec<TokenTree> = woven.to_token_stream().into_iter().collect();
    let TokenTree::Group(body) = &all[all.len() - 1] else {
        panic!("the body stands in braces");
    };
    let body: Vec<String> = body.stream().into_iter().map(|t| t.to_string()).collect();
    assert_eq!(body, vec!["-", "7"]);
}

#[test]
fn attributes_stay_in_front_of_the_function() {
    let source = "#[inline] #[doc = \"text\"] pub fn f(n: u8) -> u8 { n }";
    assert_eq!(woven_text("", source), spelled(source));
    assert_eq!(
        woven_text("on_enter(a)", source),
        spelled(
            "#[inline] #[doc = \"text\"] pub fn f(n: u8) -> u8 {
                a();
                let original_fn = |n: u8| -> u8 { n };
                let __result = original_fn(n);
                return __result;
            }"
        )
    );
}
