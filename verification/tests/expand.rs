use assert_impl_trait::assert_impl::{expand, main, push_groups, push_trees};
use assert_impl_trait::parse::parse_predicate_list;
use assert_impl_trait::token::{Delimiter, Token};
use assert_impl_trait::types::{Error, GenericParam, Predicate, PredicateTree};
use proc_macro2::{Group, Ident, Literal, Punct, Spacing, Span, TokenStream, TokenTree};
use quote::ToTokens;

fn delimiter(delimiter: proc_macro2::Delimiter) -> Delimiter {
    match delimiter {
        proc_macro2::Delimiter::Parenthesis => Delimiter::Parenthesis,
        proc_macro2::Delimiter::Brace => Delimiter::Brace,
        proc_macro2::Delimiter::Bracket => Delimiter::Bracket,
        proc_macro2::Delimiter::None => Delimiter::Invisible,
    }
}

fn tokens(stream: TokenStream) -> Vec<Token> {
    stream
        .into_iter()
        .map(|tree| match tree {
            TokenTree::Group(group) => Token::Group {
                delimiter: delimiter(group.delimiter()),
                tokens: tokens(group.stream()),
                span: group.span(),
            },
            TokenTree::Ident(ident) => Token::Ident {
                name: ident.to_string(),
                span: ident.span(),
            },
            TokenTree::Punct(punct) => Token::Punct {
                ch: punct.as_char(),
                joint: punct.spacing() == Spacing::Joint,
                span: punct.span(),
            },
            TokenTree::Literal(literal) => Token::Literal {
                text: literal.to_string(),
                span: literal.span(),
            },
        })
        .collect()
}

fn stream(tokens: &[Token]) -> TokenStream {
    tokens
        .iter()
        .map(|token| -> TokenTree {
            match token {
                Token::Ident { name, span } => match name.strip_prefix("r#") {
                    Some(raw) => Ident::new_raw(raw, *span).into(),
                    None => Ident::new(name, *span).into(),
                },
                Token::Punct { ch, joint, span } => {
                    let spacing = if *joint {
                        Spacing::Joint
                    } else {
                        Spacing::Alone
                    };
                    let mut punct = Punct::new(*ch, spacing);
                    punct.set_span(*span);
                    punct.into()
                }
                Token::Literal { text, span } => {
                    let mut literal: Literal = text.parse().unwrap();
                    literal.set_span(*span);
                    literal.into()
                }
                Token::Str { value, span } => {
                    let mut literal = Literal::string(value);
                    literal.set_span(*span);
                    literal.into()
                }
                Token::Group {
                    delimiter,
                    tokens,
                    span,
                } => {
                    let delimiter = match delimiter {
                        Delimiter::Parenthesis => proc_macro2::Delimiter::Parenthesis,
                        Delimiter::Brace => proc_macro2::Delimiter::Brace,
                        Delimiter::Bracket => proc_macro2::Delimiter::Bracket,
                        Delimiter::Invisible => proc_macro2::Delimiter::None,
                    };
                    let mut group = Group::new(delimiter, stream(tokens));
                    group.set_span(*span);
                    group.into()
                }
            }
        })
        .collect()
}

fn lex(source: &str) -> Vec<Token> {
    tokens(source.parse().unwrap())
}

/// The text of a sequence of tokens, every token followed by a blank. A
/// string literal that is given by its value is written as a literal.
fn text(tokens: &[Token]) -> String {
    let mut out = String::new();
    for token in tokens {
        match token {
            Token::Ident { name, .. } => out.push_str(name),
            Token::Punct { ch, .. } => out.push(*ch),
            Token::Literal { text, .. } => out.push_str(text),
            Token::Str { value, .. } => out.push_str(&Literal::string(value).to_string()),
            Token::Group {
                delimiter, tokens, ..
            } => {
                let (open, close) = match delimiter {
                    Delimiter::Parenthesis => ("( ", ")"),
                    Delimiter::Brace => ("{ ", "}"),
                    Delimiter::Bracket => ("[ ", "]"),
                    Delimiter::Invisible => ("", ""),
                };
                out.push_str(open);
                out.push_str(&text(tokens));
                out.push_str(close);
            }
        }
        out.push(' ');
    }
    out
}

fn same_place(left: Span, right: Span) -> bool {
    format!("{left:?}") == format!("{right:?}")
}

fn site() -> Span {
    lex("site")[0].span()
}

/// The code of one scope with the given parameters, premises and checks.
fn scope(params: &str, premises: &str, checks: &str) -> String {
    format!(
        "#[allow(clippy::all)] const _: () = {{ fn _context<{params}>() where {premises} {{ {checks} }} }};"
    )
}

/// The check of `subject: bound` with the given pieces for the parameters.
fn check(
    arguments: &str,
    subject: &str,
    values: &str,
    declarations: &str,
    bound: &str,
    fields: &str,
    premises: &str,
) -> String {
    format!(
        "{{
            _HelperTy::<{arguments} {subject}>({values} ::core::marker::PhantomData,);
            struct _HelperTy<{declarations} _AssertTy: {bound}>(
                {fields} ::core::marker::PhantomData<_AssertTy>,
            ) where {premises};
        }}"
    )
}

fn expanded(source: &str) -> String {
    text(&expand(lex(source), site()))
}

fn expected(source: &str) -> String {
    text(&lex(source))
}

/// Every token of `tokens`, those inside groups too, with the groups
/// themselves.
fn flatten(tokens: &[Token]) -> Vec<&Token> {
    let mut out = Vec::new();
    for token in tokens {
        out.push(token);
        if let Token::Group { tokens, .. } = token {
            out.extend(flatten(tokens));
        }
    }
    out
}

fn parse(source: &str) -> Vec<PredicateTree> {
    let mut errors = Vec::new();
    parse_predicate_list(lex(source), site(), &mut errors)
}

fn count(haystack: &str, needle: &str) -> usize {
    haystack.matches(needle).count()
}

#[test]
fn single_leaf_gives_one_check_in_one_scope() {
    let code = expanded("u8: A");
    assert_eq!(
        code,
        expected(&scope("", "", &check("", "u8", "", "", "A", "", "")))
    );
    assert_eq!(count(&code, "struct _HelperTy "), 1);
    assert_eq!(count(&code, "_HelperTy : : "), 1);
    assert_eq!(count(&code, "fn _context "), 1);
}

#[test]
fn empty_input_gives_the_empty_scope() {
    assert_eq!(expanded(""), expected(&scope("", "", "")));
}

#[test]
fn two_leaves_give_two_checks_in_one_scope() {
    let checks = format!(
        "{} {}",
        check("", "u8", "", "", "Copy + Default", "", ""),
        check("", "Vec<u8>", "", "", "Clone", "", "")
    );
    assert_eq!(
        expanded("u8: Copy + Default, Vec<u8>: Clone,"),
        expected(&scope("", "", &checks))
    );
}

#[test]
fn scoped_group_gives_its_leaf_one_param() {
    let inner = scope(
        "T: A",
        "",
        &check(
            "T,",
            "C<T>",
            "::core::marker::PhantomData::<T>,",
            "T: A,",
            "A",
            "::core::marker::PhantomData<T>,",
            "",
        ),
    );
    let outer = scope("", "", "");
    assert_eq!(
        expanded("for<T: A> { C<T>: A, }"),
        expected(&format!("{inner} {outer}"))
    );
}

#[test]
fn premise_group_gives_its_leaf_one_premise() {
    let inner = scope(
        "",
        "u8: A",
        &check("", "u16", "", "", "A", "", "u8: A"),
    );
    let outer = scope("", "", "");
    assert_eq!(
        expanded("where u8: A { u16: A }"),
        expected(&format!("{inner} {outer}"))
    );
}

#[test]
fn sibling_groups_do_not_see_each_other() {
    let left = scope(
        "T",
        "T: X",
        &check(
            "T,",
            "T",
            "::core::marker::PhantomData::<T>,",
            "T,",
            "A",
            "::core::marker::PhantomData<T>,",
            "T: X",
        ),
    );
    let right = scope(
        "T",
        "T: Y",
        &check(
            "T,",
            "T",
            "::core::marker::PhantomData::<T>,",
            "T,",
            "B",
            "::core::marker::PhantomData<T>,",
            "T: Y",
        ),
    );
    let outer = scope("", "", "");
    let code = expanded("for<T> where T: X { T: A } for<T> where T: Y { T: B }");
    assert_eq!(code, expected(&format!("{left} {right} {outer}")));
    assert_eq!(count(&code, "T : X"), 2);
    assert_eq!(count(&code, "T : Y"), 2);
}

#[test]
fn nested_groups_add_up_params_and_premises() {
    let innermost = scope(
        "T, U",
        "T: Clone, U: Copy",
        &check(
            "T, U,",
            "(T, U)",
            "::core::marker::PhantomData::<T>, ::core::marker::PhantomData::<U>,",
            "T, U,",
            "Clone",
            "::core::marker::PhantomData<T>, ::core::marker::PhantomData<U>,",
            "T: Clone, U: Copy",
        ),
    );
    let middle = scope(
        "T",
        "T: Clone",
        &check(
            "T,",
            "T",
            "::core::marker::PhantomData::<T>,",
            "T,",
            "Send",
            "::core::marker::PhantomData<T>,",
            "T: Clone",
        ),
    );
    let outer = scope("", "", &check("", "u8", "", "", "Copy", "", ""));
    assert_eq!(
        expanded("for<T> where T: Clone { for<U> where U: Copy { (T, U): Clone } T: Send } u8: Copy"),
        expected(&format!("{innermost} {middle} {outer}"))
    );
}

#[test]
fn lifetimes_are_declared_first() {
    let inner = scope(
        "'a, 'b, T, const N: usize",
        "",
        &check(
            "'a, 'b, T, N,",
            "&'a [T; N]",
            "::core::marker::PhantomData::<&'a ()>, ::core::marker::PhantomData::<&'b ()>,
             ::core::marker::PhantomData::<T>, ::core::marker::PhantomData::<()>,",
            "'a, 'b, T, const N: usize,",
            "'b",
            "::core::marker::PhantomData<&'a ()>, ::core::marker::PhantomData<&'b ()>,
             ::core::marker::PhantomData<T>, ::core::marker::PhantomData<()>,",
            "",
        ),
    );
    let outer = scope("", "", "");
    let directive = "compile_error!(\"lifetime parameters must be declared prior to type and const parameters\");";
    assert_eq!(
        expanded("for<T, 'a, const N: usize, 'b> { &'a [T; N]: 'b }"),
        expected(&format!("{inner} {outer} {directive}"))
    );
}

#[test]
fn lifetimes_of_outer_and_inner_groups_are_declared_first() {
    let innermost = scope(
        "'a, T",
        "",
        &check(
            "'a, T,",
            "&'a T",
            "::core::marker::PhantomData::<&'a ()>, ::core::marker::PhantomData::<T>,",
            "'a, T,",
            "Copy",
            "::core::marker::PhantomData<&'a ()>, ::core::marker::PhantomData<T>,",
            "",
        ),
    );
    let middle = scope("T", "", "");
    let outer = scope("", "", "");
    assert_eq!(
        expanded("for<T> { for<'a> { &'a T: Copy } }"),
        expected(&format!("{innermost} {middle} {outer}"))
    );
}

#[test]
fn omitted_bound_gives_the_empty_bound() {
    assert_eq!(
        expanded("u8:"),
        expected(&scope("", "", &check("", "u8", "", "", "", "", "")))
    );
}

#[test]
fn open_ended_subject_widens_the_bound() {
    assert_eq!(
        expanded("dyn core::fmt::Debug + Send: Send"),
        expected(&scope(
            "",
            "",
            &check(
                "",
                "dyn core::fmt::Debug + Send",
                "",
                "",
                "?Sized + Send",
                "",
                ""
            )
        ))
    );
    assert_eq!(
        expanded("dyn core::fmt::Debug:"),
        expected(&scope(
            "",
            "",
            &check("", "dyn core::fmt::Debug", "", "", "?Sized +", "", "")
        ))
    );
}

#[test]
fn other_subjects_do_not_widen_the_bound() {
    let code = expanded("[u8]: ?Sized + Send");
    assert_eq!(
        code,
        expected(&scope(
            "",
            "",
            &check("", "[u8]", "", "", "?Sized + Send", "", "")
        ))
    );
    assert_eq!(count(&code, "? Sized"), 1);
}

#[test]
fn param_bounds_are_declared_but_not_passed() {
    let inner = scope(
        "'a, T: 'a + ?Sized",
        "",
        &check(
            "'a, T,",
            "&'a T",
            "::core::marker::PhantomData::<&'a ()>, ::core::marker::PhantomData::<T>,",
            "'a, T: 'a + ?Sized,",
            "Copy",
            "::core::marker::PhantomData<&'a ()>, ::core::marker::PhantomData<T>,",
            "",
        ),
    );
    let outer = scope("", "", "");
    assert_eq!(
        expanded("for<'a, T: 'a + ?Sized> { &'a T: Copy }"),
        expected(&format!("{inner} {outer}"))
    );
}

#[test]
fn diagnostics_follow_the_code() {
    let code = scope("", "", &check("", "u8", "", "", "A", "", ""));
    let directive = "compile_error!(\"expected `:`\");";
    assert_eq!(
        expanded("u8: A, u16"),
        expected(&format!("{code} {directive}"))
    );
}

#[test]
fn every_diagnostic_gets_its_directive() {
    let code = scope("", "", &check("", "u8", "", "", "A u16", "", ""));
    let directives =
        "compile_error!(\"expected `,`\"); compile_error!(\"expected a type expression\");";
    assert_eq!(
        expanded("u8: A u16: B"),
        expected(&format!("{code} {directives}"))
    );
}

#[test]
fn directive_is_anchored_at_its_diagnostic() {
    let source = lex("u8: A; u16: B");
    let semicolon = source[3].span();
    let end = site();
    let code = expand(source, end);
    assert_eq!(code.len(), 9 + 4 + 4);
    for directive in [&code[9..13], &code[13..17]] {
        assert!(matches!(&directive[0], Token::Ident { name, .. } if name == "compile_error"));
        assert!(same_place(directive[0].span(), semicolon));
        assert!(same_place(directive[1].span(), semicolon));
        assert!(same_place(directive[2].span(), semicolon));
        assert!(same_place(directive[3].span(), semicolon));
        match &directive[2] {
            Token::Group {
                delimiter: Delimiter::Parenthesis,
                tokens,
                ..
            } => {
                assert_eq!(tokens.len(), 1);
                assert!(matches!(&tokens[0], Token::Str { .. }));
                assert!(same_place(tokens[0].span(), end));
            }
            _ => panic!("expected the message in parentheses"),
        }
    }
    match (&code[11], &code[15]) {
        (Token::Group { tokens: first, .. }, Token::Group { tokens: second, .. }) => {
            assert!(matches!(&first[0], Token::Str { value, .. } if value == "expected `,`"));
            assert!(
                matches!(&second[0], Token::Str { value, .. } if value == "expected a type expression")
            );
        }
        _ => panic!("expected two messages"),
    }
}

#[test]
fn check_is_anchored_at_its_leaf() {
    let source = lex("u8: A, dyn B: C");
    let first = source[0].span();
    let second = source[4].span();
    let colon = source[6].span();
    let end = site();
    let code = expand(source, end);
    // The scope carries the site.
    for token in &code {
        assert!(same_place(token.span(), end));
    }
    let Token::Group { tokens: constant, .. } = &code[7] else {
        panic!("expected the body of the constant");
    };
    let Token::Group { tokens: body, .. } = constant.last().unwrap() else {
        panic!("expected the body of the function");
    };
    assert_eq!(body.len(), 2);
    for (check, leaf_span) in [(&body[0], first), (&body[1], second)] {
        assert!(same_place(check.span(), leaf_span));
        let Token::Group { tokens, .. } = check else {
            panic!("expected a block");
        };
        for token in flatten(tokens) {
            let written = text(std::slice::from_ref(token));
            if ["? ", "Sized ", "+ "].contains(&written.as_str()) {
                assert!(same_place(token.span(), end));
            } else if !["A ", "B ", "C "].contains(&written.as_str()) {
                assert!(same_place(token.span(), leaf_span));
            }
        }
    }
    // The colon of the input is not part of the code.
    for token in flatten(&code) {
        assert!(!same_place(token.span(), colon));
    }
}

#[test]
fn premise_colon_carries_the_site() {
    let source = lex("where u8: A { u16: B }");
    let input_colon = source[2].span();
    let end = site();
    let code = expand(source, end);
    let mut colons = 0;
    for token in flatten(&code) {
        assert!(!same_place(token.span(), input_colon));
        if let Token::Punct { ch: ':', span, .. } = token {
            if same_place(*span, end) {
                colons += 1;
            }
        }
    }
    // In each of two scopes: two in `clippy::all`, one behind `_`; and one
    // in the premise of the function and of the helper struct of the group.
    assert_eq!(colons, 3 + 3 + 2);
}

#[test]
fn path_separators_are_joined_and_other_punctuation_stands_alone() {
    let code = expand(lex("for<'a, T> where T: Send { dyn AsRef<T> + 'a: Send }"), site());
    let all = flatten(&code);
    let made: Vec<&Token> = all
        .iter()
        .copied()
        .filter(|token| !matches!(token, Token::Group { .. }))
        .collect();
    let mut joined = 0;
    for (i, token) in made.iter().enumerate() {
        if let Token::Punct { ch, joint, .. } = token {
            if *joint {
                joined += 1;
                match ch {
                    ':' => assert!(
                        matches!(made[i + 1], Token::Punct { ch: ':', joint: false, .. })
                    ),
                    '\'' => assert!(matches!(made[i + 1], Token::Ident { .. })),
                    _ => panic!("joined {ch}"),
                }
            }
        }
    }
    assert!(joined > 0);
}

#[test]
fn code_converts_to_a_token_stream() {
    let code = expand(
        lex("for<'a, T: ?Sized, const N: usize> where T: 'a { dyn AsRef<[T; N]> + 'a:, u8: Into<u16>, r#type: \"x\" }, u8"),
        site(),
    );
    let printed = stream(&code).to_string();
    let read_back: TokenStream = printed.parse().unwrap();
    assert_eq!(text(&tokens(read_back)), text(&code));
    assert!(printed.contains("compile_error ! (\"expected `:`\")"));
    assert!(printed.contains("r#type"));
}

#[test]
fn walk_leaves_the_premises_as_they_were() {
    let trees = parse("for<T> where T: X { T: A, where T: Y { T: B } } where u8: Z { } u8: C");
    let outer = parse("for<'e> where u64: E { }");
    let PredicateTree::Group(outer) = &outer[0] else {
        panic!("expected a group");
    };
    let mut premises: Vec<Predicate> = outer.where_predicates.clone();
    let params: Vec<&GenericParam> = outer.generic_params.iter().collect();
    let mut code = lex("before");
    push_trees(trees, params, &mut premises, &mut code, site());
    assert_eq!(premises.len(), 1);
    assert_eq!(text(&premises[0].left_side), "u64 ");
    assert_eq!(text(&premises[0].bound), "E ");

    let marker = "::core::marker::PhantomData";
    let innermost = scope(
        "'e, T",
        "u64: E, T: X, T: Y",
        &check(
            "'e, T,",
            "T",
            &format!("{marker}::<&'e ()>, {marker}::<T>,"),
            "'e, T,",
            "B",
            &format!("{marker}<&'e ()>, {marker}<T>,"),
            "u64: E, T: X, T: Y",
        ),
    );
    let first = scope(
        "'e, T",
        "u64: E, T: X",
        &check(
            "'e, T,",
            "T",
            &format!("{marker}::<&'e ()>, {marker}::<T>,"),
            "'e, T,",
            "A",
            &format!("{marker}<&'e ()>, {marker}<T>,"),
            "u64: E, T: X",
        ),
    );
    let second = scope("'e", "u64: E, u8: Z", "");
    let top = scope(
        "'e",
        "u64: E",
        &check(
            "'e,",
            "u8",
            &format!("{marker}::<&'e ()>,"),
            "'e,",
            "C",
            &format!("{marker}<&'e ()>,"),
            "u64: E",
        ),
    );
    assert_eq!(
        text(&code),
        expected(&format!("before {innermost} {first} {second} {top}"))
    );
}

#[test]
fn groups_are_walked_and_leaves_returned() {
    let trees = parse("u8: A, for<T> { T: B } u16: C, where u8: D { }");
    let mut premises: Vec<Predicate> = Vec::new();
    let params: Vec<&GenericParam> = Vec::new();
    let mut code = Vec::new();
    let leaves = push_groups(trees, &params, &mut premises, &mut code, site());
    assert!(premises.is_empty());
    assert_eq!(leaves.len(), 2);
    assert_eq!(text(&leaves[0].left_side), "u8 ");
    assert_eq!(text(&leaves[1].left_side), "u16 ");
    let first = scope(
        "T",
        "",
        &check(
            "T,",
            "T",
            "::core::marker::PhantomData::<T>,",
            "T,",
            "B",
            "::core::marker::PhantomData<T>,",
            "",
        ),
    );
    let second = scope("", "u8: D", "");
    assert_eq!(text(&code), expected(&format!("{first} {second}")));
}

#[test]
fn params_are_sorted_stably() {
    let group = parse("for<T, 'a, U, 'b, const N: usize, 'c> { }");
    let PredicateTree::Group(group) = &group[0] else {
        panic!("expected a group");
    };
    let params: Vec<&GenericParam> = group.generic_params.iter().collect();
    let mut premises = Vec::new();
    let mut code = Vec::new();
    push_trees(Vec::new(), params, &mut premises, &mut code, site());
    assert_eq!(
        text(&code),
        expected(&scope("'a, 'b, 'c, T, U, const N: usize", "", ""))
    );
}

#[test]
fn predicate_writes_subject_colon_bound() {
    let trees = parse("Vec<u8>: Clone + Send");
    let PredicateTree::Predicate(predicate) = &trees[0] else {
        panic!("expected a leaf");
    };
    let end = site();
    let mut code = lex("before");
    predicate.to_tokens(&mut code, end);
    assert_eq!(text(&code), "before Vec < u8 > : Clone + Send ");
    assert!(matches!(&code[5], Token::Punct { ch: ':', joint: false, .. }));
    assert!(same_place(code[5].span(), end));
}

#[test]
fn param_writes_its_declaration() {
    let group = parse("for<const N: usize> { }");
    let PredicateTree::Group(group) = &group[0] else {
        panic!("expected a group");
    };
    let mut code = lex("before");
    group.generic_params[0].to_tokens(&mut code);
    assert_eq!(text(&code), "before const N : usize ");
}

#[test]
fn error_writes_its_directive() {
    let place = lex("place")[0].span();
    let end = site();
    let error = Error::new_at_span(place, "it is \"wrong\"");
    let mut code = lex("before");
    error.to_tokens(&mut code, end);
    assert_eq!(
        text(&code),
        "before compile_error ! ( \"it is \\\"wrong\\\"\" ) ; "
    );
    assert!(same_place(code[1].span(), place));
    assert_eq!(
        stream(&code[1..]).to_string(),
        "compile_error ! (\"it is \\\"wrong\\\"\") ;"
    );
}

#[test]
fn expansion_at_the_call_site() {
    let code = main(lex("u8: A"));
    assert_eq!(
        text(&code),
        expected(&scope("", "", &check("", "u8", "", "", "A", "", "")))
    );
    for token in &code {
        assert!(same_place(token.span(), Span::call_site()));
    }
    let code = main(lex("u8"));
    assert!(same_place(code[9].span(), Span::call_site()));
}

#[test]
fn message_is_written_as_a_string_literal() {
    let message = "expected `,` and \"more\"\n".to_string();
    let error = Error::new_at_span(site(), &message);
    let mut code = Vec::new();
    error.to_tokens(&mut code, site());
    let Token::Group { tokens, .. } = &code[2] else {
        panic!("expected the message in parentheses");
    };
    assert_eq!(
        stream(tokens).to_string(),
        message.to_token_stream().to_string()
    );
}

#[test]
fn empty_premise_clause_is_no_premise_clause() {
    assert_eq!(
        expanded("for<T> where { T: A }"),
        expanded("for<T> { T: A }")
    );
    assert_eq!(expanded("where { u8: A }"), {
        let inner = scope("", "", &check("", "u8", "", "", "A", "", ""));
        let outer = scope("", "", "");
        expected(&format!("{inner} {outer}"))
    });
}

#[test]
fn bound_with_an_associated_type_is_kept_whole() {
    let marker = "::core::marker::PhantomData";
    let inner = scope(
        "'a, T: 'a",
        "",
        &check(
            "'a, T,",
            "&'a Vec<T>",
            &format!("{marker}::<&'a ()>, {marker}::<T>,"),
            "'a, T: 'a,",
            "IntoIterator<Item = &'a T>",
            &format!("{marker}<&'a ()>, {marker}<T>,"),
            "",
        ),
    );
    let outer = scope("", "", "");
    assert_eq!(
        expanded("for<'a, T: 'a> { &'a Vec<T>: IntoIterator<Item = &'a T> }"),
        expected(&format!("{inner} {outer}"))
    );
}

#[test]
fn const_params_of_nested_groups_add_up() {
    let marker = "::core::marker::PhantomData";
    let innermost = scope(
        "const N: usize, const N2: usize",
        "",
        &format!(
            "{} {}",
            check(
                "N, N2,",
                "[Vec<Vec<u8>>; N2]",
                &format!("{marker}::<()>, {marker}::<()>,"),
                "const N: usize, const N2: usize,",
                "Into<[Vec<Vec<u8>>; N2]>",
                &format!("{marker}<()>, {marker}<()>,"),
                "",
            ),
            check(
                "N, N2,",
                "[Vec<Vec<u8>>; 3]",
                &format!("{marker}::<()>, {marker}::<()>,"),
                "const N: usize, const N2: usize,",
                "Into<[Vec<Vec<u8>>; 3]>",
                &format!("{marker}<()>, {marker}<()>,"),
                "",
            )
        ),
    );
    let middle = scope(
        "const N: usize",
        "",
        &check(
            "N,",
            "[Vec<Vec<u8>>; N]",
            &format!("{marker}::<()>,"),
            "const N: usize,",
            "Into<[Vec<Vec<u8>>; N]>",
            &format!("{marker}<()>,"),
            "",
        ),
    );
    let outer = scope("", "", "");
    assert_eq!(
        expanded(
            "for<const N: usize,> {
                [Vec<Vec<u8>>; N]: Into<[Vec<Vec<u8>>; N]>,

                for<const N2: usize,> {
                    [Vec<Vec<u8>>; N2]: Into<[Vec<Vec<u8>>; N2]>,
                    [Vec<Vec<u8>>; 3]: Into<[Vec<Vec<u8>>; 3]>,
                }
            },"
        ),
        expected(&format!("{innermost} {middle} {outer}"))
    );
}
