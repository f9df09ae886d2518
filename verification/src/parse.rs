//! The parser: from a cursor over tokens to a forest of assertions.

use crate::grammar::{
    angle_params, any_ident_at, expected_delimiter, expected_ident, expected_punct,
    expected_type_expr, failure, first_misplaced_lifetime, generic_param, generic_param_name,
    group_at, group_head, ident_at, leaf, lemma_angle_params_bound, lemma_generic_param_bound,
    lemma_generic_params_bound, lemma_group_head_bound, lemma_leaf_bound,
    lemma_predicate_list_step, lemma_scoped_head_bound, lemma_tree_head_bound,
    lemma_type_expr_len_bound, lemma_where_clause_bound, missing_comma, node, order_errors,
    predicate_list, premise_head, punct_at, scoped_head, type_expr_len, where_clause,
    where_items, with_body, with_comma, Failure,
};
use crate::token::{lemma_group_view, Delimiter, Token, TokenView};
use crate::token_iter::TokenIter;
use crate::types::{
    lemma_group_tree_view, Error, ErrorView, GenericParam, GenericParamView, Predicate,
    PredicateGroup, PredicateTree, PredicateTreeView, PredicateView,
};
use proc_macro2::Span;
use vstd::prelude::*;

verus! {

/// Whether the cursor `after` is the cursor `before` moved on by `n` tokens.
pub open spec fn advanced(before: TokenIter, after: TokenIter, n: int) -> bool {
    after.end() == before.end() && after@ == before@.skip(n)
}

/// How a cursor stands after an attempt to consume its next token, which
/// succeeds if and only if `taken` holds.
pub open spec fn consumed_if(
    before: TokenIter,
    after: TokenIter,
    taken: bool,
    token: Option<Token>,
) -> bool {
    &&& after.end() == before.end()
    &&& taken ==> token is Some && token->0@ == before@[0] && after@ == before@.skip(1)
    &&& !taken ==> token is None && after@ == before@
}

/// Whether the next token is a group in the brackets `expected`.
pub fn peek_delimiter(tokens: &TokenIter, expected: Delimiter) -> (found: bool)
    ensures
        found == group_at(tokens@, 0, expected),
{
    if let Some(Token::Group { delimiter, .. }) = tokens.peek() {
        *delimiter == expected
    } else {
        false
    }
}

/// Whether the next token is the word `expected`.
pub fn peek_ident(tokens: &TokenIter, expected: &str) -> (found: bool)
    ensures
        found == ident_at(tokens@, 0, expected@),
{
    if let Some(Token::Ident { name, .. }) = tokens.peek() {
        *name == String::from_str(expected)
    } else {
        false
    }
}

/// Whether the next token is the punctuation character `expected`.
pub fn peek_punct(tokens: &TokenIter, expected: char) -> (found: bool)
    ensures
        found == punct_at(tokens@, 0, expected),
{
    if let Some(Token::Punct { ch, .. }) = tokens.peek() {
        *ch == expected
    } else {
        false
    }
}

/// Whether the token after the next one is the punctuation character
/// `expected`.
pub fn peek2_punct(tokens: &TokenIter, expected: char) -> (found: bool)
    ensures
        found == punct_at(tokens@, 1, expected),
{
    if let Some(Token::Punct { ch, .. }) = tokens.peek2() {
        *ch == expected
    } else {
        false
    }
}

/// Consumes the next token if it is the punctuation character `expected`.
pub fn consume_optional_punct(tokens: &mut TokenIter, expected: char) -> (token: Option<Token>)
    ensures
        consumed_if(*old(tokens), *final(tokens), punct_at(old(tokens)@, 0, expected), token),
{
    if peek_punct(tokens, expected) {
        tokens.next()
    } else {
        None
    }
}

/// Consumes the next token if it is a word.
pub fn consume_optional_any_ident(tokens: &mut TokenIter) -> (token: Option<Token>)
    ensures
        consumed_if(*old(tokens), *final(tokens), any_ident_at(old(tokens)@, 0), token),
{
    if let Some(Token::Ident { .. }) = tokens.peek() {
        tokens.next()
    } else {
        None
    }
}

/// Consumes the next token if it is the word `expected`.
pub fn consume_optional_ident(tokens: &mut TokenIter, expected: &str) -> (token: Option<Token>)
    ensures
        consumed_if(*old(tokens), *final(tokens), ident_at(old(tokens)@, 0, expected@), token),
{
    if peek_ident(tokens, expected) {
        tokens.next()
    } else {
        None
    }
}

/// Consumes the next token if it is a group in the brackets `expected`.
pub fn consume_optional_delimiter(
    tokens: &mut TokenIter,
    expected: Delimiter,
) -> (token: Option<Token>)
    ensures
        consumed_if(*old(tokens), *final(tokens), group_at(old(tokens)@, 0, expected), token),
{
    if peek_delimiter(tokens, expected) {
        tokens.next()
    } else {
        None
    }
}

/// How a cursor stands after an attempt to consume its next token, which
/// succeeds if and only if `taken` holds and fails with `message` otherwise.
pub open spec fn consumed_or(
    before: TokenIter,
    after: TokenIter,
    taken: bool,
    message: Seq<char>,
    result: Result<Token, Error>,
) -> bool {
    &&& after.end() == before.end()
    &&& taken ==> result is Ok && result->Ok_0@ == before@[0] && after@ == before@.skip(1)
    &&& !taken ==> result is Err && result->Err_0@ == failure(
        before@,
        0,
        before.end(),
        message,
    ).error && after@ == before@
}

/// The text "expected `c`" for the character `c`.
///
/// Calls `format!` of the standard library with the template "expected `{}`".
/// Trusted: that the result is the template's text with the character in
/// the place of the braces.
#[verifier::external_body]
fn expected_punct_message(expected: char) -> (message: String)
    ensures
        message@ == expected_punct(expected),
{
    format!("expected `{expected}`")
}

/// Consumes the next token, which must be the punctuation character
/// `expected`.
pub fn consume_punct(tokens: &mut TokenIter, expected: char) -> (result: Result<Token, Error>)
    ensures
        consumed_or(
            *old(tokens),
            *final(tokens),
            punct_at(old(tokens)@, 0, expected),
            expected_punct(expected),
            result,
        ),
{
    match consume_optional_punct(tokens, expected) {
        Some(token) => Ok(token),
        None => Err(Error { span: tokens.span(), message: expected_punct_message(expected) }),
    }
}

/// Consumes the next token, which must be a word.
pub fn consume_any_ident(tokens: &mut TokenIter) -> (result: Result<Token, Error>)
    ensures
        consumed_or(
            *old(tokens),
            *final(tokens),
            any_ident_at(old(tokens)@, 0),
            expected_ident(),
            result,
        ),
{
    match consume_optional_any_ident(tokens) {
        Some(token) => Ok(token),
        None => Err(Error::new_at_span(tokens.span(), "expected an identifier")),
    }
}

/// Consumes the next token, which must be a group in the visible brackets
/// `expected`.
pub fn consume_delimiter(tokens: &mut TokenIter, expected: Delimiter) -> (result: Result<
    Token,
    Error,
>)
    requires
        expected != Delimiter::Invisible,
    ensures
        consumed_or(
            *old(tokens),
            *final(tokens),
            group_at(old(tokens)@, 0, expected),
            expected_delimiter(expected),
            result,
        ),
{
    match consume_optional_delimiter(tokens, expected) {
        Some(token) => Ok(token),
        None => {
            let message = match expected {
                Delimiter::Brace => "expected braces",
                Delimiter::Bracket => "expected brackets",
                _ => "expected parentheses",
            };
            Err(Error::new_at_span(tokens.span(), message))
        },
    }
}

/// Consumes the type expression at the cursor, if there is one: `None` where
/// it would be empty.
pub fn consume_optional_type_expr(tokens: &mut TokenIter) -> (expr: Option<Vec<Token>>)
    ensures
        advanced(*old(tokens), *final(tokens), type_expr_len(old(tokens)@, 0)),
        type_expr_len(old(tokens)@, 0) == 0 ==> expr is None,
        type_expr_len(old(tokens)@, 0) > 0 ==> expr is Some && expr->0.deep_view() == old(
            tokens,
        )@.take(type_expr_len(old(tokens)@, 0)),
{
    let ghost all = tokens@;
    let mut result: Vec<Token> = Vec::new();
    let mut depth: usize = 0;
    proof {
        tokens.lemma_len();
        assert(all.skip(0) =~= all);
        assert(result.deep_view() =~= all.take(0));
    }
    loop
        invariant_except_break
            result.len() + type_expr_len(tokens@, depth as nat) == type_expr_len(all, 0),
        invariant
            tokens.end() == old(tokens).end(),
            result.len() <= all.len() <= usize::MAX,
            depth <= result.len(),
            result.deep_view() == all.take(result.len() as int),
            tokens@ == all.skip(result.len() as int),
        ensures
            result.len() == type_expr_len(all, 0),
        decreases tokens@.len(),
    {
        let ghost rest = tokens@;
        let ghost taken = result.deep_view();
        if tokens.peek().is_none() {
            break ;
        }
        if depth == 0 && peek_punct(tokens, ':') && peek2_punct(tokens, ':') {
            let first = tokens.next().expect("peek ensures a token exists");
            let second = tokens.next().expect("a path separator has two tokens");
            proof {
                assert(rest.skip(1).skip(1) =~= rest.skip(2));
                assert(tokens@ =~= all.skip(result.len() + 2));
                assert(taken.push(first@).push(second@) =~= all.take(result.len() + 2));
            }
            result.push(first);
            result.push(second);
            assert(result.deep_view() =~= taken.push(first@).push(second@));
            continue ;
        }
        if depth == 0 && (peek_punct(tokens, ',') || peek_punct(tokens, ';') || peek_punct(
            tokens,
            ':',
        ) || peek_punct(tokens, '>') || peek_punct(tokens, '=') || peek_delimiter(
            tokens,
            Delimiter::Brace,
        )) {
            break ;
        }
        if peek_punct(tokens, '<') {
            depth += 1;
        } else if peek_punct(tokens, '>') {
            depth -= 1;
        }
        let token = tokens.next().expect("peek ensures a token exists");
        proof {
            assert(tokens@ =~= all.skip(result.len() + 1));
            assert(taken.push(token@) =~= all.take(result.len() + 1));
        }
        result.push(token);
        assert(result.deep_view() =~= taken.push(token@));
    }
    if result.is_empty() {
        None
    } else {
        Some(result)
    }
}

/// Consumes the type expression at the cursor, which must not be empty.
pub fn consume_type_expr(tokens: &mut TokenIter) -> (result: Result<Vec<Token>, Error>)
    ensures
        advanced(*old(tokens), *final(tokens), type_expr_len(old(tokens)@, 0)),
        type_expr_len(old(tokens)@, 0) == 0 ==> result is Err && result->Err_0@ == failure(
            old(tokens)@,
            0,
            old(tokens).end(),
            expected_type_expr(),
        ).error,
        type_expr_len(old(tokens)@, 0) > 0 ==> result is Ok && result->Ok_0.deep_view() == old(
            tokens,
        )@.take(type_expr_len(old(tokens)@, 0)),
{
    match consume_optional_type_expr(tokens) {
        Some(expr) => Ok(expr),
        None => {
            assert(old(tokens)@.skip(0) =~= old(tokens)@);
            Err(Error::new_at_span(tokens.span(), "expected a type expression"))
        },
    }
}

/// Consumes the leaf `Subject ':' Bound?` at the cursor.
///
/// On failure the cursor rests on the token that the diagnostic is anchored
/// at.
pub fn consume_predicate(tokens: &mut TokenIter) -> (result: Result<Predicate, Error>)
    ensures
        match leaf(old(tokens)@, old(tokens).end()) {
            Ok((predicate, n)) => result is Ok && result->Ok_0@ == predicate && advanced(
                *old(tokens),
                *final(tokens),
                n,
            ),
            Err(f) => result is Err && result->Err_0@ == f.error && advanced(
                *old(tokens),
                *final(tokens),
                f.at,
            ),
        },
{
    let ghost all = tokens@;
    let ghost subject = type_expr_len(all, 0);
    proof {
        lemma_type_expr_len_bound(all, 0);
        assert(all.skip(0) =~= all);
    }
    let span = tokens.span();
    let unsized_left_side = peek_ident(tokens, "dyn");
    let left_side = consume_type_expr(tokens)?;
    let _ = consume_punct(tokens, ':')?;
    proof {
        assert(all.skip(subject).skip(1) =~= all.skip(subject + 1));
        lemma_type_expr_len_bound(all.skip(subject + 1), 0);
    }
    let ghost rest = tokens@;
    let bound = match consume_optional_type_expr(tokens) {
        Some(bound) => bound,
        None => {
            let bound: Vec<Token> = Vec::new();
            assert(bound.deep_view() =~= rest.take(0));
            bound
        },
    };
    proof {
        let len = type_expr_len(rest, 0);
        assert(rest.skip(len) =~= all.skip(subject + 1 + len));
    }
    Ok(Predicate { left_side, bound, span, unsized_left_side })
}

/// Consumes the premise clause at the cursor, if there is one: `None` where
/// the next token is not `where`.
///
/// On failure the cursor rests on the token that the diagnostic is anchored
/// at.
pub fn consume_optional_where_clause(tokens: &mut TokenIter) -> (result: Result<
    Option<Vec<Predicate>>,
    Error,
>)
    ensures
        match where_clause(old(tokens)@, old(tokens).end()) {
            Ok(None) => result is Ok && result->Ok_0 is None && advanced(
                *old(tokens),
                *final(tokens),
                0,
            ),
            Ok(Some((premises, n))) => result is Ok && result->Ok_0 is Some
                && result->Ok_0->0.deep_view() == premises && advanced(
                *old(tokens),
                *final(tokens),
                n,
            ),
            Err(f) => result is Err && result->Err_0@ == f.error && advanced(
                *old(tokens),
                *final(tokens),
                f.at,
            ),
        },
{
    assert(tokens@.skip(0) =~= tokens@);
    if consume_optional_ident(tokens, "where").is_none() {
        return Ok(None);
    }
    let ghost site = tokens.end();
    let ghost all = tokens@;
    let ghost mut taken: int = 0;
    let mut result: Vec<Predicate> = Vec::new();
    proof {
        assert(all.skip(0) =~= all);
        assert(result.deep_view() + where_items(all, site)->Ok_0.0 =~= where_items(
            all,
            site,
        )->Ok_0.0);
    }
    while tokens.peek().is_some() && !peek_punct(tokens, ';') && !peek_delimiter(
        tokens,
        Delimiter::Brace,
    )
        invariant
            tokens.end() == site,
            site == old(tokens).end(),
            ident_at(old(tokens)@, 0, "where"@),
            all == old(tokens)@.skip(1),
            0 <= taken <= all.len(),
            tokens@ == all.skip(taken),
            match where_items(tokens@, site) {
                Ok((others, n)) => where_items(all, site) == Ok::<_, Failure>(
                    (result.deep_view() + others, taken + n),
                ),
                Err(f) => where_items(all, site) == Err::<(Seq<PredicateView>, int), _>(
                    Failure { error: f.error, at: taken + f.at },
                ),
            },
        decreases tokens@.len(),
    {
        let ghost rest = tokens@;
        let ghost before = result.deep_view();
        proof {
            lemma_leaf_bound(rest, site);
        }
        let predicate = match consume_predicate(tokens) {
            Ok(predicate) => predicate,
            Err(error) => {
                proof {
                    let at = leaf(rest, site)->Err_0.at;
                    assert(rest.skip(at) =~= old(tokens)@.skip(1 + (taken + at)));
                }
                return Err(error);
            },
        };
        consume_optional_punct(tokens, ',');
        result.push(predicate);
        proof {
            let n = leaf(rest, site)->Ok_0.1;
            let step = if punct_at(rest, n, ',') {
                n + 1
            } else {
                n
            };
            if punct_at(rest, n, ',') {
                assert(rest.skip(n).skip(1) =~= rest.skip(n + 1));
            }
            assert(tokens@ =~= all.skip(taken + step));
            assert(result.deep_view() =~= before.push(predicate@));
            match where_items(tokens@, site) {
                Ok((others, m)) => {
                    assert(result.deep_view() + others =~= before + (seq![predicate@]
                        + others));
                },
                Err(f) => {},
            }
            taken = taken + step;
        }
    }
    proof {
        assert(result.deep_view() + Seq::<PredicateView>::empty() =~= result.deep_view());
        assert(all.skip(taken) =~= old(tokens)@.skip(1 + taken));
    }
    Ok(Some(result))
}

/// Consumes the parameter declaration at the cursor: a lifetime, a constant
/// or a type, with the bound that follows a `:` behind its name.
///
/// On failure the cursor rests on the token that the diagnostic is anchored
/// at.
pub fn consume_generic_param(tokens: &mut TokenIter) -> (result: Result<GenericParam, Error>)
    ensures
        match generic_param(old(tokens)@, old(tokens).end()) {
            Ok((param, n)) => result is Ok && result->Ok_0@ == param && advanced(
                *old(tokens),
                *final(tokens),
                n,
            ),
            Err(f) => result is Err && result->Err_0@ == f.error && advanced(
                *old(tokens),
                *final(tokens),
                f.at,
            ),
        },
{
    let ghost all = tokens@;
    let site = tokens.end_span();
    let mut result;
    proof {
        assert(all.skip(0) =~= all);
        if all.len() > 1 {
            assert(all.skip(1).skip(1) =~= all.skip(2));
        }
    }
    if let Some(lifetime_prefix) = consume_optional_punct(tokens, '\'') {
        let lifetime_prefix = Token::joint('\'', lifetime_prefix.span());
        let name = consume_any_ident(tokens)?;
        let arguments: Vec<Token> = Vec::new();
        result =
        GenericParam {
            tokens: vec![lifetime_prefix.clone(), name.clone()],
            inline_arg: vec![lifetime_prefix.clone(), name.clone()],
            marker_type: vec![
                Token::alone('&', site),
                lifetime_prefix,
                name.clone(),
                Token::group(Delimiter::Parenthesis, arguments, site),
            ],
            is_lifetime: true,
            span: name.span(),
        };
        proof {
            let param = generic_param_name(all, site)->Ok_0.0;
            assert(arguments.deep_view() =~= Seq::empty());
            assert(result@.tokens =~= param.tokens);
            assert(result@.inline_arg =~= param.inline_arg);
            assert(result@.marker_type =~= param.marker_type);
        }
    } else if let Some(const_prefix) = consume_optional_ident(tokens, "const") {
        let name = consume_any_ident(tokens)?;
        let arguments: Vec<Token> = Vec::new();
        result =
        GenericParam {
            tokens: vec![const_prefix, name.clone()],
            inline_arg: vec![name.clone()],
            marker_type: vec![Token::group(Delimiter::Parenthesis, arguments, site)],
            is_lifetime: false,
            span: name.span(),
        };
        proof {
            let param = generic_param_name(all, site)->Ok_0.0;
            assert(arguments.deep_view() =~= Seq::empty());
            assert(result@.tokens =~= param.tokens);
            assert(result@.inline_arg =~= param.inline_arg);
            assert(result@.marker_type =~= param.marker_type);
        }
    } else {
        let name = consume_any_ident(tokens)?;
        result =
        GenericParam {
            tokens: vec![name.clone()],
            inline_arg: vec![name.clone()],
            marker_type: vec![name.clone()],
            is_lifetime: false,
            span: name.span(),
        };
        proof {
            let param = generic_param_name(all, site)->Ok_0.0;
            assert(result@.tokens =~= param.tokens);
            assert(result@.inline_arg =~= param.inline_arg);
            assert(result@.marker_type =~= param.marker_type);
        }
    }
    let ghost name_len = generic_param_name(all, site)->Ok_0.1;
    let ghost named = result@;
    if let Some(bound_prefix) = consume_optional_punct(tokens, ':') {
        proof {
            assert(all.skip(name_len).skip(1) =~= all.skip(name_len + 1));
            lemma_type_expr_len_bound(all.skip(name_len + 1), 0);
        }
        let ghost rest = tokens@;
        proof {
            assert(rest.skip(0) =~= rest);
        }
        let mut bound = consume_type_expr(tokens)?;
        let ghost bound_view = bound.deep_view();
        result.tokens.push(bound_prefix);
        result.tokens.append(&mut bound);
        proof {
            let len = type_expr_len(rest, 0);
            assert(rest.skip(len) =~= all.skip(name_len + 1 + len));
            assert(result@.tokens =~= named.tokens + seq![all[name_len]] + bound_view);
        }
    }
    Ok(result)
}

/// The index of the first lifetime parameter that directly follows a
/// parameter of another kind.
fn find_misplaced_lifetime(params: &Vec<GenericParam>) -> (found: Option<usize>)
    ensures
        match first_misplaced_lifetime(params.deep_view(), 1) {
            Some(i) => found == Some(i as usize) && 1 <= i < params.len(),
            None => found is None,
        },
{
    let mut i: usize = 1;
    while i < params.len()
        invariant
            1 <= i,
            first_misplaced_lifetime(params.deep_view(), 1) == first_misplaced_lifetime(
                params.deep_view(),
                i as int,
            ),
        decreases params.len() - i,
    {
        if params[i].is_lifetime && !params[i - 1].is_lifetime {
            return Some(i);
        }
        i += 1;
    }
    None
}

/// Consumes the parameter declarations at the cursor, up to a `>`, the end
/// or a declaration that no `,` follows.
///
/// On failure the cursor rests on the token that the diagnostic is anchored
/// at.
fn consume_generic_params(tokens: &mut TokenIter) -> (result: Result<Vec<GenericParam>, Error>)
    ensures
        match crate::grammar::generic_params(old(tokens)@, old(tokens).end()) {
            Ok((params, n)) => result is Ok && result->Ok_0.deep_view() == params && advanced(
                *old(tokens),
                *final(tokens),
                n,
            ),
            Err(f) => result is Err && result->Err_0@ == f.error && advanced(
                *old(tokens),
                *final(tokens),
                f.at,
            ),
        },
{
    let ghost site = tokens.end();
    let ghost list = tokens@;
    let ghost mut taken: int = 0;
    let mut generic_params: Vec<GenericParam> = Vec::new();
    proof {
        assert(list.skip(0) =~= list);
        lemma_generic_params_bound(list, site);
        match crate::grammar::generic_params(list, site) {
            Ok((others, n)) => {
                assert(generic_params.deep_view() + others =~= others);
            },
            Err(f) => {},
        }
    }
    loop
        invariant_except_break
            match crate::grammar::generic_params(tokens@, site) {
                Ok((others, n)) => crate::grammar::generic_params(list, site) == Ok::<
                    _,
                    Failure,
                >((generic_params.deep_view() + others, taken + n)),
                Err(f) => crate::grammar::generic_params(list, site) == Err::<
                    (Seq<GenericParamView>, int),
                    _,
                >(Failure { error: f.error, at: taken + f.at }),
            },
        invariant
            tokens.end() == site,
            site == old(tokens).end(),
            list == old(tokens)@,
            0 <= taken <= list.len(),
            tokens@ == list.skip(taken),
        ensures
            crate::grammar::generic_params(list, site) == Ok::<_, Failure>(
                (generic_params.deep_view(), taken),
            ),
        decreases tokens@.len(),
    {
        if !(tokens.peek().is_some() && !peek_punct(tokens, '>')) {
            proof {
                assert(generic_params.deep_view() + Seq::<GenericParamView>::empty()
                    =~= generic_params.deep_view());
            }
            break ;
        }
        let ghost rest = tokens@;
        let ghost before = generic_params.deep_view();
        proof {
            lemma_generic_param_bound(rest, site);
        }
        let param = match consume_generic_param(tokens) {
            Ok(param) => param,
            Err(error) => {
                proof {
                    let at = generic_param(rest, site)->Err_0.at;
                    assert(rest.skip(at) =~= list.skip(taken + at));
                }
                return Err(error);
            },
        };
        generic_params.push(param);
        let ghost n = generic_param(rest, site)->Ok_0.1;
        proof {
            assert(generic_params.deep_view() =~= before.push(param@));
            assert(tokens@ =~= list.skip(taken + n));
        }
        if consume_optional_punct(tokens, ',').is_none() {
            proof {
                assert(before + seq![param@] =~= generic_params.deep_view());
                taken = taken + n;
            }
            break ;
        }
        proof {
            assert(rest.skip(n).skip(1) =~= rest.skip(n + 1));
            assert(tokens@ =~= list.skip(taken + n + 1));
            match crate::grammar::generic_params(tokens@, site) {
                Ok((others, m)) => {
                    assert(generic_params.deep_view() + others =~= before + (seq![param@]
                        + others));
                },
                Err(f) => {},
            }
            taken = taken + n + 1;
        }
    }
    Ok(generic_params)
}

/// Consumes the parameter list in angle brackets at the cursor.
///
/// On failure the cursor rests on the token that the diagnostic is anchored
/// at.
fn consume_angle_params(tokens: &mut TokenIter) -> (result: Result<Vec<GenericParam>, Error>)
    ensures
        match angle_params(old(tokens)@, old(tokens).end()) {
            Ok((params, n)) => result is Ok && result->Ok_0.deep_view() == params && advanced(
                *old(tokens),
                *final(tokens),
                n,
            ),
            Err(f) => result is Err && result->Err_0@ == f.error && advanced(
                *old(tokens),
                *final(tokens),
                f.at,
            ),
        },
{
    let ghost all = tokens@;
    let ghost site = tokens.end();
    proof {
        assert(all.skip(0) =~= all);
    }
    consume_punct(tokens, '<')?;
    let ghost taken = match crate::grammar::generic_params(all.skip(1), site) {
        Ok((_, n)) => n,
        Err(f) => f.at,
    };
    proof {
        lemma_generic_params_bound(all.skip(1), site);
        assert(all.skip(1).skip(taken) =~= all.skip(1 + taken));
    }
    let generic_params = consume_generic_params(tokens)?;
    proof {
        assert(tokens@.skip(0) =~= tokens@);
        if punct_at(all, 1 + taken, '>') {
            assert(all.skip(1 + taken).skip(1) =~= all.skip(2 + taken));
        }
    }
    consume_punct(tokens, '>')?;
    Ok(generic_params)
}

/// Consumes what follows the parameters of a group: a premise clause, if
/// there is one, and the group in braces that holds the body. Returns the
/// premises and the group in braces.
///
/// On failure the cursor rests on the token that the diagnostic is anchored
/// at.
fn consume_group_head(tokens: &mut TokenIter) -> (result: Result<(Vec<Predicate>, Token), Error>)
    ensures
        match group_head(old(tokens)@, old(tokens).end()) {
            Ok((premises, n)) => result is Ok && result->Ok_0.0.deep_view() == premises
                && result->Ok_0.1@ == old(tokens)@[n - 1] && advanced(
                *old(tokens),
                *final(tokens),
                n,
            ),
            Err(f) => result is Err && result->Err_0@ == f.error && advanced(
                *old(tokens),
                *final(tokens),
                f.at,
            ),
        },
{
    let ghost all = tokens@;
    let ghost site = tokens.end();
    proof {
        lemma_where_clause_bound(all, site);
    }
    let where_predicates = match consume_optional_where_clause(tokens)? {
        Some(where_predicates) => where_predicates,
        None => {
            let where_predicates: Vec<Predicate> = Vec::new();
            assert(where_predicates.deep_view() =~= Seq::empty());
            where_predicates
        },
    };
    let ghost taken = match where_clause(all, site) {
        Ok(Some((_, n))) => n,
        _ => 0,
    };
    proof {
        assert(tokens@.skip(0) =~= tokens@);
        if group_at(all, taken, Delimiter::Brace) {
            assert(all.skip(taken).skip(1) =~= all.skip(taken + 1));
        }
    }
    let braces = consume_delimiter(tokens, Delimiter::Brace)?;
    Ok((where_predicates, braces))
}

/// Consumes the rest of a group behind the word `for`: the parameters in
/// angle brackets, a premise clause, if there is one, and the body in braces.
/// `outer` is the sequence that the group was read from.
fn consume_scoped_group(
    tokens: &mut TokenIter,
    Ghost(outer): Ghost<Seq<TokenView>>,
    errors: &mut Vec<Error>,
) -> (result: Result<PredicateTree, Error>)
    requires
        outer.len() > 0,
        old(tokens)@ == outer.skip(1),
    ensures
        final(errors).deep_view() == old(errors).deep_view() + with_body(
            old(tokens)@,
            scoped_head(old(tokens)@, old(tokens).end()),
            old(tokens).end(),
        ).errors,
        match with_body(
            old(tokens)@,
            scoped_head(old(tokens)@, old(tokens).end()),
            old(tokens).end(),
        ).result {
            Ok((tree, n)) => result is Ok && result->Ok_0@ == tree && advanced(
                *old(tokens),
                *final(tokens),
                n,
            ),
            Err(f) => result is Err && result->Err_0@ == f.error && advanced(
                *old(tokens),
                *final(tokens),
                f.at,
            ),
        },
    decreases outer, 1int,
{
    let ghost all = tokens@;
    let ghost site = tokens.end();
    proof {
        assert(old(errors).deep_view() + Seq::<ErrorView>::empty() =~= old(errors).deep_view());
        lemma_angle_params_bound(all, site);
        lemma_scoped_head_bound(all, site);
    }
    let generic_params = consume_angle_params(tokens)?;
    if let Some(i) = find_misplaced_lifetime(&generic_params) {
        errors.push(
            Error::new_at_span(
                generic_params[i].span,
                "lifetime parameters must be declared prior to type and const parameters",
            ),
        );
    }
    assert(errors.deep_view() =~= old(errors).deep_view() + order_errors(
        generic_params.deep_view(),
    ));
    let ghost taken = match angle_params(all, site) {
        Ok((_, n)) => n,
        Err(f) => f.at,
    };
    let ghost rest = tokens@;
    let ghost len = match group_head(rest, site) {
        Ok((_, n)) => n,
        Err(f) => f.at,
    };
    proof {
        lemma_group_head_bound(rest, site);
        assert(rest.skip(len) =~= all.skip(taken + len));
    }
    let (where_predicates, braces) = consume_group_head(tokens)?;
    proof {
        assert(braces@ == outer[taken + len]);
    }
    let predicates = parse_group_body(braces, Ghost(outer), tokens.end_span(), errors);
    let group = PredicateGroup { generic_params, where_predicates, predicates };
    proof {
        lemma_group_tree_view(group);
        let body = predicate_list(braces@->tokens, site);
        assert(errors.deep_view() =~= old(errors).deep_view() + (order_errors(
            group@.generic_params,
        ) + body.errors));
    }
    Ok(PredicateTree::Group(group))
}

/// Consumes a group without parameters: a premise clause and the body in
/// braces.
fn consume_premise_group(tokens: &mut TokenIter, errors: &mut Vec<Error>) -> (result: Result<
    PredicateTree,
    Error,
>)
    ensures
        final(errors).deep_view() == old(errors).deep_view() + with_body(
            old(tokens)@,
            premise_head(old(tokens)@, old(tokens).end()),
            old(tokens).end(),
        ).errors,
        match with_body(
            old(tokens)@,
            premise_head(old(tokens)@, old(tokens).end()),
            old(tokens).end(),
        ).result {
            Ok((tree, n)) => result is Ok && result->Ok_0@ == tree && advanced(
                *old(tokens),
                *final(tokens),
                n,
            ),
            Err(f) => result is Err && result->Err_0@ == f.error && advanced(
                *old(tokens),
                *final(tokens),
                f.at,
            ),
        },
    decreases old(tokens)@, 1int,
{
    let ghost all = tokens@;
    let ghost site = tokens.end();
    proof {
        assert(old(errors).deep_view() + Seq::<ErrorView>::empty() =~= old(errors).deep_view());
        lemma_group_head_bound(all, site);
    }
    let (where_predicates, braces) = consume_group_head(tokens)?;
    let predicates = parse_group_body(braces, Ghost(all), tokens.end_span(), errors);
    let generic_params: Vec<GenericParam> = Vec::new();
    let group = PredicateGroup { generic_params, where_predicates, predicates };
    proof {
        lemma_group_tree_view(group);
        assert(group@.generic_params =~= Seq::empty());
        let body = predicate_list(braces@->tokens, site);
        assert(errors.deep_view() =~= old(errors).deep_view() + (Seq::<ErrorView>::empty()
            + body.errors));
    }
    Ok(PredicateTree::Group(group))
}

/// Consumes the node at the cursor: a group that starts with `for` or with
/// `where`, or a leaf. The diagnostics that do not stop the parse, and those
/// of a group's body, are added to `errors`.
///
/// On failure the cursor rests on the token that the diagnostic is anchored
/// at.
pub fn consume_predicate_tree(tokens: &mut TokenIter, errors: &mut Vec<Error>) -> (result: Result<
    PredicateTree,
    Error,
>)
    ensures
        final(errors).deep_view() == old(errors).deep_view() + node(
            old(tokens)@,
            old(tokens).end(),
        ).errors,
        match node(old(tokens)@, old(tokens).end()).result {
            Ok((tree, n)) => result is Ok && result->Ok_0@ == tree && advanced(
                *old(tokens),
                *final(tokens),
                n,
            ),
            Err(f) => result is Err && result->Err_0@ == f.error && advanced(
                *old(tokens),
                *final(tokens),
                f.at,
            ),
        },
    decreases old(tokens)@, 2int,
{
    let ghost all = tokens@;
    let ghost site = tokens.end();
    proof {
        assert(all.skip(0) =~= all);
    }
    if consume_optional_ident(tokens, "for").is_some() {
        let ghost rest = tokens@;
        proof {
            lemma_scoped_head_bound(rest, site);
            match scoped_head(rest, site).result {
                Ok((_, n)) => {
                    assert(rest.skip(n) =~= all.skip(1 + n));
                    assert(rest[n - 1] == all[n]);
                },
                Err(f) => {
                    assert(rest.skip(f.at) =~= all.skip(1 + f.at));
                },
            }
        }
        return consume_scoped_group(tokens, Ghost(all), errors);
    }
    if peek_ident(tokens, "where") {
        return consume_premise_group(tokens, errors);
    }
    assert(old(errors).deep_view() + Seq::<ErrorView>::empty() =~= old(errors).deep_view());
    Ok(PredicateTree::Predicate(consume_predicate(tokens)?))
}

/// Parses the list inside `braces`, a group that was read from `outer`.
fn parse_group_body(
    braces: Token,
    Ghost(outer): Ghost<Seq<TokenView>>,
    site: Span,
    errors: &mut Vec<Error>,
) -> (predicates: Vec<PredicateTree>)
    requires
        braces@ is Group,
        exists|i: int| 0 <= i < outer.len() && outer[i] == braces@,
    ensures
        predicates.deep_view() == predicate_list(braces@->tokens, site).trees,
        final(errors).deep_view() == old(errors).deep_view() + predicate_list(
            braces@->tokens,
            site,
        ).errors,
    decreases outer, 0int,
{
    match braces {
        Token::Group { delimiter, tokens, span } => {
            proof {
                lemma_group_view(delimiter, tokens, span);
                let i = choose|i: int| 0 <= i < outer.len() && outer[i] == braces@;
                assert(decreases_to!(outer => outer[i]));
                assert(decreases_to!(outer[i] => outer[i]->tokens));
            }
            parse_predicate_list(tokens, site, errors)
        },
        _ => Vec::new(),
    }
}

/// Parses a list of assertions: `tokens` to the trees that are returned and
/// the diagnostics that are added to `errors`.
///
/// `site` is the span of the macro call: it stands for the end of the input,
/// and the tokens that the parser makes up carry it.
pub fn parse_predicate_list(tokens: Vec<Token>, site: Span, errors: &mut Vec<Error>) -> (result:
    Vec<PredicateTree>)
    ensures
        result.deep_view() == predicate_list(tokens.deep_view(), site).trees,
        final(errors).deep_view() == old(errors).deep_view() + predicate_list(
            tokens.deep_view(),
            site,
        ).errors,
    decreases tokens.deep_view(), 3int,
{
    let ghost all = tokens.deep_view();
    let ghost mut taken: int = 0;
    let mut iter = TokenIter::new(tokens, site);
    let mut result: Vec<PredicateTree> = Vec::new();
    proof {
        assert(all.skip(0) =~= all);
        assert(result.deep_view() + predicate_list(all, site).trees =~= predicate_list(
            all,
            site,
        ).trees);
    }
    loop
        invariant_except_break
            result.deep_view() + predicate_list(iter@, site).trees == predicate_list(
                all,
                site,
            ).trees,
            errors.deep_view() + predicate_list(iter@, site).errors == old(errors).deep_view()
                + predicate_list(all, site).errors,
            iter@ == all.skip(taken),
        invariant
            iter.end() == site,
            all == tokens.deep_view(),
            0 <= taken <= all.len(),
        ensures
            result.deep_view() == predicate_list(all, site).trees,
            errors.deep_view() == old(errors).deep_view() + predicate_list(all, site).errors,
        decreases iter@.len(),
    {
        let ghost rest = iter@;
        let ghost trees_before = result.deep_view();
        let ghost errors_before = errors.deep_view();
        proof {
            lemma_predicate_list_step(rest, site);
        }
        if iter.peek().is_none() {
            proof {
                assert(result.deep_view() + Seq::<PredicateTreeView>::empty()
                    =~= result.deep_view());
                assert(errors.deep_view() + Seq::<ErrorView>::empty() =~= errors.deep_view());
            }
            break ;
        }
        proof {
            lemma_tree_head_bound(rest, site);
            if taken > 0 {
                assert(decreases_to!(all => all.skip(taken)));
            } else {
                assert(all.skip(0) =~= all);
            }
        }
        let predicate = match consume_predicate_tree(&mut iter, errors) {
            Ok(predicate) => predicate,
            Err(error) => {
                let ghost after_node = errors.deep_view();
                errors.push(error);
                proof {
                    assert(result.deep_view() + Seq::<PredicateTreeView>::empty()
                        =~= result.deep_view());
                    assert(errors.deep_view() =~= after_node.push(error@));
                    assert(after_node.push(error@) =~= errors_before + node(
                        rest,
                        site,
                    ).errors.push(error@));
                }
                break ;
            },
        };
        let ghost n = node(rest, site).result->Ok_0.1;
        let ghost after_node = errors.deep_view();
        let is_group = match &predicate {
            PredicateTree::Group(_) => true,
            _ => false,
        };
        if consume_optional_punct(&mut iter, ',').is_none() {
            if let Some(token) = iter.peek() {
                if !is_group {
                    errors.push(Error::new_at_span(token.span(), "expected `,`"));
                }
            }
        }
        result.push(predicate);
        proof {
            let step = with_comma(rest, n);
            if punct_at(rest, n, ',') {
                assert(rest.skip(n).skip(1) =~= rest.skip(n + 1));
            }
            assert(iter@ =~= all.skip(taken + step));
            let others = predicate_list(iter@, site);
            let missing = missing_comma(rest, n, !is_group);
            assert(errors.deep_view() =~= after_node + missing);
            assert(result.deep_view() + others.trees =~= trees_before + (seq![predicate@]
                + others.trees));
            assert(errors.deep_view() + others.errors =~= errors_before + (node(
                rest,
                site,
            ).errors + missing + others.errors));
            taken = taken + step;
        }
    }
    result
}

} // verus!
