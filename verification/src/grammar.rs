//! The assertion syntax, as functions from a sequence of tokens to what the
//! parser makes of it.
//!
//! ```text
//! List         := (Node (',' | &Group))*
//! Node         := ScopedGroup | PremiseGroup | Leaf
//! ScopedGroup  := 'for' '<' (Param ',')* '>' PremiseClause? '{' List '}'
//! PremiseGroup := PremiseClause '{' List '}'
//! PremiseClause:= 'where' (Leaf ','?)*
//! Param        := ("'" ident | 'const' ident | ident) (':' TypeExpr)?
//! Leaf         := TypeExpr ':' TypeExpr?
//! ```
//!
//! Every function here reads from the start of the sequence it is given and
//! says how many tokens it takes. `site` is the span of the macro call: it
//! stands for the end of the input, and the tokens that the parser makes up
//! carry it.

use crate::token::{Delimiter, TokenView};
use crate::token_iter::next_span;
use crate::types::{
    ErrorView, GenericParamView, PredicateGroupView, PredicateTreeView, PredicateView,
};
use proc_macro2::Span;
use vstd::prelude::*;

verus! {

/// Whether the token at `i` is the punctuation character `ch`.
pub open spec fn punct_at(tokens: Seq<TokenView>, i: int, ch: char) -> bool {
    0 <= i < tokens.len() && tokens[i] is Punct && tokens[i]->ch == ch
}

/// Whether the token at `i` is the word `name`.
pub open spec fn ident_at(tokens: Seq<TokenView>, i: int, name: Seq<char>) -> bool {
    0 <= i < tokens.len() && tokens[i] is Ident && tokens[i]->name == name
}

/// Whether the token at `i` is a word.
pub open spec fn any_ident_at(tokens: Seq<TokenView>, i: int) -> bool {
    0 <= i < tokens.len() && tokens[i] is Ident
}

/// Whether the token at `i` is a group in the brackets `delimiter`.
pub open spec fn group_at(tokens: Seq<TokenView>, i: int, delimiter: Delimiter) -> bool {
    0 <= i < tokens.len() && tokens[i] is Group && tokens[i]->delimiter == delimiter
}

/// The message for a missing punctuation character.
pub open spec fn expected_punct(ch: char) -> Seq<char> {
    "expected `"@ + seq![ch] + "`"@
}

/// The message for a missing group in visible brackets.
pub open spec fn expected_delimiter(delimiter: Delimiter) -> Seq<char>
    recommends
        delimiter != Delimiter::Invisible,
{
    match delimiter {
        Delimiter::Brace => "expected braces"@,
        Delimiter::Bracket => "expected brackets"@,
        Delimiter::Parenthesis => "expected parentheses"@,
        Delimiter::Invisible => Seq::empty(),
    }
}

/// The message for a missing `,` between two assertions.
pub open spec fn expected_comma() -> Seq<char> {
    "expected `,`"@
}

/// The message for a missing type expression.
pub open spec fn expected_type_expr() -> Seq<char> {
    "expected a type expression"@
}

/// The message for a missing identifier.
pub open spec fn expected_ident() -> Seq<char> {
    "expected an identifier"@
}

/// The message for a lifetime parameter that stands behind another parameter.
pub open spec fn lifetimes_first_message() -> Seq<char> {
    "lifetime parameters must be declared prior to type and const parameters"@
}

/// A parse that stopped: the diagnostic, and the number of tokens that were
/// consumed before it. The diagnostic is anchored at the token that follows
/// them.
pub ghost struct Failure {
    pub error: ErrorView,
    pub at: int,
}

/// The failure with `message` after `at` tokens of `tokens`.
pub open spec fn failure(
    tokens: Seq<TokenView>,
    at: int,
    site: Span,
    message: Seq<char>,
) -> Failure {
    Failure { error: ErrorView { span: next_span(tokens.skip(at), site), message }, at }
}

/// Whether `token`, met outside angle brackets, ends a type expression.
pub open spec fn ends_type_expr(token: TokenView) -> bool {
    match token {
        TokenView::Punct { ch, .. } => ch == ',' || ch == ';' || ch == ':' || ch == '>' || ch
            == '=',
        TokenView::Group { delimiter, .. } => delimiter == Delimiter::Brace,
        _ => false,
    }
}

/// The number of angle brackets that are open after `token`, when `depth`
/// were open before it.
pub open spec fn depth_after(depth: nat, token: TokenView) -> nat {
    match token {
        TokenView::Punct { ch, .. } => if ch == '<' {
            depth + 1
        } else if ch == '>' && depth > 0 {
            (depth - 1) as nat
        } else {
            depth
        },
        _ => depth,
    }
}

/// The length of the type expression at the start of `tokens`, read with
/// `depth` angle brackets open.
///
/// Outside angle brackets the expression ends before `,`, `;`, `>`, `=`, a
/// group in braces and a `:` that is not half of a `::`; inside them it ends
/// only with the tokens.
pub open spec fn type_expr_len(tokens: Seq<TokenView>, depth: nat) -> int
    decreases tokens.len(),
{
    if tokens.len() == 0 {
        0
    } else if depth == 0 && punct_at(tokens, 0, ':') && punct_at(tokens, 1, ':') {
        2 + type_expr_len(tokens.skip(2), depth)
    } else if depth == 0 && ends_type_expr(tokens[0]) {
        0
    } else {
        1 + type_expr_len(tokens.skip(1), depth_after(depth, tokens[0]))
    }
}

/// A type expression lies within the tokens it is read from.
pub proof fn lemma_type_expr_len_bound(tokens: Seq<TokenView>, depth: nat)
    ensures
        0 <= type_expr_len(tokens, depth) <= tokens.len(),
    decreases tokens.len(),
{
    if tokens.len() == 0 {
    } else if depth == 0 && punct_at(tokens, 0, ':') && punct_at(tokens, 1, ':') {
        lemma_type_expr_len_bound(tokens.skip(2), depth);
    } else if depth == 0 && ends_type_expr(tokens[0]) {
    } else {
        lemma_type_expr_len_bound(tokens.skip(1), depth_after(depth, tokens[0]));
    }
}

/// The leaf `Subject ':' Bound?` at the start of `tokens`, with its length.
pub open spec fn leaf(tokens: Seq<TokenView>, site: Span) -> Result<(PredicateView, int), Failure> {
    let subject = type_expr_len(tokens, 0);
    let rest = tokens.skip(subject + 1);
    let bound = type_expr_len(rest, 0);
    if subject == 0 {
        Err(failure(tokens, 0, site, expected_type_expr()))
    } else if !punct_at(tokens, subject, ':') {
        Err(failure(tokens, subject, site, expected_punct(':')))
    } else {
        Ok(
            (
                PredicateView {
                    left_side: tokens.take(subject),
                    bound: rest.take(bound),
                    span: next_span(tokens, site),
                    unsized_left_side: ident_at(tokens, 0, "dyn"@),
                },
                subject + 1 + bound,
            ),
        )
    }
}

/// A leaf takes at least two tokens, and no more than there are.
pub proof fn lemma_leaf_bound(tokens: Seq<TokenView>, site: Span)
    ensures
        leaf(tokens, site) matches Ok((_, n)) ==> 2 <= n <= tokens.len(),
        leaf(tokens, site) matches Err(f) ==> 0 <= f.at <= tokens.len(),
{
    let subject = type_expr_len(tokens, 0);
    lemma_type_expr_len_bound(tokens, 0);
    if subject > 0 && punct_at(tokens, subject, ':') {
        lemma_type_expr_len_bound(tokens.skip(subject + 1), 0);
    }
}

/// The leaves of a premise clause, read from behind its keyword up to a `;`,
/// a group in braces or the end, with their length. A `,` behind a leaf is
/// skipped.
pub open spec fn where_items(tokens: Seq<TokenView>, site: Span) -> Result<
    (Seq<PredicateView>, int),
    Failure,
>
    decreases tokens.len(),
{
    if tokens.len() == 0 || punct_at(tokens, 0, ';') || group_at(tokens, 0, Delimiter::Brace) {
        Ok((Seq::empty(), 0))
    } else {
        match leaf(tokens, site) {
            Err(f) => Err(f),
            Ok((first, n)) => {
                let step = if punct_at(tokens, n, ',') {
                    n + 1
                } else {
                    n
                };
                proof {
                    lemma_leaf_bound(tokens, site);
                }
                match where_items(tokens.skip(step), site) {
                    Err(f) => Err(Failure { error: f.error, at: step + f.at }),
                    Ok((others, m)) => Ok((seq![first] + others, step + m)),
                }
            },
        }
    }
}

/// The premise clause at the start of `tokens`, if there is one: its leaves
/// and its length, keyword included.
pub open spec fn where_clause(tokens: Seq<TokenView>, site: Span) -> Result<
    Option<(Seq<PredicateView>, int)>,
    Failure,
> {
    if !ident_at(tokens, 0, "where"@) {
        Ok(None)
    } else {
        match where_items(tokens.skip(1), site) {
            Err(f) => Err(Failure { error: f.error, at: 1 + f.at }),
            Ok((premises, n)) => Ok(Some((premises, 1 + n))),
        }
    }
}

/// The lifetime parameter made of the apostrophe `quote` and the word `name`.
pub open spec fn lifetime_param(quote: TokenView, name: TokenView, site: Span) -> GenericParamView {
    let prefix = TokenView::joint('\'', quote.span());
    GenericParamView {
        tokens: seq![prefix, name],
        inline_arg: seq![prefix, name],
        marker_type: seq![
            TokenView::alone('&', site),
            prefix,
            name,
            TokenView::group(Delimiter::Parenthesis, Seq::empty(), site),
        ],
        is_lifetime: true,
        span: name.span(),
    }
}

/// The constant parameter made of the word `keyword`, which is `const`, and
/// the word `name`.
pub open spec fn const_param(keyword: TokenView, name: TokenView, site: Span) -> GenericParamView {
    GenericParamView {
        tokens: seq![keyword, name],
        inline_arg: seq![name],
        marker_type: seq![TokenView::group(Delimiter::Parenthesis, Seq::empty(), site)],
        is_lifetime: false,
        span: name.span(),
    }
}

/// The type parameter made of the word `name`.
pub open spec fn type_param(name: TokenView) -> GenericParamView {
    GenericParamView {
        tokens: seq![name],
        inline_arg: seq![name],
        marker_type: seq![name],
        is_lifetime: false,
        span: name.span(),
    }
}

/// The name of the parameter at the start of `tokens`, without a bound: a
/// lifetime, a constant or a type, with its length.
pub open spec fn generic_param_name(tokens: Seq<TokenView>, site: Span) -> Result<
    (GenericParamView, int),
    Failure,
> {
    if punct_at(tokens, 0, '\'') {
        if any_ident_at(tokens, 1) {
            Ok((lifetime_param(tokens[0], tokens[1], site), 2))
        } else {
            Err(failure(tokens, 1, site, expected_ident()))
        }
    } else if ident_at(tokens, 0, "const"@) {
        if any_ident_at(tokens, 1) {
            Ok((const_param(tokens[0], tokens[1], site), 2))
        } else {
            Err(failure(tokens, 1, site, expected_ident()))
        }
    } else if any_ident_at(tokens, 0) {
        Ok((type_param(tokens[0]), 1))
    } else {
        Err(failure(tokens, 0, site, expected_ident()))
    }
}

/// The parameter at the start of `tokens`, with its length: a name, and a
/// bound where a `:` follows the name. The bound, colon included, belongs to
/// the declaration only.
pub open spec fn generic_param(tokens: Seq<TokenView>, site: Span) -> Result<
    (GenericParamView, int),
    Failure,
> {
    match generic_param_name(tokens, site) {
        Err(f) => Err(f),
        Ok((param, n)) => {
            let rest = tokens.skip(n + 1);
            let bound = type_expr_len(rest, 0);
            if !punct_at(tokens, n, ':') {
                Ok((param, n))
            } else if bound == 0 {
                Err(failure(tokens, n + 1, site, expected_type_expr()))
            } else {
                Ok(
                    (
                        GenericParamView {
                            tokens: param.tokens + seq![tokens[n]] + rest.take(bound),
                            ..param
                        },
                        n + 1 + bound,
                    ),
                )
            }
        },
    }
}

/// A parameter takes at least one token, and no more than there are.
pub proof fn lemma_generic_param_bound(tokens: Seq<TokenView>, site: Span)
    ensures
        generic_param(tokens, site) matches Ok((_, n)) ==> 1 <= n <= tokens.len(),
        generic_param(tokens, site) matches Err(f) ==> 0 <= f.at <= tokens.len(),
{
    if let Ok((_, n)) = generic_param_name(tokens, site) {
        if punct_at(tokens, n, ':') {
            lemma_type_expr_len_bound(tokens.skip(n + 1), 0);
        }
    }
}

/// The parameters at the start of `tokens`, read up to a `>`, the end or a
/// parameter that no `,` follows, with their length.
pub open spec fn generic_params(tokens: Seq<TokenView>, site: Span) -> Result<
    (Seq<GenericParamView>, int),
    Failure,
>
    decreases tokens.len(),
{
    if tokens.len() == 0 || punct_at(tokens, 0, '>') {
        Ok((Seq::empty(), 0))
    } else {
        match generic_param(tokens, site) {
            Err(f) => Err(f),
            Ok((first, n)) => {
                proof {
                    lemma_generic_param_bound(tokens, site);
                }
                if !punct_at(tokens, n, ',') {
                    Ok((seq![first], n))
                } else {
                    match generic_params(tokens.skip(n + 1), site) {
                        Err(f) => Err(Failure { error: f.error, at: n + 1 + f.at }),
                        Ok((others, m)) => Ok((seq![first] + others, n + 1 + m)),
                    }
                }
            },
        }
    }
}

/// Whether the parameter at `i` is a lifetime that directly follows a
/// parameter of another kind.
pub open spec fn misplaced_lifetime(params: Seq<GenericParamView>, i: int) -> bool {
    1 <= i < params.len() && params[i].is_lifetime && !params[i - 1].is_lifetime
}

/// The first index from `from` on at which a lifetime is misplaced.
pub open spec fn first_misplaced_lifetime(params: Seq<GenericParamView>, from: int) -> Option<int>
    decreases params.len() - from,
{
    if from >= params.len() {
        None
    } else if misplaced_lifetime(params, from) {
        Some(from)
    } else {
        first_misplaced_lifetime(params, from + 1)
    }
}

/// The diagnostics on the order of `params`: one, at the first misplaced
/// lifetime, or none.
pub open spec fn order_errors(params: Seq<GenericParamView>) -> Seq<ErrorView> {
    match first_misplaced_lifetime(params, 1) {
        Some(i) => seq![ErrorView { span: params[i].span, message: lifetimes_first_message() }],
        None => Seq::empty(),
    }
}

/// What a node is before its body is read.
pub ghost enum Shape {
    /// A leaf.
    Leaf(PredicateView),
    /// A group with these parameters and premises, whose body is the group
    /// in braces that ends the node.
    Group { generic_params: Seq<GenericParamView>, where_predicates: Seq<PredicateView> },
}

/// The head of a node: the diagnostics that do not stop the parse, and the
/// node's shape and length, braces included, or the failure that stops it.
pub ghost struct Head {
    pub errors: Seq<ErrorView>,
    pub result: Result<(Shape, int), Failure>,
}

/// The parameter list in angle brackets at the start of `tokens`, with its
/// length, brackets included.
pub open spec fn angle_params(tokens: Seq<TokenView>, site: Span) -> Result<
    (Seq<GenericParamView>, int),
    Failure,
> {
    if !punct_at(tokens, 0, '<') {
        Err(failure(tokens, 0, site, expected_punct('<')))
    } else {
        match generic_params(tokens.skip(1), site) {
            Err(f) => Err(Failure { error: f.error, at: 1 + f.at }),
            Ok((params, n)) => if !punct_at(tokens, 1 + n, '>') {
                Err(failure(tokens, 1 + n, site, expected_punct('>')))
            } else {
                Ok((params, 2 + n))
            },
        }
    }
}

/// What follows the parameters of a group, read from the start of `tokens`:
/// the premises of a premise clause, if there is one, and a group in braces,
/// with their length together.
pub open spec fn group_head(tokens: Seq<TokenView>, site: Span) -> Result<
    (Seq<PredicateView>, int),
    Failure,
> {
    match where_clause(tokens, site) {
        Err(f) => Err(f),
        Ok(clause) => {
            let (where_predicates, n) = match clause {
                Some((premises, n)) => (premises, n),
                None => (Seq::empty(), 0int),
            };
            if !group_at(tokens, n, Delimiter::Brace) {
                Err(failure(tokens, n, site, expected_delimiter(Delimiter::Brace)))
            } else {
                Ok((where_predicates, n + 1))
            }
        },
    }
}

/// The head of the group that starts with `for`, read from behind that word.
pub open spec fn scoped_head(tokens: Seq<TokenView>, site: Span) -> Head {
    match angle_params(tokens, site) {
        Err(f) => Head { errors: Seq::empty(), result: Err(f) },
        Ok((generic_params, n)) => Head {
            errors: order_errors(generic_params),
            result: match group_head(tokens.skip(n), site) {
                Err(f) => Err(Failure { error: f.error, at: n + f.at }),
                Ok((where_predicates, m)) => Ok(
                    (Shape::Group { generic_params, where_predicates }, n + m),
                ),
            },
        },
    }
}

/// The head of the group without parameters at the start of `tokens`.
pub open spec fn premise_head(tokens: Seq<TokenView>, site: Span) -> Head {
    Head {
        errors: Seq::empty(),
        result: match group_head(tokens, site) {
            Err(f) => Err(f),
            Ok((where_predicates, n)) => Ok(
                (Shape::Group { generic_params: Seq::empty(), where_predicates }, n),
            ),
        },
    }
}

/// The head of the node at the start of `tokens`.
///
/// A node that starts with `for` is a group with parameters in angle
/// brackets; one that starts with `where` is a group without parameters;
/// any other is a leaf.
pub open spec fn tree_head(tokens: Seq<TokenView>, site: Span) -> Head {
    if ident_at(tokens, 0, "for"@) {
        let head = scoped_head(tokens.skip(1), site);
        Head {
            errors: head.errors,
            result: match head.result {
                Err(f) => Err(Failure { error: f.error, at: 1 + f.at }),
                Ok((shape, n)) => Ok((shape, 1 + n)),
            },
        }
    } else if ident_at(tokens, 0, "where"@) {
        premise_head(tokens, site)
    } else {
        Head {
            errors: Seq::empty(),
            result: match leaf(tokens, site) {
                Err(f) => Err(f),
                Ok((predicate, n)) => Ok((Shape::Leaf(predicate), n)),
            },
        }
    }
}

/// The trees and the diagnostics that a list of assertions gives.
pub ghost struct Parsed {
    pub trees: Seq<PredicateTreeView>,
    pub errors: Seq<ErrorView>,
}

impl Parsed {
    /// Nothing parsed, nothing wrong.
    pub open spec fn empty() -> Parsed {
        Parsed { trees: Seq::empty(), errors: Seq::empty() }
    }
}

/// The tree of a node with the shape `shape` whose body holds `predicates`.
pub open spec fn grow(shape: Shape, predicates: Seq<PredicateTreeView>) -> PredicateTreeView {
    match shape {
        Shape::Leaf(predicate) => PredicateTreeView::Predicate(predicate),
        Shape::Group { generic_params, where_predicates } => PredicateTreeView::Group(
            PredicateGroupView { generic_params, where_predicates, predicates },
        ),
    }
}

/// The diagnostic for the token that follows a node of `n` tokens, where a
/// `,` is missing there: a leaf must be parted from what follows it.
pub open spec fn missing_comma(tokens: Seq<TokenView>, n: int, is_leaf: bool) -> Seq<ErrorView> {
    if is_leaf && 0 <= n < tokens.len() && !punct_at(tokens, n, ',') {
        seq![ErrorView { span: tokens[n].span(), message: expected_comma() }]
    } else {
        Seq::empty()
    }
}

/// The number of tokens that a node of `n` tokens takes with the `,` behind
/// it, if there is one.
pub open spec fn with_comma(tokens: Seq<TokenView>, n: int) -> int {
    if punct_at(tokens, n, ',') {
        n + 1
    } else {
        n
    }
}

/// What the list of assertions `tokens` parses to.
///
/// The nodes are read one after another. A `,` behind a node is skipped; where
/// a leaf is followed by another token than `,`, that token gets the
/// diagnostic "expected `,`" and the parse goes on with it. The first node
/// that fails ends the list with its diagnostic: the nodes before it stay.
/// The diagnostics stand in the order in which they arise.
#[verifier::opaque]
pub open spec fn predicate_list(tokens: Seq<TokenView>, site: Span) -> Parsed
    decreases tokens,
{
    let head = tree_head(tokens, site);
    if tokens.len() == 0 {
        Parsed::empty()
    } else {
        match head.result {
            Err(f) => Parsed { trees: Seq::empty(), errors: head.errors.push(f.error) },
            Ok((shape, n)) => {
                proof {
                    lemma_tree_head_bound(tokens, site);
                }
                let body = match shape {
                    Shape::Leaf(_) => Parsed::empty(),
                    Shape::Group { .. } => predicate_list(tokens[n - 1]->tokens, site),
                };
                let others = predicate_list(tokens.skip(with_comma(tokens, n)), site);
                Parsed {
                    trees: seq![grow(shape, body.trees)] + others.trees,
                    errors: head.errors + body.errors + missing_comma(tokens, n, shape is Leaf)
                        + others.errors,
                }
            },
        }
    }
}

/// A node: the diagnostics that it gives, and its tree and length or the
/// failure that stops it.
pub ghost struct Node {
    pub errors: Seq<ErrorView>,
    pub result: Result<(PredicateTreeView, int), Failure>,
}

/// The node with the head `head`, read from `tokens`: for a group, the list
/// in the braces that end it is its body. The diagnostics of the head come
/// before those of the body.
pub open spec fn with_body(tokens: Seq<TokenView>, head: Head, site: Span) -> Node {
    match head.result {
        Err(f) => Node { errors: head.errors, result: Err(f) },
        Ok((shape, n)) => {
            let body = match shape {
                Shape::Leaf(_) => Parsed::empty(),
                Shape::Group { .. } => predicate_list(tokens[n - 1]->tokens, site),
            };
            Node { errors: head.errors + body.errors, result: Ok((grow(shape, body.trees), n)) }
        },
    }
}

/// The node at the start of `tokens`.
pub open spec fn node(tokens: Seq<TokenView>, site: Span) -> Node {
    with_body(tokens, tree_head(tokens, site), site)
}

/// A list is its first node, the diagnostic for a missing `,` behind it, and
/// the list that follows; a node that fails ends the list.
pub proof fn lemma_predicate_list_step(tokens: Seq<TokenView>, site: Span)
    ensures
        tokens.len() == 0 ==> predicate_list(tokens, site) == Parsed::empty(),
        tokens.len() > 0 ==> match node(tokens, site).result {
            Err(f) => predicate_list(tokens, site) == Parsed {
                trees: Seq::empty(),
                errors: node(tokens, site).errors.push(f.error),
            },
            Ok((tree, n)) => {
                let others = predicate_list(tokens.skip(with_comma(tokens, n)), site);
                predicate_list(tokens, site) == Parsed {
                    trees: seq![tree] + others.trees,
                    errors: node(tokens, site).errors + missing_comma(
                        tokens,
                        n,
                        tree is Predicate,
                    ) + others.errors,
                }
            },
        },
{
    reveal(predicate_list);
}

/// A parameter list in angle brackets takes at least two tokens, and no more
/// than there are.
pub proof fn lemma_angle_params_bound(tokens: Seq<TokenView>, site: Span)
    ensures
        angle_params(tokens, site) matches Ok((_, n)) ==> 2 <= n <= tokens.len(),
        angle_params(tokens, site) matches Err(f) ==> 0 <= f.at <= tokens.len(),
{
    if punct_at(tokens, 0, '<') {
        lemma_generic_params_bound(tokens.skip(1), site);
    }
}

/// What follows the parameters of a group ends with a group in braces, and
/// lies within the tokens it is read from.
pub proof fn lemma_group_head_bound(tokens: Seq<TokenView>, site: Span)
    ensures
        group_head(tokens, site) matches Ok((_, n)) ==> 1 <= n <= tokens.len() && group_at(
            tokens,
            n - 1,
            Delimiter::Brace,
        ),
        group_head(tokens, site) matches Err(f) ==> 0 <= f.at <= tokens.len(),
{
    lemma_where_clause_bound(tokens, site);
}

/// The head of a group with parameters ends with a group in braces, and
/// lies within the tokens it is read from.
pub proof fn lemma_scoped_head_bound(tokens: Seq<TokenView>, site: Span)
    ensures
        scoped_head(tokens, site).result matches Ok((shape, n)) ==> 3 <= n <= tokens.len()
            && shape is Group && group_at(tokens, n - 1, Delimiter::Brace),
        scoped_head(tokens, site).result matches Err(f) ==> 0 <= f.at <= tokens.len(),
{
    lemma_angle_params_bound(tokens, site);
    if let Ok((_, n)) = angle_params(tokens, site) {
        lemma_group_head_bound(tokens.skip(n), site);
    }
}

/// A node takes at least one token, and no more than there are; a group
/// ends with its body in braces.
pub proof fn lemma_tree_head_bound(tokens: Seq<TokenView>, site: Span)
    ensures
        tree_head(tokens, site).result matches Ok((shape, n)) ==> {
            &&& 1 <= n <= tokens.len()
            &&& shape is Group ==> group_at(tokens, n - 1, Delimiter::Brace)
        },
        tree_head(tokens, site).result matches Err(f) ==> 0 <= f.at <= tokens.len(),
{
    if ident_at(tokens, 0, "for"@) {
        lemma_scoped_head_bound(tokens.skip(1), site);
    } else if ident_at(tokens, 0, "where"@) {
        lemma_group_head_bound(tokens, site);
    } else {
        lemma_leaf_bound(tokens, site);
    }
}

/// A parameter list lies within the tokens it is read from.
pub proof fn lemma_generic_params_bound(tokens: Seq<TokenView>, site: Span)
    ensures
        generic_params(tokens, site) matches Ok((_, n)) ==> 0 <= n <= tokens.len(),
        generic_params(tokens, site) matches Err(f) ==> 0 <= f.at <= tokens.len(),
    decreases tokens.len(),
{
    if tokens.len() == 0 || punct_at(tokens, 0, '>') {
    } else {
        lemma_generic_param_bound(tokens, site);
        if let Ok((_, n)) = generic_param(tokens, site) {
            if punct_at(tokens, n, ',') {
                lemma_generic_params_bound(tokens.skip(n + 1), site);
            }
        }
    }
}

/// The leaves of a premise clause lie within the tokens they are read from.
pub proof fn lemma_where_items_bound(tokens: Seq<TokenView>, site: Span)
    ensures
        where_items(tokens, site) matches Ok((_, n)) ==> 0 <= n <= tokens.len(),
        where_items(tokens, site) matches Err(f) ==> 0 <= f.at <= tokens.len(),
    decreases tokens.len(),
{
    if tokens.len() == 0 || punct_at(tokens, 0, ';') || group_at(tokens, 0, Delimiter::Brace) {
    } else {
        lemma_leaf_bound(tokens, site);
        if let Ok((_, n)) = leaf(tokens, site) {
            let step = if punct_at(tokens, n, ',') {
                n + 1
            } else {
                n
            };
            lemma_where_items_bound(tokens.skip(step), site);
        }
    }
}

/// A premise clause lies within the tokens it is read from.
pub proof fn lemma_where_clause_bound(tokens: Seq<TokenView>, site: Span)
    ensures
        where_clause(tokens, site) matches Ok(Some((_, n))) ==> 1 <= n <= tokens.len(),
        where_clause(tokens, site) matches Err(f) ==> 0 <= f.at <= tokens.len(),
{
    if ident_at(tokens, 0, "where"@) {
        lemma_where_items_bound(tokens.skip(1), site);
    }
}

} // verus!
