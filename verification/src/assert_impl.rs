//! The generator: from a forest of assertions to the code that checks them.

use crate::expansion::{
    angled, arguments, check, checked_bound, checks, comma, declaration_list, declarations,
    directive, directives, expansion, group_scopes, helper_declaration, helper_use, leaves,
    lemma_of_kind, lemma_scopes_tokens_add, lifetimes_first, marker_fields, marker_values,
    of_kind, path_sep, phantom_data, predicate_tokens, premise_list, scope_tokens, scopes,
    scopes_tokens, word, Scope,
};
use crate::parse::parse_predicate_list;
use crate::token::{extend_tokens, push_token, Delimiter, Token, TokenView};
use crate::types::{
    lemma_group_tree_view, Error, GenericParam, Predicate, PredicateGroup, PredicateTree,
};
use core::cmp::Ordering;
use proc_macro2::Span;
use vstd::prelude::*;

verus! {

/// Appends the word `name`.
fn push_word(tokens: &mut Vec<Token>, name: &str, span: Span)
    ensures
        final(tokens).deep_view() == old(tokens).deep_view().push(word(name@, span)),
{
    push_token(tokens, Token::ident(name, span));
}

/// Appends the character `ch`, standing alone.
fn push_alone(tokens: &mut Vec<Token>, ch: char, span: Span)
    ensures
        final(tokens).deep_view() == old(tokens).deep_view().push(TokenView::alone(ch, span)),
{
    push_token(tokens, Token::alone(ch, span));
}

/// Appends `tokens` in the brackets `delimiter`.
fn push_group(tokens: &mut Vec<Token>, delimiter: Delimiter, inner: Vec<Token>, span: Span)
    ensures
        final(tokens).deep_view() == old(tokens).deep_view().push(
            TokenView::group(delimiter, inner.deep_view(), span),
        ),
{
    push_token(tokens, Token::group(delimiter, inner, span));
}

/// Appends the path separator `::`.
fn push_path_sep(tokens: &mut Vec<Token>, span: Span)
    ensures
        final(tokens).deep_view() == old(tokens).deep_view() + path_sep(span),
{
    push_token(tokens, Token::joint(':', span));
    push_token(tokens, Token::alone(':', span));
    assert(tokens.deep_view() =~= old(tokens).deep_view() + path_sep(span));
}

/// Appends the path `::core::marker::PhantomData`.
fn push_phantom_data(tokens: &mut Vec<Token>, span: Span)
    ensures
        final(tokens).deep_view() == old(tokens).deep_view() + phantom_data(span),
{
    push_path_sep(tokens, span);
    push_word(tokens, "core", span);
    push_path_sep(tokens, span);
    push_word(tokens, "marker", span);
    push_path_sep(tokens, span);
    push_word(tokens, "PhantomData", span);
    assert(tokens.deep_view() =~= old(tokens).deep_view() + phantom_data(span));
}

impl Predicate {
    /// Appends the tokens of the predicate: subject, `:`, bound. The colon
    /// carries `site`.
    pub fn to_tokens(&self, tokens: &mut Vec<Token>, site: Span)
        ensures
            final(tokens).deep_view() == old(tokens).deep_view() + predicate_tokens(self@, site),
    {
        extend_tokens(tokens, &self.left_side);
        push_alone(tokens, ':', site);
        extend_tokens(tokens, &self.bound);
        assert(tokens.deep_view() =~= old(tokens).deep_view() + predicate_tokens(self@, site));
    }
}

impl GenericParam {
    /// Appends the declaration of the parameter.
    pub fn to_tokens(&self, tokens: &mut Vec<Token>)
        ensures
            final(tokens).deep_view() == old(tokens).deep_view() + self@.tokens,
    {
        extend_tokens(tokens, &self.tokens);
    }
}

impl Error {
    /// Appends the code that reports the diagnostic when it is compiled. The
    /// message carries `site`, the rest the diagnostic's span.
    pub fn to_tokens(&self, tokens: &mut Vec<Token>, site: Span)
        ensures
            final(tokens).deep_view() == old(tokens).deep_view() + directive(self@, site),
    {
        let mut message: Vec<Token> = Vec::new();
        push_token(&mut message, Token::Str { value: self.message.clone(), span: site });
        assert(message.deep_view() =~= seq![TokenView::Str { value: self@.message, span: site }]);
        push_word(tokens, "compile_error", self.span);
        push_alone(tokens, '!', self.span);
        push_group(tokens, Delimiter::Parenthesis, message, self.span);
        push_alone(tokens, ';', self.span);
        assert(tokens.deep_view() =~= old(tokens).deep_view() + directive(self@, site));
    }
}

/// Appends the name of every parameter as an argument, each followed by
/// `,`.
fn push_arguments(tokens: &mut Vec<Token>, params: &Vec<&GenericParam>, span: Span)
    ensures
        final(tokens).deep_view() == old(tokens).deep_view() + arguments(params.deep_view(), span),
{
    let ghost all = params.deep_view();
    let mut i: usize = 0;
    assert(tokens.deep_view() =~= old(tokens).deep_view() + arguments(all.take(0), span));
    while i < params.len()
        invariant
            i <= params.len(),
            all == params.deep_view(),
            tokens.deep_view() == old(tokens).deep_view() + arguments(all.take(i as int), span),
        decreases params.len() - i,
    {
        let ghost before = tokens.deep_view();
        extend_tokens(tokens, &params[i].inline_arg);
        push_alone(tokens, ',', span);
        proof {
            assert(all.take(i + 1).drop_last() =~= all.take(i as int));
            assert(tokens.deep_view() =~= old(tokens).deep_view() + arguments(
                all.take(i + 1),
                span,
            ));
        }
        i += 1;
    }
    assert(all.take(params.len() as int) =~= all);
}

/// Appends one `PhantomData` value for every parameter, each followed by
/// `,`.
fn push_marker_values(tokens: &mut Vec<Token>, params: &Vec<&GenericParam>, span: Span)
    ensures
        final(tokens).deep_view() == old(tokens).deep_view() + marker_values(
            params.deep_view(),
            span,
        ),
{
    let ghost all = params.deep_view();
    let mut i: usize = 0;
    assert(tokens.deep_view() =~= old(tokens).deep_view() + marker_values(all.take(0), span));
    while i < params.len()
        invariant
            i <= params.len(),
            all == params.deep_view(),
            tokens.deep_view() == old(tokens).deep_view() + marker_values(
                all.take(i as int),
                span,
            ),
        decreases params.len() - i,
    {
        let ghost before = tokens.deep_view();
        push_phantom_data(tokens, span);
        push_path_sep(tokens, span);
        push_alone(tokens, '<', span);
        extend_tokens(tokens, &params[i].marker_type);
        push_alone(tokens, '>', span);
        push_alone(tokens, ',', span);
        proof {
            assert(all.take(i + 1).drop_last() =~= all.take(i as int));
            assert(tokens.deep_view() =~= before + phantom_data(span) + path_sep(span) + angled(
                all[i as int].marker_type,
                span,
            ) + seq![comma(span)]);
            assert(tokens.deep_view() =~= old(tokens).deep_view() + marker_values(
                all.take(i + 1),
                span,
            ));
        }
        i += 1;
    }
    assert(all.take(params.len() as int) =~= all);
}

/// Appends one `PhantomData` field for every parameter, each followed by
/// `,`.
fn push_marker_fields(tokens: &mut Vec<Token>, params: &Vec<&GenericParam>, span: Span)
    ensures
        final(tokens).deep_view() == old(tokens).deep_view() + marker_fields(
            params.deep_view(),
            span,
        ),
{
    let ghost all = params.deep_view();
    let mut i: usize = 0;
    assert(tokens.deep_view() =~= old(tokens).deep_view() + marker_fields(all.take(0), span));
    while i < params.len()
        invariant
            i <= params.len(),
            all == params.deep_view(),
            tokens.deep_view() == old(tokens).deep_view() + marker_fields(
                all.take(i as int),
                span,
            ),
        decreases params.len() - i,
    {
        let ghost before = tokens.deep_view();
        push_phantom_data(tokens, span);
        push_alone(tokens, '<', span);
        extend_tokens(tokens, &params[i].marker_type);
        push_alone(tokens, '>', span);
        push_alone(tokens, ',', span);
        proof {
            assert(all.take(i + 1).drop_last() =~= all.take(i as int));
            assert(tokens.deep_view() =~= before + phantom_data(span) + angled(
                all[i as int].marker_type,
                span,
            ) + seq![comma(span)]);
            assert(tokens.deep_view() =~= old(tokens).deep_view() + marker_fields(
                all.take(i + 1),
                span,
            ));
        }
        i += 1;
    }
    assert(all.take(params.len() as int) =~= all);
}

/// Appends the declaration of every parameter, each followed by `,`.
fn push_declarations(tokens: &mut Vec<Token>, params: &Vec<&GenericParam>, span: Span)
    ensures
        final(tokens).deep_view() == old(tokens).deep_view() + declarations(
            params.deep_view(),
            span,
        ),
{
    let ghost all = params.deep_view();
    let mut i: usize = 0;
    assert(tokens.deep_view() =~= old(tokens).deep_view() + declarations(all.take(0), span));
    while i < params.len()
        invariant
            i <= params.len(),
            all == params.deep_view(),
            tokens.deep_view() == old(tokens).deep_view() + declarations(all.take(i as int), span),
        decreases params.len() - i,
    {
        params[i].to_tokens(tokens);
        push_alone(tokens, ',', span);
        proof {
            assert(all.take(i + 1).drop_last() =~= all.take(i as int));
            assert(tokens.deep_view() =~= old(tokens).deep_view() + declarations(
                all.take(i + 1),
                span,
            ));
        }
        i += 1;
    }
    assert(all.take(params.len() as int) =~= all);
}

/// Appends the declaration of every parameter, with `,` between two of
/// them.
fn push_declaration_list(tokens: &mut Vec<Token>, params: &Vec<&GenericParam>, span: Span)
    ensures
        final(tokens).deep_view() == old(tokens).deep_view() + declaration_list(
            params.deep_view(),
            span,
        ),
{
    let ghost all = params.deep_view();
    let mut i: usize = 0;
    assert(tokens.deep_view() =~= old(tokens).deep_view() + declaration_list(all.take(0), span));
    while i < params.len()
        invariant
            i <= params.len(),
            all == params.deep_view(),
            tokens.deep_view() == old(tokens).deep_view() + declaration_list(
                all.take(i as int),
                span,
            ),
        decreases params.len() - i,
    {
        if i > 0 {
            push_alone(tokens, ',', span);
        }
        params[i].to_tokens(tokens);
        proof {
            assert(all.take(i + 1).drop_last() =~= all.take(i as int));
            assert(tokens.deep_view() =~= old(tokens).deep_view() + declaration_list(
                all.take(i + 1),
                span,
            ));
        }
        i += 1;
    }
    assert(all.take(params.len() as int) =~= all);
}

/// Appends the premises, with `,` between two of them. The commas carry
/// `span`.
fn push_premise_list(tokens: &mut Vec<Token>, premises: &Vec<Predicate>, span: Span, site: Span)
    ensures
        final(tokens).deep_view() == old(tokens).deep_view() + premise_list(
            premises.deep_view(),
            span,
            site,
        ),
{
    let ghost all = premises.deep_view();
    let mut i: usize = 0;
    assert(tokens.deep_view() =~= old(tokens).deep_view() + premise_list(all.take(0), span, site));
    while i < premises.len()
        invariant
            i <= premises.len(),
            all == premises.deep_view(),
            tokens.deep_view() == old(tokens).deep_view() + premise_list(
                all.take(i as int),
                span,
                site,
            ),
        decreases premises.len() - i,
    {
        if i > 0 {
            push_alone(tokens, ',', span);
        }
        premises[i].to_tokens(tokens, site);
        proof {
            assert(all.take(i + 1).drop_last() =~= all.take(i as int));
            assert(tokens.deep_view() =~= old(tokens).deep_view() + premise_list(
                all.take(i + 1),
                span,
                site,
            ));
        }
        i += 1;
    }
    assert(all.take(premises.len() as int) =~= all);
}

/// Appends the use of the helper struct on the subject of `leaf`.
fn push_helper_use(tokens: &mut Vec<Token>, leaf: &Predicate, params: &Vec<&GenericParam>)
    ensures
        final(tokens).deep_view() == old(tokens).deep_view() + helper_use(
            leaf@,
            params.deep_view(),
        ),
{
    let span = leaf.span;
    let ghost start = tokens.deep_view();
    push_word(tokens, "_HelperTy", span);
    push_path_sep(tokens, span);
    push_alone(tokens, '<', span);
    push_arguments(tokens, params, span);
    extend_tokens(tokens, &leaf.left_side);
    push_alone(tokens, '>', span);
    let mut values: Vec<Token> = Vec::new();
    push_marker_values(&mut values, params, span);
    push_phantom_data(&mut values, span);
    push_alone(&mut values, ',', span);
    assert(values.deep_view() =~= marker_values(params.deep_view(), span) + phantom_data(span)
        + seq![comma(span)]);
    push_group(tokens, Delimiter::Parenthesis, values, span);
    push_alone(tokens, ';', span);
    assert(tokens.deep_view() =~= start + helper_use(leaf@, params.deep_view()));
}

/// Appends the declaration of the helper struct of `leaf`.
fn push_helper_declaration(
    tokens: &mut Vec<Token>,
    leaf: &Predicate,
    params: &Vec<&GenericParam>,
    premises: &Vec<Predicate>,
    site: Span,
)
    ensures
        final(tokens).deep_view() == old(tokens).deep_view() + helper_declaration(
            leaf@,
            params.deep_view(),
            premises.deep_view(),
            site,
        ),
{
    let span = leaf.span;
    let ghost start = tokens.deep_view();
    push_word(tokens, "struct", span);
    push_word(tokens, "_HelperTy", span);
    push_alone(tokens, '<', span);
    push_declarations(tokens, params, span);
    push_word(tokens, "_AssertTy", span);
    push_alone(tokens, ':', span);
    let ghost before_bound = tokens.deep_view();
    if leaf.unsized_left_side {
        push_alone(tokens, '?', site);
        push_word(tokens, "Sized", site);
        push_alone(tokens, '+', site);
    }
    extend_tokens(tokens, &leaf.bound);
    assert(tokens.deep_view() =~= before_bound + checked_bound(leaf@, site));
    push_alone(tokens, '>', span);
    let mut fields: Vec<Token> = Vec::new();
    push_marker_fields(&mut fields, params, span);
    push_phantom_data(&mut fields, span);
    push_alone(&mut fields, '<', span);
    push_word(&mut fields, "_AssertTy", span);
    push_alone(&mut fields, '>', span);
    push_alone(&mut fields, ',', span);
    assert(fields.deep_view() =~= marker_fields(params.deep_view(), span) + phantom_data(span)
        + angled(seq![word("_AssertTy"@, span)], span) + seq![comma(span)]);
    push_group(tokens, Delimiter::Parenthesis, fields, span);
    push_word(tokens, "where", span);
    push_premise_list(tokens, premises, span, site);
    push_alone(tokens, ';', span);
    assert(tokens.deep_view() =~= start + helper_declaration(
        leaf@,
        params.deep_view(),
        premises.deep_view(),
        site,
    ));
}

/// Appends the check of `leaf` under `params` and `premises`.
fn push_check(
    tokens: &mut Vec<Token>,
    leaf: &Predicate,
    params: &Vec<&GenericParam>,
    premises: &Vec<Predicate>,
    site: Span,
)
    ensures
        final(tokens).deep_view() == old(tokens).deep_view().push(
            check(leaf@, params.deep_view(), premises.deep_view(), site),
        ),
{
    let mut body: Vec<Token> = Vec::new();
    push_helper_use(&mut body, leaf, params);
    push_helper_declaration(&mut body, leaf, params, premises, site);
    assert(body.deep_view() =~= helper_use(leaf@, params.deep_view()) + helper_declaration(
        leaf@,
        params.deep_view(),
        premises.deep_view(),
        site,
    ));
    push_group(tokens, Delimiter::Brace, body, leaf.span);
}

/// Appends the code of the scope with the parameters `params`, the premises
/// `premises` and the leaves `leaves`.
fn push_scope(
    tokens: &mut Vec<Token>,
    params: &Vec<&GenericParam>,
    premises: &Vec<Predicate>,
    leaves: &Vec<Predicate>,
    site: Span,
)
    ensures
        final(tokens).deep_view() == old(tokens).deep_view() + scope_tokens(
            Scope {
                generic_params: params.deep_view(),
                where_predicates: premises.deep_view(),
                predicates: leaves.deep_view(),
            },
            site,
        ),
{
    let ghost scope = Scope {
        generic_params: params.deep_view(),
        where_predicates: premises.deep_view(),
        predicates: leaves.deep_view(),
    };
    let mut context_tokens: Vec<Token> = Vec::new();
    let mut i: usize = 0;
    assert(context_tokens.deep_view() =~= checks(
        scope.predicates.take(0),
        scope.generic_params,
        scope.where_predicates,
        site,
    ));
    while i < leaves.len()
        invariant
            i <= leaves.len(),
            scope.generic_params == params.deep_view(),
            scope.where_predicates == premises.deep_view(),
            scope.predicates == leaves.deep_view(),
            context_tokens.deep_view() == checks(
                scope.predicates.take(i as int),
                scope.generic_params,
                scope.where_predicates,
                site,
            ),
        decreases leaves.len() - i,
    {
        push_check(&mut context_tokens, &leaves[i], params, premises, site);
        proof {
            assert(scope.predicates.take(i + 1).drop_last() =~= scope.predicates.take(i as int));
        }
        i += 1;
    }
    assert(scope.predicates.take(leaves.len() as int) =~= scope.predicates);

    let mut lint: Vec<Token> = Vec::new();
    push_word(&mut lint, "clippy", site);
    push_path_sep(&mut lint, site);
    push_word(&mut lint, "all", site);
    assert(lint.deep_view() =~= seq![word("clippy"@, site)] + path_sep(site) + seq![
        word("all"@, site),
    ]);
    let mut attribute: Vec<Token> = Vec::new();
    push_word(&mut attribute, "allow", site);
    push_group(&mut attribute, Delimiter::Parenthesis, lint, site);
    assert(attribute.deep_view() =~= seq![
        word("allow"@, site),
        TokenView::group(
            Delimiter::Parenthesis,
            seq![word("clippy"@, site)] + path_sep(site) + seq![word("all"@, site)],
            site,
        ),
    ]);

    let mut function: Vec<Token> = Vec::new();
    push_word(&mut function, "fn", site);
    push_word(&mut function, "_context", site);
    push_alone(&mut function, '<', site);
    push_declaration_list(&mut function, params, site);
    push_alone(&mut function, '>', site);
    let arguments: Vec<Token> = Vec::new();
    assert(arguments.deep_view() =~= Seq::empty());
    push_group(&mut function, Delimiter::Parenthesis, arguments, site);
    push_word(&mut function, "where", site);
    push_premise_list(&mut function, premises, site, site);
    push_group(&mut function, Delimiter::Brace, context_tokens, site);
    assert(function.deep_view() =~= seq![word("fn"@, site), word("_context"@, site)] + angled(
        declaration_list(scope.generic_params, site),
        site,
    ) + seq![
        TokenView::group(Delimiter::Parenthesis, Seq::empty(), site),
        word("where"@, site),
    ] + premise_list(scope.where_predicates, site, site) + seq![
        TokenView::group(
            Delimiter::Brace,
            checks(scope.predicates, scope.generic_params, scope.where_predicates, site),
            site,
        ),
    ]);

    let ghost start = tokens.deep_view();
    push_alone(tokens, '#', site);
    push_group(tokens, Delimiter::Bracket, attribute, site);
    push_word(tokens, "const", site);
    push_word(tokens, "_", site);
    push_alone(tokens, ':', site);
    let unit: Vec<Token> = Vec::new();
    assert(unit.deep_view() =~= Seq::empty());
    push_group(tokens, Delimiter::Parenthesis, unit, site);
    push_alone(tokens, '=', site);
    push_group(tokens, Delimiter::Brace, function, site);
    push_alone(tokens, ';', site);
    assert(tokens.deep_view() =~= start + scope_tokens(scope, site));
}

/// Whether `left` must stand behind `right` in a parameter list.
fn must_follow(left: &GenericParam, right: &GenericParam) -> (follows: bool)
    ensures
        follows == (!left.is_lifetime && right.is_lifetime),
{
    match left.list_cmp(right) {
        Ordering::Greater => true,
        _ => false,
    }
}

/// The parameters in the order in which they can be declared: sorted by
/// `list_cmp`, and two parameters that compare equal stay in their order.
fn sort_params<'a>(params: Vec<&'a GenericParam>) -> (sorted: Vec<&'a GenericParam>)
    ensures
        sorted.deep_view() == lifetimes_first(params.deep_view()),
{
    let ghost all = params.deep_view();
    let mut sorted: Vec<&'a GenericParam> = Vec::new();
    let mut i: usize = 0;
    assert(sorted.deep_view() =~= lifetimes_first(all.take(0)));
    while i < params.len()
        invariant
            i <= params.len(),
            all == params.deep_view(),
            sorted.deep_view() == lifetimes_first(all.take(i as int)),
        decreases params.len() - i,
    {
        let param = params[i];
        let ghost done = all.take(i as int);
        let ghost before = sorted.deep_view();
        proof {
            lemma_of_kind(done, true);
            lemma_of_kind(done, false);
            assert(all.take(i + 1).drop_last() =~= done);
        }
        let mut at: usize = sorted.len();
        while at > 0 && must_follow(sorted[at - 1], param)
            invariant
                at <= sorted.len(),
                sorted.deep_view() == before,
                before == of_kind(done, true) + of_kind(done, false),
                param@ == all[i as int],
                forall|k: int| 0 <= k < of_kind(done, true).len() ==> (#[trigger] of_kind(
                    done,
                    true,
                )[k]).is_lifetime,
                forall|k: int| 0 <= k < of_kind(done, false).len() ==> !(#[trigger] of_kind(
                    done,
                    false,
                )[k]).is_lifetime,
                param.is_lifetime ==> of_kind(done, true).len() <= at,
                !param.is_lifetime ==> at == sorted.len(),
            decreases at,
        {
            proof {
                assert(sorted[at - 1]@ == before[at - 1]);
                if at - 1 < of_kind(done, true).len() {
                    assert(before[at - 1] == of_kind(done, true)[at - 1]);
                }
            }
            at -= 1;
        }
        proof {
            if param.is_lifetime && at > of_kind(done, true).len() {
                assert(sorted[at - 1]@ == before[at - 1]);
                assert(before[at - 1] == of_kind(done, false)[at - 1 - of_kind(
                    done,
                    true,
                ).len()]);
            }
        }
        sorted.insert(at, param);
        proof {
            assert(sorted.deep_view() =~= before.insert(at as int, param@));
            assert(sorted.deep_view() =~= lifetimes_first(all.take(i + 1)));
        }
        i += 1;
    }
    assert(all.take(params.len() as int) =~= all);
    sorted
}

/// The parameters `outer`, then those of `inner`.
fn chain_params<'a>(outer: &Vec<&'a GenericParam>, inner: &'a Vec<GenericParam>) -> (chained: Vec<
    &'a GenericParam,
>)
    ensures
        chained.deep_view() == outer.deep_view() + inner.deep_view(),
{
    let mut chained: Vec<&'a GenericParam> = Vec::new();
    let mut i: usize = 0;
    while i < outer.len()
        invariant
            i <= outer.len(),
            chained.deep_view() == outer.deep_view().take(i as int),
        decreases outer.len() - i,
    {
        let ghost before = chained.deep_view();
        chained.push(outer[i]);
        assert(chained.deep_view() =~= before.push(outer[i as int].deep_view()));
        assert(before.push(outer[i as int].deep_view()) =~= outer.deep_view().take(i + 1));
        i += 1;
    }
    let mut j: usize = 0;
    assert(chained.deep_view() =~= outer.deep_view() + inner.deep_view().take(0));
    while j < inner.len()
        invariant
            j <= inner.len(),
            chained.deep_view() == outer.deep_view() + inner.deep_view().take(j as int),
        decreases inner.len() - j,
    {
        let ghost before = chained.deep_view();
        chained.push(&inner[j]);
        assert(chained.deep_view() =~= before.push(inner[j as int]@));
        assert(before.push(inner[j as int]@) =~= outer.deep_view() + inner.deep_view().take(
            j + 1,
        ));
        j += 1;
    }
    assert(inner.deep_view().take(inner.len() as int) =~= inner.deep_view());
    chained
}

/// Appends to `tokens` the code of `trees` under the parameters
/// `generic_params` and the premises `where_predicates`: the code of every
/// scope below `trees`, and last the code of the scope of `trees` itself.
///
/// The premises are left as they were found.
pub fn push_trees(
    trees: Vec<PredicateTree>,
    generic_params: Vec<&GenericParam>,
    where_predicates: &mut Vec<Predicate>,
    tokens: &mut Vec<Token>,
    site: Span,
)
    ensures
        final(where_predicates)@ == old(where_predicates)@,
        final(tokens).deep_view() == old(tokens).deep_view() + scopes_tokens(
            scopes(
                trees.deep_view(),
                generic_params.deep_view(),
                old(where_predicates).deep_view(),
            ),
            site,
        ),
    decreases trees.deep_view(), 1int,
{
    let ghost groups = group_scopes(
        trees.deep_view(),
        generic_params.deep_view(),
        where_predicates.deep_view(),
    );
    let ghost params = generic_params.deep_view();
    let predicates = push_groups(trees, &generic_params, where_predicates, tokens, site);
    let generic_params = sort_params(generic_params);
    push_scope(tokens, &generic_params, where_predicates, &predicates, site);
    proof {
        let scope = Scope {
            generic_params: lifetimes_first(params),
            where_predicates: where_predicates.deep_view(),
            predicates: predicates.deep_view(),
        };
        assert(groups.push(scope).drop_last() =~= groups);
    }
}

/// Appends to `tokens` the code of the groups among `trees`, each under the
/// parameters and premises in force with its own added, and returns the
/// leaves among `trees`.
///
/// The premises are left as they were found.
pub fn push_groups(
    trees: Vec<PredicateTree>,
    generic_params: &Vec<&GenericParam>,
    where_predicates: &mut Vec<Predicate>,
    tokens: &mut Vec<Token>,
    site: Span,
) -> (predicates: Vec<Predicate>)
    ensures
        predicates.deep_view() == leaves(trees.deep_view()),
        final(where_predicates)@ == old(where_predicates)@,
        final(tokens).deep_view() == old(tokens).deep_view() + scopes_tokens(
            group_scopes(
                trees.deep_view(),
                generic_params.deep_view(),
                old(where_predicates).deep_view(),
            ),
            site,
        ),
    decreases trees.deep_view(), 0int,
{
    let ghost all = trees.deep_view();
    let ghost params = generic_params.deep_view();
    let ghost premises = where_predicates.deep_view();
    let mut predicates: Vec<Predicate> = Vec::with_capacity(trees.len());
    proof {
        assert(predicates.deep_view() =~= leaves(all.take(0)));
        assert(tokens.deep_view() =~= old(tokens).deep_view() + scopes_tokens(
            group_scopes(all.take(0), params, premises),
            site,
        ));
    }
    for tree in it: trees
        invariant
            all == trees.deep_view(),
            params == generic_params.deep_view(),
            premises == old(where_predicates).deep_view(),
            it.seq().len() == all.len(),
            forall|j: int| 0 <= j < all.len() ==> (#[trigger] it.seq()[j])@ == all[j],
            predicates.deep_view() == leaves(all.take(it.index() as int)),
            where_predicates@ == old(where_predicates)@,
            tokens.deep_view() == old(tokens).deep_view() + scopes_tokens(
                group_scopes(all.take(it.index() as int), params, premises),
                site,
            ),
    {
        let ghost i = it.index() as int;
        let ghost leaves_before = predicates.deep_view();
        let ghost tokens_before = tokens.deep_view();
        proof {
            assert(all.take(i + 1).drop_last() =~= all.take(i));
            assert(tree@ == all[i]);
        }
        match tree {
            PredicateTree::Group(group) => {
                proof {
                    lemma_group_tree_view(group);
                    assert(decreases_to!(all => all[i]));
                    assert(decreases_to!(all[i] => all[i]->Group_0));
                    assert(decreases_to!(all[i]->Group_0 => all[i]->Group_0.predicates));
                }
                let PredicateGroup {
                    generic_params: group_params,
                    where_predicates: mut group_premises,
                    predicates: group_predicates,
                } = group;
                let inner_params = chain_params(generic_params, &group_params);
                let premise_count = where_predicates.len();
                where_predicates.append(&mut group_premises);
                proof {
                    assert(where_predicates.deep_view() =~= premises
                        + group@.where_predicates);
                }
                push_trees(group_predicates, inner_params, where_predicates, tokens, site);
                where_predicates.truncate(premise_count);
                proof {
                    assert(where_predicates@ =~= old(where_predicates)@);
                    lemma_scopes_tokens_add(
                        group_scopes(all.take(i), params, premises),
                        scopes(
                            group@.predicates,
                            params + group@.generic_params,
                            premises + group@.where_predicates,
                        ),
                        site,
                    );
                    assert(tokens.deep_view() =~= old(tokens).deep_view() + scopes_tokens(
                        group_scopes(all.take(i + 1), params, premises),
                        site,
                    ));
                }
            },
            PredicateTree::Predicate(predicate) => {
                predicates.push(predicate);
                proof {
                    assert(predicates.deep_view() =~= leaves_before.push(predicate@));
                    assert(group_scopes(all.take(i + 1), params, premises) =~= group_scopes(
                        all.take(i),
                        params,
                        premises,
                    ));
                }
            },
        }
    }
    proof {
        assert(all.take(all.len() as int) =~= all);
    }
    predicates
}

/// The span of the call of the macro that is being expanded.
///
/// Calls `proc_macro2::Span::call_site`. Nothing is claimed of the span
/// that comes back: it depends on where the macro was called.
#[verifier::external_body]
fn call_site() -> Span {
    Span::call_site()
}

/// Expands the assertions `tokens` of a macro call at `site`: the code that
/// checks every assertion that could be parsed, and behind it the code that
/// reports every diagnostic.
pub fn expand(tokens: Vec<Token>, site: Span) -> (code: Vec<Token>)
    ensures
        code.deep_view() == expansion(tokens.deep_view(), site),
{
    let mut result: Vec<Token> = Vec::new();
    let mut errors: Vec<Error> = Vec::new();
    let mut where_predicates: Vec<Predicate> = Vec::new();
    let generic_params: Vec<&GenericParam> = Vec::new();
    let trees = parse_predicate_list(tokens, site, &mut errors);
    proof {
        assert(errors.deep_view() =~= crate::grammar::predicate_list(
            tokens.deep_view(),
            site,
        ).errors);
        assert(generic_params.deep_view() =~= Seq::empty());
        assert(where_predicates.deep_view() =~= Seq::empty());
    }
    push_trees(trees, generic_params, &mut where_predicates, &mut result, site);
    let ghost code = result.deep_view();
    let ghost all = errors.deep_view();
    let mut i: usize = 0;
    proof {
        assert(code =~= Seq::empty() + code);
        assert(result.deep_view() =~= code + directives(all.take(0), site));
    }
    while i < errors.len()
        invariant
            i <= errors.len(),
            all == errors.deep_view(),
            result.deep_view() == code + directives(all.take(i as int), site),
        decreases errors.len() - i,
    {
        errors[i].to_tokens(&mut result, site);
        proof {
            assert(all.take(i + 1).drop_last() =~= all.take(i as int));
            assert(result.deep_view() =~= code + directives(all.take(i + 1), site));
        }
        i += 1;
    }
    assert(all.take(errors.len() as int) =~= all);
    result
}

/// Expands the assertions `tokens` of the macro call that is under way.
pub fn main(tokens: Vec<Token>) -> (code: Vec<Token>)
    ensures
        exists|site: Span| code.deep_view() == expansion(tokens.deep_view(), site),
{
    expand(tokens, call_site())
}

} // verus!
