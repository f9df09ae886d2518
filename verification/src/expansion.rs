//! The code that an assertion tree expands to, as functions from the tree
//! to sequences of tokens.
//!
//! Every level of the tree, the top and each group, gives a *scope*: the
//! parameters and premises that are in force there, and the leaves that stand
//! directly in it. A scope becomes one generic function with the parameters
//! and premises of the scope; in its body each leaf becomes one *check*: a
//! helper struct whose last parameter is bounded by the leaf's bound, together
//! with one use of that struct on the leaf's subject. The compiler accepts the
//! use if and only if the subject meets the bound.
//!
//! `site` is the span of the macro call. Tokens of a check carry the span of
//! its leaf, so that a failed check is reported at the leaf.

use crate::grammar::predicate_list;
use crate::token::{Delimiter, TokenView};
use crate::types::{ErrorView, GenericParamView, PredicateTreeView, PredicateView};
use proc_macro2::Span;
use vstd::prelude::*;

verus! {

/// The word `name`.
pub open spec fn word(name: Seq<char>, span: Span) -> TokenView {
    TokenView::ident(name, span)
}

/// The character `,`.
pub open spec fn comma(span: Span) -> TokenView {
    TokenView::alone(',', span)
}

/// The path separator `::`.
pub open spec fn path_sep(span: Span) -> Seq<TokenView> {
    seq![TokenView::joint(':', span), TokenView::alone(':', span)]
}

/// The path `::core::marker::PhantomData`.
pub open spec fn phantom_data(span: Span) -> Seq<TokenView> {
    path_sep(span) + seq![word("core"@, span)] + path_sep(span) + seq![word("marker"@, span)]
        + path_sep(span) + seq![word("PhantomData"@, span)]
}

/// The tokens in angle brackets.
pub open spec fn angled(tokens: Seq<TokenView>, span: Span) -> Seq<TokenView> {
    seq![TokenView::alone('<', span)] + tokens + seq![TokenView::alone('>', span)]
}

/// The tokens of a predicate: subject, `:`, bound.
pub open spec fn predicate_tokens(predicate: PredicateView, site: Span) -> Seq<TokenView> {
    predicate.left_side + seq![TokenView::alone(':', site)] + predicate.bound
}

/// The parameters with the lifetimes (`lifetime` holds) or with all others
/// (it does not), in their order.
pub open spec fn of_kind(params: Seq<GenericParamView>, lifetime: bool) -> Seq<GenericParamView>
    decreases params.len(),
{
    if params.len() == 0 {
        Seq::empty()
    } else if params.last().is_lifetime == lifetime {
        of_kind(params.drop_last(), lifetime).push(params.last())
    } else {
        of_kind(params.drop_last(), lifetime)
    }
}

/// In a run of parameters of one kind, every parameter is of that kind.
pub proof fn lemma_of_kind(params: Seq<GenericParamView>, lifetime: bool)
    ensures
        forall|i: int|
            0 <= i < of_kind(params, lifetime).len() ==> (#[trigger] of_kind(
                params,
                lifetime,
            )[i]).is_lifetime == lifetime,
    decreases params.len(),
{
    if params.len() > 0 {
        lemma_of_kind(params.drop_last(), lifetime);
        assert forall|i: int| 0 <= i < of_kind(params, lifetime).len() implies (#[trigger] of_kind(
            params,
            lifetime,
        )[i]).is_lifetime == lifetime by {
            if i < of_kind(params.drop_last(), lifetime).len() {
                assert(of_kind(params, lifetime)[i] == of_kind(params.drop_last(), lifetime)[i]);
            }
        }
    }
}

/// The parameters in the order in which they can be declared: the lifetimes
/// first, then the others, each kind in the order it had.
pub open spec fn lifetimes_first(params: Seq<GenericParamView>) -> Seq<GenericParamView> {
    of_kind(params, true) + of_kind(params, false)
}

/// The name of every parameter as an argument, each followed by `,`.
pub open spec fn arguments(params: Seq<GenericParamView>, span: Span) -> Seq<TokenView>
    decreases params.len(),
{
    if params.len() == 0 {
        Seq::empty()
    } else {
        arguments(params.drop_last(), span) + params.last().inline_arg + seq![comma(span)]
    }
}

/// One `PhantomData` value for every parameter, of the parameter's marker
/// type, each followed by `,`.
pub open spec fn marker_values(params: Seq<GenericParamView>, span: Span) -> Seq<TokenView>
    decreases params.len(),
{
    if params.len() == 0 {
        Seq::empty()
    } else {
        marker_values(params.drop_last(), span) + phantom_data(span) + path_sep(span) + angled(
            params.last().marker_type,
            span,
        ) + seq![comma(span)]
    }
}

/// One `PhantomData` field for every parameter, of the parameter's marker
/// type, each followed by `,`.
pub open spec fn marker_fields(params: Seq<GenericParamView>, span: Span) -> Seq<TokenView>
    decreases params.len(),
{
    if params.len() == 0 {
        Seq::empty()
    } else {
        marker_fields(params.drop_last(), span) + phantom_data(span) + angled(
            params.last().marker_type,
            span,
        ) + seq![comma(span)]
    }
}

/// The declaration of every parameter, each followed by `,`.
pub open spec fn declarations(params: Seq<GenericParamView>, span: Span) -> Seq<TokenView>
    decreases params.len(),
{
    if params.len() == 0 {
        Seq::empty()
    } else {
        declarations(params.drop_last(), span) + params.last().tokens + seq![comma(span)]
    }
}

/// The declaration of every parameter, with `,` between two of them.
pub open spec fn declaration_list(params: Seq<GenericParamView>, span: Span) -> Seq<TokenView>
    decreases params.len(),
{
    if params.len() == 0 {
        Seq::empty()
    } else if params.len() == 1 {
        params[0].tokens
    } else {
        declaration_list(params.drop_last(), span) + seq![comma(span)] + params.last().tokens
    }
}

/// The premises, with `,` between two of them.
pub open spec fn premise_list(premises: Seq<PredicateView>, span: Span, site: Span) -> Seq<
    TokenView,
>
    decreases premises.len(),
{
    if premises.len() == 0 {
        Seq::empty()
    } else if premises.len() == 1 {
        predicate_tokens(premises[0], site)
    } else {
        premise_list(premises.drop_last(), span, site) + seq![comma(span)] + predicate_tokens(
            premises.last(),
            site,
        )
    }
}

/// The use of the helper struct on the subject of `leaf`:
///
/// ```text
/// _HelperTy::<Args, Subject>(Markers, ::core::marker::PhantomData,);
/// ```
pub open spec fn helper_use(leaf: PredicateView, params: Seq<GenericParamView>) -> Seq<TokenView> {
    let span = leaf.span;
    seq![word("_HelperTy"@, span)] + path_sep(span) + angled(
        arguments(params, span) + leaf.left_side,
        span,
    ) + seq![
        TokenView::group(
            Delimiter::Parenthesis,
            marker_values(params, span) + phantom_data(span) + seq![comma(span)],
            span,
        ),
        TokenView::alone(';', span),
    ]
}

/// What widens the bound of the checked parameter for a subject that may be
/// unsized: `?Sized +`, or nothing.
pub open spec fn unsized_prefix(leaf: PredicateView, site: Span) -> Seq<TokenView> {
    if leaf.unsized_left_side {
        seq![TokenView::alone('?', site), word("Sized"@, site), TokenView::alone('+', site)]
    } else {
        Seq::empty()
    }
}

/// The bound of the checked parameter of the helper struct of `leaf`.
pub open spec fn checked_bound(leaf: PredicateView, site: Span) -> Seq<TokenView> {
    unsized_prefix(leaf, site) + leaf.bound
}

/// The declaration of the helper struct of `leaf`:
///
/// ```text
/// struct _HelperTy<Params, _AssertTy: Bound>(Fields, ::core::marker::PhantomData<_AssertTy>,)
/// where Premises;
/// ```
pub open spec fn helper_declaration(
    leaf: PredicateView,
    params: Seq<GenericParamView>,
    premises: Seq<PredicateView>,
    site: Span,
) -> Seq<TokenView> {
    let span = leaf.span;
    seq![word("struct"@, span), word("_HelperTy"@, span)] + angled(
        declarations(params, span) + seq![word("_AssertTy"@, span), TokenView::alone(':', span)]
            + checked_bound(leaf, site),
        span,
    ) + seq![
        TokenView::group(
            Delimiter::Parenthesis,
            marker_fields(params, span) + phantom_data(span) + angled(
                seq![word("_AssertTy"@, span)],
                span,
            ) + seq![comma(span)],
            span,
        ),
        word("where"@, span),
    ] + premise_list(premises, span, site) + seq![TokenView::alone(';', span)]
}

/// The check of `leaf` under `params` and `premises`: one block that holds
/// the use of the helper struct and its declaration.
pub open spec fn check(
    leaf: PredicateView,
    params: Seq<GenericParamView>,
    premises: Seq<PredicateView>,
    site: Span,
) -> TokenView {
    TokenView::group(
        Delimiter::Brace,
        helper_use(leaf, params) + helper_declaration(leaf, params, premises, site),
        leaf.span,
    )
}

/// The checks of `leaves`, in their order.
pub open spec fn checks(
    leaves: Seq<PredicateView>,
    params: Seq<GenericParamView>,
    premises: Seq<PredicateView>,
    site: Span,
) -> Seq<TokenView>
    decreases leaves.len(),
{
    if leaves.len() == 0 {
        Seq::empty()
    } else {
        checks(leaves.drop_last(), params, premises, site).push(
            check(leaves.last(), params, premises, site),
        )
    }
}

/// One level of the tree: the parameters and premises in force, and the
/// leaves that are checked under them.
pub ghost struct Scope {
    /// The parameters, in the order in which they are declared.
    pub generic_params: Seq<GenericParamView>,
    pub where_predicates: Seq<PredicateView>,
    pub predicates: Seq<PredicateView>,
}

/// The code of a scope: an unnamed constant that holds a function with the
/// scope's parameters and premises, whose body holds the checks.
///
/// ```text
/// #[allow(clippy::all)]
/// const _: () = {
///     fn _context<Params>() where Premises { Checks }
/// };
/// ```
pub open spec fn scope_tokens(scope: Scope, site: Span) -> Seq<TokenView> {
    seq![
        TokenView::alone('#', site),
        TokenView::group(
            Delimiter::Bracket,
            seq![
                word("allow"@, site),
                TokenView::group(
                    Delimiter::Parenthesis,
                    seq![word("clippy"@, site)] + path_sep(site) + seq![word("all"@, site)],
                    site,
                ),
            ],
            site,
        ),
        word("const"@, site),
        word("_"@, site),
        TokenView::alone(':', site),
        TokenView::group(Delimiter::Parenthesis, Seq::empty(), site),
        TokenView::alone('=', site),
        TokenView::group(
            Delimiter::Brace,
            seq![word("fn"@, site), word("_context"@, site)] + angled(
                declaration_list(scope.generic_params, site),
                site,
            ) + seq![
                TokenView::group(Delimiter::Parenthesis, Seq::empty(), site),
                word("where"@, site),
            ] + premise_list(scope.where_predicates, site, site) + seq![
                TokenView::group(
                    Delimiter::Brace,
                    checks(
                        scope.predicates,
                        scope.generic_params,
                        scope.where_predicates,
                        site,
                    ),
                    site,
                ),
            ],
            site,
        ),
        TokenView::alone(';', site),
    ]
}

/// The leaves that stand directly in `trees`, in their order.
pub open spec fn leaves(trees: Seq<PredicateTreeView>) -> Seq<PredicateView>
    decreases trees.len(),
{
    if trees.len() == 0 {
        Seq::empty()
    } else {
        match trees.last() {
            PredicateTreeView::Predicate(leaf) => leaves(trees.drop_last()).push(leaf),
            PredicateTreeView::Group(_) => leaves(trees.drop_last()),
        }
    }
}

/// The scopes of `trees` under the parameters `params` and the premises
/// `premises`: those of the groups among `trees`, in their order, and last
/// the scope of `trees` itself.
pub open spec fn scopes(
    trees: Seq<PredicateTreeView>,
    params: Seq<GenericParamView>,
    premises: Seq<PredicateView>,
) -> Seq<Scope>
    decreases trees, 1int,
{
    group_scopes(trees, params, premises).push(
        Scope {
            generic_params: lifetimes_first(params),
            where_predicates: premises,
            predicates: leaves(trees),
        },
    )
}

/// The scopes of the groups among `trees`, in their order. A group adds
/// its parameters and its premises to those that it stands under.
pub open spec fn group_scopes(
    trees: Seq<PredicateTreeView>,
    params: Seq<GenericParamView>,
    premises: Seq<PredicateView>,
) -> Seq<Scope>
    decreases trees, 0int,
{
    if trees.len() == 0 {
        Seq::empty()
    } else {
        group_scopes(trees.drop_last(), params, premises) + match trees.last() {
            PredicateTreeView::Group(group) => scopes(
                group.predicates,
                params + group.generic_params,
                premises + group.where_predicates,
            ),
            PredicateTreeView::Predicate(_) => Seq::empty(),
        }
    }
}

/// The code of `scopes`, one after another.
pub open spec fn scopes_tokens(scopes: Seq<Scope>, site: Span) -> Seq<TokenView>
    decreases scopes.len(),
{
    if scopes.len() == 0 {
        Seq::empty()
    } else {
        scopes_tokens(scopes.drop_last(), site) + scope_tokens(scopes.last(), site)
    }
}

/// The code that reports the diagnostic `error` when it is compiled:
/// `compile_error!("message");`, anchored at the diagnostic's span.
pub open spec fn directive(error: ErrorView, site: Span) -> Seq<TokenView> {
    seq![
        word("compile_error"@, error.span),
        TokenView::alone('!', error.span),
        TokenView::group(
            Delimiter::Parenthesis,
            seq![TokenView::Str { value: error.message, span: site }],
            error.span,
        ),
        TokenView::alone(';', error.span),
    ]
}

/// The code that reports `errors`, one after another.
pub open spec fn directives(errors: Seq<ErrorView>, site: Span) -> Seq<TokenView>
    decreases errors.len(),
{
    if errors.len() == 0 {
        Seq::empty()
    } else {
        directives(errors.drop_last(), site) + directive(errors.last(), site)
    }
}

/// What the assertions `tokens` expand to: the code of every scope of the
/// forest that they parse to, the top last, and behind it the code that
/// reports the diagnostics of the parse.
pub open spec fn expansion(tokens: Seq<TokenView>, site: Span) -> Seq<TokenView> {
    let parsed = predicate_list(tokens, site);
    scopes_tokens(scopes(parsed.trees, Seq::empty(), Seq::empty()), site) + directives(
        parsed.errors,
        site,
    )
}

/// The code of two runs of scopes is the code of the first and the code of
/// the second.
pub proof fn lemma_scopes_tokens_add(first: Seq<Scope>, second: Seq<Scope>, site: Span)
    ensures
        scopes_tokens(first + second, site) == scopes_tokens(first, site) + scopes_tokens(
            second,
            site,
        ),
    decreases second.len(),
{
    if second.len() == 0 {
        assert(first + second =~= first);
        assert(scopes_tokens(first, site) + scopes_tokens(second, site) =~= scopes_tokens(
            first,
            site,
        ));
    } else {
        lemma_scopes_tokens_add(first, second.drop_last(), site);
        assert((first + second).drop_last() =~= first + second.drop_last());
        assert(scopes_tokens(first + second, site) =~= scopes_tokens(first, site)
            + scopes_tokens(second, site));
    }
}

} // verus!
