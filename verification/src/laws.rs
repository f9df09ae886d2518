//! What holds of the parser and of the generator on every input.

use crate::expansion::{
    check, checked_bound, checks, directives, expansion, group_scopes, leaves, lemma_of_kind,
    lifetimes_first, of_kind, scope_tokens, scopes, scopes_tokens, unsized_prefix, word, Scope,
};
use crate::grammar::{
    angle_params, ends_type_expr, expected_comma, expected_type_expr,
    first_misplaced_lifetime, group_head, ident_at, leaf, lemma_leaf_bound,
    lemma_predicate_list_step, lemma_type_expr_len_bound, lifetimes_first_message,
    misplaced_lifetime, node, order_errors, predicate_list, punct_at, scoped_head,
    type_expr_len, Parsed,
};
use crate::token::TokenView;
use crate::types::{
    list_order, ErrorView, GenericParamView, PredicateGroupView, PredicateTreeView,
    PredicateView,
};
use core::cmp::Ordering;
use proc_macro2::Span;
use vstd::prelude::*;

verus! {

/// A type expression that ends before the last token ends outside angle
/// brackets, before a token that ends type expressions and is not the first
/// half of a `::`.
pub proof fn lemma_type_expr_end(tokens: Seq<TokenView>, depth: nat)
    ensures
        ({
            let n = type_expr_len(tokens, depth);
            n < tokens.len() ==> ends_type_expr(tokens[n]) && !(punct_at(tokens, n, ':')
                && punct_at(tokens, n + 1, ':'))
        }),
    decreases tokens.len(),
{
    lemma_type_expr_len_bound(tokens, depth);
    if tokens.len() == 0 {
    } else if depth == 0 && punct_at(tokens, 0, ':') && punct_at(tokens, 1, ':') {
        lemma_type_expr_end(tokens.skip(2), depth);
        lemma_type_expr_len_bound(tokens.skip(2), depth);
    } else if depth == 0 && ends_type_expr(tokens[0]) {
    } else {
        let after = crate::grammar::depth_after(depth, tokens[0]);
        lemma_type_expr_end(tokens.skip(1), after);
        lemma_type_expr_len_bound(tokens.skip(1), after);
    }
}

/// No type expression starts with a token that ends type expressions, unless
/// it starts with `::`.
pub proof fn lemma_no_type_expr(tokens: Seq<TokenView>)
    requires
        tokens.len() > 0,
        ends_type_expr(tokens[0]),
        !(punct_at(tokens, 0, ':') && punct_at(tokens, 1, ':')),
    ensures
        type_expr_len(tokens, 0) == 0,
{
}

/// The token behind a leaf, if there is one, ends type expressions, and is no
/// start of a `::`.
pub proof fn lemma_leaf_end(tokens: Seq<TokenView>, site: Span)
    ensures
        leaf(tokens, site) matches Ok((_, n)) ==> n < tokens.len() ==> ends_type_expr(tokens[n])
            && !(punct_at(tokens, n, ':') && punct_at(tokens, n + 1, ':')),
{
    lemma_leaf_bound(tokens, site);
    if let Ok((_, n)) = leaf(tokens, site) {
        let subject = type_expr_len(tokens, 0);
        let rest = tokens.skip(subject + 1);
        lemma_type_expr_end(rest, 0);
        lemma_type_expr_len_bound(rest, 0);
    }
}

/// A list that is one leaf, with or without a `,` behind it, parses to that
/// leaf without a diagnostic.
pub proof fn law_single_leaf(tokens: Seq<TokenView>, site: Span)
    requires
        !ident_at(tokens, 0, "for"@),
        !ident_at(tokens, 0, "where"@),
        leaf(tokens, site) is Ok,
        ({
            let n = leaf(tokens, site)->Ok_0.1;
            n == tokens.len() || (n + 1 == tokens.len() && punct_at(tokens, n, ','))
        }),
    ensures
        predicate_list(tokens, site) == (Parsed {
            trees: seq![PredicateTreeView::Predicate(leaf(tokens, site)->Ok_0.0)],
            errors: Seq::empty(),
        }),
{
    lemma_leaf_bound(tokens, site);
    let n = leaf(tokens, site)->Ok_0.1;
    let step = crate::grammar::with_comma(tokens, n);
    lemma_predicate_list_step(tokens, site);
    lemma_predicate_list_step(tokens.skip(step), site);
    let parsed = predicate_list(tokens, site);
    assert(parsed.trees =~= seq![PredicateTreeView::Predicate(leaf(tokens, site)->Ok_0.0)]);
    assert(parsed.errors =~= Seq::empty());
}

/// The assertions that are one leaf, with or without a `,` behind it, expand
/// to one scope without parameters and without premises, whose one check is
/// that of the leaf, and to no code for diagnostics.
pub proof fn law_single_leaf_expansion(tokens: Seq<TokenView>, site: Span)
    requires
        !ident_at(tokens, 0, "for"@),
        !ident_at(tokens, 0, "where"@),
        leaf(tokens, site) is Ok,
        ({
            let n = leaf(tokens, site)->Ok_0.1;
            n == tokens.len() || (n + 1 == tokens.len() && punct_at(tokens, n, ','))
        }),
    ensures
        expansion(tokens, site) == scope_tokens(
            Scope {
                generic_params: Seq::empty(),
                where_predicates: Seq::empty(),
                predicates: seq![leaf(tokens, site)->Ok_0.0],
            },
            site,
        ),
        checks(seq![leaf(tokens, site)->Ok_0.0], Seq::empty(), Seq::empty(), site) == seq![
            check(leaf(tokens, site)->Ok_0.0, Seq::empty(), Seq::empty(), site),
        ],
{
    let found = leaf(tokens, site)->Ok_0.0;
    let scope = Scope {
        generic_params: Seq::empty(),
        where_predicates: Seq::empty(),
        predicates: seq![found],
    };
    law_single_leaf(tokens, site);
    law_single_leaf_scope(found, site);
    assert(directives(Seq::empty(), site) =~= Seq::empty());
    assert(seq![scope].drop_last() =~= Seq::empty());
    assert(scopes_tokens(Seq::empty(), site) =~= Seq::empty());
    assert(scopes_tokens(seq![scope], site) =~= scope_tokens(scope, site));
    assert(expansion(tokens, site) =~= scope_tokens(scope, site));
}

/// The checks of a run of leaves are as many as the leaves, and each is the
/// check of its leaf.
pub proof fn lemma_checks(
    leaves: Seq<PredicateView>,
    params: Seq<GenericParamView>,
    premises: Seq<PredicateView>,
    site: Span,
)
    ensures
        checks(leaves, params, premises, site).len() == leaves.len(),
        forall|i: int|
            0 <= i < leaves.len() ==> #[trigger] checks(leaves, params, premises, site)[i]
                == check(leaves[i], params, premises, site),
    decreases leaves.len(),
{
    if leaves.len() > 0 {
        lemma_checks(leaves.drop_last(), params, premises, site);
    }
}

/// A forest that is one leaf has one scope, without parameters and without
/// premises, and the scope has one check: that of the leaf.
pub proof fn law_single_leaf_scope(leaf: PredicateView, site: Span)
    ensures
        scopes(seq![PredicateTreeView::Predicate(leaf)], Seq::empty(), Seq::empty()) == seq![
            Scope {
                generic_params: Seq::empty(),
                where_predicates: Seq::empty(),
                predicates: seq![leaf],
            },
        ],
        checks(seq![leaf], Seq::empty(), Seq::empty(), site) == seq![
            check(leaf, Seq::empty(), Seq::empty(), site),
        ],
{
    let trees = seq![PredicateTreeView::Predicate(leaf)];
    let none = Seq::<PredicateTreeView>::empty();
    assert(trees.drop_last() =~= none);
    assert(leaves(none) =~= Seq::empty());
    assert(leaves(trees) =~= seq![leaf]);
    assert(group_scopes(none, Seq::empty(), Seq::empty()) =~= Seq::empty());
    assert(group_scopes(trees, Seq::empty(), Seq::empty()) =~= Seq::empty());
    assert(lifetimes_first(Seq::empty()) =~= Seq::empty());
    assert(scopes(trees, Seq::empty(), Seq::empty()) =~= seq![
        Scope {
            generic_params: Seq::empty(),
            where_predicates: Seq::empty(),
            predicates: seq![leaf],
        },
    ]);
    assert(seq![leaf].drop_last() =~= Seq::empty());
    assert(checks(Seq::empty(), Seq::empty(), Seq::empty(), site) =~= Seq::empty());
    assert(checks(seq![leaf], Seq::empty(), Seq::empty(), site) =~= seq![
        check(leaf, Seq::empty(), Seq::empty(), site),
    ]);
}

/// The scopes of the groups of two runs of trees are those of the first run
/// and those of the second: what a group gives depends on the group and on
/// what it stands under, never on the trees beside it.
pub proof fn law_siblings(
    first: Seq<PredicateTreeView>,
    second: Seq<PredicateTreeView>,
    params: Seq<GenericParamView>,
    premises: Seq<PredicateView>,
)
    ensures
        group_scopes(first + second, params, premises) == group_scopes(first, params, premises)
            + group_scopes(second, params, premises),
    decreases second.len(),
{
    if second.len() == 0 {
        assert(first + second =~= first);
        assert(group_scopes(first, params, premises) + group_scopes(second, params, premises)
            =~= group_scopes(first, params, premises));
    } else {
        law_siblings(first, second.drop_last(), params, premises);
        assert((first + second).drop_last() =~= first + second.drop_last());
        assert(group_scopes(first + second, params, premises) =~= group_scopes(
            first,
            params,
            premises,
        ) + group_scopes(second, params, premises));
    }
}

/// A group gives the scopes of its body under the parameters in force with
/// its own behind them and the premises in force with its own behind them.
/// The last of them is the scope of the body itself: it holds the leaves of
/// the body, with those parameters, lifetimes first, and those premises.
pub proof fn law_group_scope(
    group: PredicateGroupView,
    params: Seq<GenericParamView>,
    premises: Seq<PredicateView>,
)
    ensures
        group_scopes(seq![PredicateTreeView::Group(group)], params, premises) == scopes(
            group.predicates,
            params + group.generic_params,
            premises + group.where_predicates,
        ),
        scopes(
            group.predicates,
            params + group.generic_params,
            premises + group.where_predicates,
        ).last() == (Scope {
            generic_params: lifetimes_first(params + group.generic_params),
            where_predicates: premises + group.where_predicates,
            predicates: leaves(group.predicates),
        }),
        forall|i: int, site: Span|
            0 <= i < leaves(group.predicates).len() ==> #[trigger] checks(
                leaves(group.predicates),
                lifetimes_first(params + group.generic_params),
                premises + group.where_predicates,
                site,
            )[i] == check(
                leaves(group.predicates)[i],
                lifetimes_first(params + group.generic_params),
                premises + group.where_predicates,
                site,
            ),
{
    assert forall|i: int, site: Span|
        0 <= i < leaves(group.predicates).len() implies #[trigger] checks(
        leaves(group.predicates),
        lifetimes_first(params + group.generic_params),
        premises + group.where_predicates,
        site,
    )[i] == check(
        leaves(group.predicates)[i],
        lifetimes_first(params + group.generic_params),
        premises + group.where_predicates,
        site,
    ) by {
        lemma_checks(
            leaves(group.predicates),
            lifetimes_first(params + group.generic_params),
            premises + group.where_predicates,
            site,
        );
    }
    let trees = seq![PredicateTreeView::Group(group)];
    let none = Seq::<PredicateTreeView>::empty();
    assert(trees.drop_last() =~= none);
    assert(group_scopes(none, params, premises) =~= Seq::empty());
    assert(group_scopes(trees, params, premises) =~= scopes(
        group.predicates,
        params + group.generic_params,
        premises + group.where_predicates,
    ));
}

/// Two groups side by side: each gives the scopes of its own body under
/// the parameters and premises in force and its own, and nothing of the
/// other.
pub proof fn law_two_groups(
    left: PredicateGroupView,
    right: PredicateGroupView,
    params: Seq<GenericParamView>,
    premises: Seq<PredicateView>,
)
    ensures
        group_scopes(
            seq![PredicateTreeView::Group(left), PredicateTreeView::Group(right)],
            params,
            premises,
        ) == scopes(
            left.predicates,
            params + left.generic_params,
            premises + left.where_predicates,
        ) + scopes(
            right.predicates,
            params + right.generic_params,
            premises + right.where_predicates,
        ),
{
    let first = seq![PredicateTreeView::Group(left)];
    let second = seq![PredicateTreeView::Group(right)];
    assert(first + second =~= seq![
        PredicateTreeView::Group(left),
        PredicateTreeView::Group(right),
    ]);
    law_siblings(first, second, params, premises);
    law_group_scope(left, params, premises);
    law_group_scope(right, params, premises);
}

/// Every parameter keeps its kind when the lifetimes are put first: none is
/// lost and none is made up.
pub proof fn lemma_of_kind_multiset(params: Seq<GenericParamView>)
    ensures
        lifetimes_first(params).to_multiset() == params.to_multiset(),
    decreases params.len(),
{
    broadcast use vstd::seq_lib::group_to_multiset_ensures;

    if params.len() == 0 {
        assert(lifetimes_first(params) =~= params);
    } else {
        let init = params.drop_last();
        let last = params.last();
        lemma_of_kind_multiset(init);
        assert(params =~= init.push(last));
        vstd::seq_lib::lemma_multiset_commutative(of_kind(init, true), of_kind(init, false));
        if last.is_lifetime {
            assert(lifetimes_first(params) =~= of_kind(init, true).push(last) + of_kind(
                init,
                false,
            ));
            vstd::seq_lib::lemma_multiset_commutative(
                of_kind(init, true).push(last),
                of_kind(init, false),
            );
        } else {
            assert(lifetimes_first(params) =~= lifetimes_first(init).push(last));
        }
    }
}

/// With the lifetimes first, no parameter stands before one that `list_cmp`
/// puts before it, and the parameters are those that there were.
pub proof fn law_lifetimes_first(params: Seq<GenericParamView>)
    ensures
        lifetimes_first(params).len() == params.len(),
        lifetimes_first(params).to_multiset() == params.to_multiset(),
        forall|i: int, j: int|
            0 <= i < j < params.len() ==> list_order(
                (#[trigger] lifetimes_first(params)[i]).is_lifetime,
                (#[trigger] lifetimes_first(params)[j]).is_lifetime,
            ) != Ordering::Greater,
{
    lemma_of_kind_multiset(params);
    lemma_of_kind(params, true);
    lemma_of_kind(params, false);
    vstd::seq_lib::to_multiset_len(params);
    vstd::seq_lib::to_multiset_len(lifetimes_first(params));
}

/// The messages "expected `,`" and "expected a type expression" differ.
pub proof fn lemma_messages_differ()
    ensures
        expected_comma() != expected_type_expr(),
{
    reveal_strlit("expected `,`");
    reveal_strlit("expected a type expression");
    assert(expected_comma().len() == 12);
    assert(expected_type_expr().len() == 26);
}

/// Where a leaf is followed by another token than `,`, the leaf stays, and
/// that token gets the diagnostic "expected `,`", once. No node can start
/// with that token, so the list ends there, with the diagnostic "expected a
/// type expression" at the same token.
pub proof fn law_missing_comma(tokens: Seq<TokenView>, site: Span)
    requires
        !ident_at(tokens, 0, "for"@),
        !ident_at(tokens, 0, "where"@),
        leaf(tokens, site) is Ok,
        leaf(tokens, site)->Ok_0.1 < tokens.len(),
        !punct_at(tokens, leaf(tokens, site)->Ok_0.1, ','),
    ensures
        ({
            let n = leaf(tokens, site)->Ok_0.1;
            predicate_list(tokens, site) == (Parsed {
                trees: seq![PredicateTreeView::Predicate(leaf(tokens, site)->Ok_0.0)],
                errors: seq![
                    ErrorView { span: tokens[n].span(), message: expected_comma() },
                    ErrorView { span: tokens[n].span(), message: expected_type_expr() },
                ],
            })
        }),
        expected_comma() != expected_type_expr(),
{
    lemma_messages_differ();
    lemma_leaf_bound(tokens, site);
    lemma_leaf_end(tokens, site);
    let n = leaf(tokens, site)->Ok_0.1;
    let rest = tokens.skip(n);
    lemma_predicate_list_step(tokens, site);
    lemma_predicate_list_step(rest, site);
    lemma_no_type_expr(rest);
    assert(rest.skip(0) =~= rest);
    assert(node(rest, site).result is Err);
    let parsed = predicate_list(tokens, site);
    assert(parsed.trees =~= seq![PredicateTreeView::Predicate(leaf(tokens, site)->Ok_0.0)]);
    assert(parsed.errors =~= seq![
        ErrorView { span: tokens[n].span(), message: expected_comma() },
        ErrorView { span: tokens[n].span(), message: expected_type_expr() },
    ]);
}

/// Whether the parameter at `i` is a lifetime that stands behind a
/// parameter of another kind.
pub open spec fn lifetime_out_of_order(params: Seq<GenericParamView>, i: int) -> bool {
    0 <= i < params.len() && params[i].is_lifetime && exists|j: int|
        0 <= j < i && !(#[trigger] params[j]).is_lifetime
}

/// The search for a misplaced lifetime from `from` on finds the first one,
/// if there is one.
pub proof fn lemma_first_misplaced(params: Seq<GenericParamView>, from: int)
    requires
        1 <= from,
    ensures
        match first_misplaced_lifetime(params, from) {
            Some(i) => from <= i && misplaced_lifetime(params, i) && forall|k: int|
                from <= k < i ==> !misplaced_lifetime(params, k),
            None => forall|k: int| from <= k < params.len() ==> !misplaced_lifetime(params, k),
        },
    decreases params.len() - from,
{
    if from < params.len() && !misplaced_lifetime(params, from) {
        lemma_first_misplaced(params, from + 1);
    }
}

/// Where no lifetime directly follows a parameter of another kind before
/// `i`, the parameters before `i` are lifetimes up to some place and others
/// from there on.
proof fn lemma_in_order(params: Seq<GenericParamView>, i: int, j: int, k: int)
    requires
        0 <= j <= k < i <= params.len(),
        forall|m: int| 1 <= m < i ==> !misplaced_lifetime(params, m),
        !params[j].is_lifetime,
    ensures
        !params[k].is_lifetime,
    decreases k - j,
{
    if j < k {
        lemma_in_order(params, i, j, k - 1);
        assert(!misplaced_lifetime(params, k));
    }
}

/// A parameter list gets at most one diagnostic on its order, and gets one
/// if and only if some lifetime stands behind a parameter of another kind.
/// The diagnostic is anchored at the first such lifetime.
pub proof fn law_lifetime_order(params: Seq<GenericParamView>)
    ensures
        order_errors(params).len() <= 1,
        order_errors(params).len() == 1 <==> exists|i: int| lifetime_out_of_order(params, i),
        order_errors(params).len() == 1 ==> exists|i: int|
            {
                &&& #[trigger] lifetime_out_of_order(params, i)
                &&& forall|k: int| 0 <= k < i ==> !lifetime_out_of_order(params, k)
                &&& order_errors(params)[0] == ErrorView {
                    span: params[i].span,
                    message: lifetimes_first_message(),
                }
            },
{
    lemma_first_misplaced(params, 1);
    match first_misplaced_lifetime(params, 1) {
        Some(i) => {
            assert(!params[i - 1].is_lifetime);
            assert(lifetime_out_of_order(params, i));
            assert forall|k: int| 0 <= k < i implies !lifetime_out_of_order(params, k) by {
                if lifetime_out_of_order(params, k) {
                    let j = choose|j: int| 0 <= j < k && !(#[trigger] params[j]).is_lifetime;
                    lemma_in_order(params, i, j, k);
                }
            }
        },
        None => {
            assert forall|k: int| !lifetime_out_of_order(params, k) by {
                if lifetime_out_of_order(params, k) {
                    let j = choose|j: int| 0 <= j < k && !(#[trigger] params[j]).is_lifetime;
                    lemma_in_order(params, params.len() as int, j, k);
                }
            }
        },
    }
}

/// A group with parameters keeps every parameter in the order in which it
/// was written, whatever the diagnostics on that order: the diagnostics do
/// not stop the parse.
pub proof fn law_misordered_params_are_kept(tokens: Seq<TokenView>, site: Span)
    requires
        angle_params(tokens, site) is Ok,
    ensures
        scoped_head(tokens, site).errors == order_errors(angle_params(tokens, site)->Ok_0.0),
        scoped_head(tokens, site).result matches Ok((shape, _)) ==> shape is Group
            && shape->generic_params == angle_params(tokens, site)->Ok_0.0,
        scoped_head(tokens, site).result is Ok <==> group_head(
            tokens.skip(angle_params(tokens, site)->Ok_0.1),
            site,
        ) is Ok,
{
}

/// A leaf whose `:` is followed by nothing that can start a type expression
/// has the empty bound, and the checked parameter of its helper struct is
/// bounded by nothing but what widens it.
pub proof fn law_omitted_bound(tokens: Seq<TokenView>, site: Span)
    requires
        leaf(tokens, site) is Ok,
        ({
            let colon = type_expr_len(tokens, 0);
            colon + 1 == tokens.len() || (ends_type_expr(tokens[colon + 1]) && !(punct_at(
                tokens,
                colon + 1,
                ':',
            ) && punct_at(tokens, colon + 2, ':')))
        }),
    ensures
        leaf(tokens, site)->Ok_0.0.bound == Seq::<TokenView>::empty(),
        leaf(tokens, site)->Ok_0.1 == type_expr_len(tokens, 0) + 1,
        checked_bound(leaf(tokens, site)->Ok_0.0, site) == unsized_prefix(
            leaf(tokens, site)->Ok_0.0,
            site,
        ),
        !leaf(tokens, site)->Ok_0.0.unsized_left_side ==> checked_bound(
            leaf(tokens, site)->Ok_0.0,
            site,
        ) == Seq::<TokenView>::empty(),
{
    lemma_leaf_bound(tokens, site);
    let colon = type_expr_len(tokens, 0);
    let rest = tokens.skip(colon + 1);
    if colon + 1 < tokens.len() {
        assert(rest[0] == tokens[colon + 1]);
        if rest.len() > 1 {
            assert(rest[1] == tokens[colon + 2]);
        }
        lemma_no_type_expr(rest);
    }
    let found = leaf(tokens, site)->Ok_0.0;
    assert(found.bound =~= Seq::empty());
    assert(checked_bound(found, site) =~= unsized_prefix(found, site));
}

/// A leaf is marked open-ended if and only if its subject starts with the
/// word `dyn`, and then the bound of the checked parameter of its helper
/// struct is the leaf's bound behind `?Sized +`.
pub proof fn law_open_ended(tokens: Seq<TokenView>, site: Span)
    requires
        leaf(tokens, site) is Ok,
    ensures
        leaf(tokens, site)->Ok_0.0.unsized_left_side == ident_at(tokens, 0, "dyn"@),
        ident_at(tokens, 0, "dyn"@) ==> checked_bound(leaf(tokens, site)->Ok_0.0, site) == seq![
            TokenView::alone('?', site),
            word("Sized"@, site),
            TokenView::alone('+', site),
        ] + leaf(tokens, site)->Ok_0.0.bound,
        !ident_at(tokens, 0, "dyn"@) ==> checked_bound(leaf(tokens, site)->Ok_0.0, site) == leaf(
            tokens,
            site,
        )->Ok_0.0.bound,
{
    let found = leaf(tokens, site)->Ok_0.0;
    assert(Seq::<TokenView>::empty() + found.bound =~= found.bound);
}

} // verus!
