//! The assertion tree that the parser builds and the generator walks.

use crate::token::{clone_tokens, Token, TokenView};
use core::cmp::Ordering;
use proc_macro2::Span;
use vstd::prelude::*;

verus! {

/// Represents either a where-clause predicate:
///
/// ```ignore
/// SomeType: SomeTrait
/// ```
///
/// Or a predicate group which can define generic parameters and conditions:
///
/// ```ignore
/// for<T: Clone> where T: 'static {
///     T: Clone + 'static,
/// }
/// ```
#[derive(Debug)]
pub enum PredicateTree {
    Group(PredicateGroup),
    Predicate(Predicate),
}

/// Represents a delimited set of predicates like:
///
/// ```ignore
/// for<T: Clone> where T: 'static {
///     T: Clone + 'static,
/// }
/// ```
#[derive(Debug)]
pub struct PredicateGroup {
    /// The generic parameters declared using the `for` keyword.
    pub generic_params: Vec<GenericParam>,
    /// The predicates from the where-clause of the group.
    ///
    /// These are not the predicates that need to be asserted, these are the
    /// conditions for the asserts.
    pub where_predicates: Vec<Predicate>,
    /// The inner predicates that must be asserted to be true.
    ///
    /// These are predicate-trees meaning they can themselves be
    /// predicate-groups which allows for nesting.
    pub predicates: Vec<PredicateTree>,
}

/// Represents a where-clause predicate like `SomeType: SomeTrait`.
#[derive(Debug)]
pub struct Predicate {
    /// The `SomeType` in `SomeType: SomeTrait`.
    pub left_side: Vec<Token>,
    /// The `SomeTrait` in `SomeType: SomeTrait`.
    ///
    /// This does not include the colon.
    pub bound: Vec<Token>,
    /// Where the predicate starts.
    pub span: Span,
    /// Is true if `left_side` is probably a dynamically-sized-type.
    ///
    /// Currently this is only true for `dyn ...` left sides.
    pub unsized_left_side: bool,
}

/// Represents a generic parameter declaration like `const N: usize`.
#[derive(Debug)]
pub struct GenericParam {
    /// The parameter declaration.
    pub tokens: Vec<Token>,
    /// A generic argument with the name of the parameter.
    ///
    /// This corresponds to the `N` in `const N: usize`.
    pub inline_arg: Vec<Token>,
    /// A type that depends on the generic parameter.
    ///
    /// It serves to use every generic parameter in a struct declaration.
    pub marker_type: Vec<Token>,
    /// Whether the parameter is a lifetime.
    pub is_lifetime: bool,
    /// Where the parameter's name stands.
    pub span: Span,
}

/// A diagnostic: what is wrong, and where.
#[derive(Debug)]
pub struct Error {
    pub span: Span,
    pub message: String,
}

/// The mathematical value of a [`Predicate`].
pub ghost struct PredicateView {
    pub left_side: Seq<TokenView>,
    pub bound: Seq<TokenView>,
    pub span: Span,
    pub unsized_left_side: bool,
}

/// The mathematical value of a [`GenericParam`].
pub ghost struct GenericParamView {
    pub tokens: Seq<TokenView>,
    pub inline_arg: Seq<TokenView>,
    pub marker_type: Seq<TokenView>,
    pub is_lifetime: bool,
    pub span: Span,
}

/// The mathematical value of an [`Error`].
pub ghost struct ErrorView {
    pub span: Span,
    pub message: Seq<char>,
}

/// The mathematical value of a [`PredicateTree`].
pub ghost enum PredicateTreeView {
    Group(PredicateGroupView),
    Predicate(PredicateView),
}

/// The mathematical value of a [`PredicateGroup`].
pub ghost struct PredicateGroupView {
    pub generic_params: Seq<GenericParamView>,
    pub where_predicates: Seq<PredicateView>,
    pub predicates: Seq<PredicateTreeView>,
}

impl DeepView for Predicate {
    type V = PredicateView;

    open spec fn deep_view(&self) -> PredicateView {
        PredicateView {
            left_side: self.left_side.deep_view(),
            bound: self.bound.deep_view(),
            span: self.span,
            unsized_left_side: self.unsized_left_side,
        }
    }
}

impl View for Predicate {
    type V = PredicateView;

    open spec fn view(&self) -> PredicateView {
        self.deep_view()
    }
}

impl DeepView for GenericParam {
    type V = GenericParamView;

    open spec fn deep_view(&self) -> GenericParamView {
        GenericParamView {
            tokens: self.tokens.deep_view(),
            inline_arg: self.inline_arg.deep_view(),
            marker_type: self.marker_type.deep_view(),
            is_lifetime: self.is_lifetime,
            span: self.span,
        }
    }
}

impl View for GenericParam {
    type V = GenericParamView;

    open spec fn view(&self) -> GenericParamView {
        self.deep_view()
    }
}

impl DeepView for Error {
    type V = ErrorView;

    open spec fn deep_view(&self) -> ErrorView {
        ErrorView { span: self.span, message: self.message@ }
    }
}

impl View for Error {
    type V = ErrorView;

    open spec fn view(&self) -> ErrorView {
        self.deep_view()
    }
}

/// The value of a tree: the same tree with each part replaced by its value.
pub open spec fn tree_view(tree: PredicateTree) -> PredicateTreeView
    decreases tree,
{
    match tree {
        PredicateTree::Predicate(predicate) => PredicateTreeView::Predicate(predicate@),
        PredicateTree::Group(group) => PredicateTreeView::Group(
            PredicateGroupView {
                generic_params: group.generic_params.deep_view(),
                where_predicates: group.where_predicates.deep_view(),
                predicates: Seq::new(
                    group.predicates@.len(),
                    |i: int|
                        if 0 <= i < group.predicates@.len() {
                            tree_view(group.predicates@[i])
                        } else {
                            arbitrary()
                        },
                ),
            },
        ),
    }
}

impl DeepView for PredicateTree {
    type V = PredicateTreeView;

    open spec fn deep_view(&self) -> PredicateTreeView {
        tree_view(*self)
    }
}

impl View for PredicateTree {
    type V = PredicateTreeView;

    open spec fn view(&self) -> PredicateTreeView {
        tree_view(*self)
    }
}

impl DeepView for PredicateGroup {
    type V = PredicateGroupView;

    open spec fn deep_view(&self) -> PredicateGroupView {
        PredicateGroupView {
            generic_params: self.generic_params.deep_view(),
            where_predicates: self.where_predicates.deep_view(),
            predicates: self.predicates.deep_view(),
        }
    }
}

impl View for PredicateGroup {
    type V = PredicateGroupView;

    open spec fn view(&self) -> PredicateGroupView {
        self.deep_view()
    }
}

/// The value of a group node is the value of the group it holds.
pub proof fn lemma_group_tree_view(group: PredicateGroup)
    ensures
        PredicateTree::Group(group)@ == PredicateTreeView::Group(group@),
{
    let inner = PredicateTree::Group(group)@->Group_0.predicates;
    assert(inner =~= group.predicates.deep_view());
}

impl Clone for Predicate {
    /// A copy with the same value.
    fn clone(&self) -> (copy: Self)
        ensures
            copy@ == self@,
    {
        Predicate {
            left_side: clone_tokens(&self.left_side),
            bound: clone_tokens(&self.bound),
            span: self.span,
            unsized_left_side: self.unsized_left_side,
        }
    }
}

impl Clone for GenericParam {
    /// A copy with the same value.
    fn clone(&self) -> (copy: Self)
        ensures
            copy@ == self@,
    {
        GenericParam {
            tokens: clone_tokens(&self.tokens),
            inline_arg: clone_tokens(&self.inline_arg),
            marker_type: clone_tokens(&self.marker_type),
            is_lifetime: self.is_lifetime,
            span: self.span,
        }
    }
}

impl Clone for Error {
    /// A copy with the same value.
    fn clone(&self) -> (copy: Self)
        ensures
            copy@ == self@,
    {
        Error { span: self.span, message: self.message.clone() }
    }
}

/// A copy of `predicates` with the same value.
pub fn clone_predicates(predicates: &Vec<Predicate>) -> (copy: Vec<Predicate>)
    ensures
        copy.deep_view() == predicates.deep_view(),
{
    let mut copy: Vec<Predicate> = Vec::new();
    let mut i: usize = 0;
    while i < predicates.len()
        invariant
            i <= predicates.len(),
            copy.len() == i,
            forall|j: int| 0 <= j < i ==> copy[j]@ == predicates[j]@,
        decreases predicates.len() - i,
    {
        copy.push(predicates[i].clone());
        i += 1;
    }
    assert(copy.deep_view() =~= predicates.deep_view());
    copy
}

/// A copy of `params` with the same value.
pub fn clone_params(params: &Vec<GenericParam>) -> (copy: Vec<GenericParam>)
    ensures
        copy.deep_view() == params.deep_view(),
{
    let mut copy: Vec<GenericParam> = Vec::new();
    let mut i: usize = 0;
    while i < params.len()
        invariant
            i <= params.len(),
            copy.len() == i,
            forall|j: int| 0 <= j < i ==> copy[j]@ == params[j]@,
        decreases params.len() - i,
    {
        copy.push(params[i].clone());
        i += 1;
    }
    assert(copy.deep_view() =~= params.deep_view());
    copy
}

impl Clone for PredicateTree {
    /// A copy with the same value.
    fn clone(&self) -> (copy: Self)
        ensures
            copy@ == self@,
        decreases self,
    {
        match self {
            PredicateTree::Predicate(predicate) => PredicateTree::Predicate(predicate.clone()),
            PredicateTree::Group(group) => {
                let mut predicates: Vec<PredicateTree> = Vec::new();
                let mut i: usize = 0;
                while i < group.predicates.len()
                    invariant
                        i <= group.predicates.len(),
                        predicates.len() == i,
                        *self == PredicateTree::Group(*group),
                        forall|j: int| 0 <= j < i ==> predicates[j]@ == group.predicates[j]@,
                    decreases group.predicates.len() - i,
                {
                    proof {
                        assert(decreases_to!(*self => self->Group_0));
                        assert(decreases_to!(self->Group_0 => self->Group_0.predicates));
                        vstd::std_specs::vec::axiom_vec_index_decreases(group.predicates, i as int);
                    }
                    predicates.push(group.predicates[i].clone());
                    i += 1;
                }
                let copy = PredicateGroup {
                    generic_params: clone_params(&group.generic_params),
                    where_predicates: clone_predicates(&group.where_predicates),
                    predicates,
                };
                proof {
                    lemma_group_tree_view(*group);
                    lemma_group_tree_view(copy);
                    assert(copy.predicates.deep_view() =~= group.predicates.deep_view());
                }
                PredicateTree::Group(copy)
            },
        }
    }
}

impl Clone for PredicateGroup {
    /// A copy with the same value.
    fn clone(&self) -> (copy: Self)
        ensures
            copy@ == self@,
    {
        let mut predicates: Vec<PredicateTree> = Vec::new();
        let mut i: usize = 0;
        while i < self.predicates.len()
            invariant
                i <= self.predicates.len(),
                predicates.len() == i,
                forall|j: int| 0 <= j < i ==> predicates[j]@ == self.predicates[j]@,
            decreases self.predicates.len() - i,
        {
            predicates.push(self.predicates[i].clone());
            i += 1;
        }
        assert(predicates.deep_view() =~= self.predicates.deep_view());
        PredicateGroup {
            generic_params: clone_params(&self.generic_params),
            where_predicates: clone_predicates(&self.where_predicates),
            predicates,
        }
    }
}

impl Default for PredicateGroup {
    /// The group that declares nothing, assumes nothing and asserts nothing.
    fn default() -> (group: Self)
        ensures
            group@ == (PredicateGroupView {
                generic_params: Seq::empty(),
                where_predicates: Seq::empty(),
                predicates: Seq::empty(),
            }),
    {
        let group = PredicateGroup {
            generic_params: Vec::new(),
            where_predicates: Vec::new(),
            predicates: Vec::new(),
        };
        assert(group@.generic_params =~= Seq::empty());
        assert(group@.where_predicates =~= Seq::empty());
        assert(group@.predicates =~= Seq::empty());
        group
    }
}

/// How two parameters stand to each other in a parameter list, where every
/// lifetime comes before every other parameter.
pub open spec fn list_order(left_is_lifetime: bool, right_is_lifetime: bool) -> Ordering {
    if left_is_lifetime == right_is_lifetime {
        Ordering::Equal
    } else if left_is_lifetime {
        Ordering::Less
    } else {
        Ordering::Greater
    }
}

impl GenericParam {
    /// Compares two parameters by their place in a parameter list: a lifetime
    /// is less than any other parameter, and two of one kind are equal.
    pub fn list_cmp(&self, other: &Self) -> (order: Ordering)
        ensures
            order == list_order(self.is_lifetime, other.is_lifetime),
    {
        match (self.is_lifetime, other.is_lifetime) {
            (false, false) | (true, true) => Ordering::Equal,
            (false, true) => Ordering::Greater,
            (true, false) => Ordering::Less,
        }
    }
}

impl Error {
    /// The diagnostic `message` at `span`.
    pub fn new_at_span(span: Span, message: &str) -> (error: Self)
        ensures
            error@ == (ErrorView { span, message: message@ }),
    {
        Error { span, message: String::from_str(message) }
    }
}

} // verus!
