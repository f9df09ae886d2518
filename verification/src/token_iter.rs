//! A cursor over a sequence of tokens that looks two tokens ahead.

use crate::token::{Token, TokenView};
use proc_macro2::Span;
use vstd::prelude::*;

verus! {

/// The place where reading stands in `tokens`: the span of the first token,
/// or `end` when none is left.
pub open spec fn next_span(tokens: Seq<TokenView>, end: Span) -> Span {
    if tokens.len() > 0 {
        tokens[0].span()
    } else {
        end
    }
}

/// A forward cursor over a finite sequence of tokens.
///
/// Its value, `self@`, is the sequence of tokens that have not been
/// consumed yet, in reading order.
#[derive(Debug)]
pub struct TokenIter {
    /// The tokens are in reverse order so that pop returns the next token.
    reversed_tokens: Vec<Token>,
    /// The span that stands for the end of the input.
    end_span: Span,
}

impl View for TokenIter {
    type V = Seq<TokenView>;

    closed spec fn view(&self) -> Seq<TokenView> {
        self.reversed_tokens.deep_view().reverse()
    }
}

impl TokenIter {
    /// The span that `span` reports once every token has been consumed.
    pub closed spec fn end(&self) -> Span {
        self.end_span
    }

    /// The tokens of a cursor fit in memory.
    pub proof fn lemma_len(&self)
        ensures
            self@.len() <= usize::MAX,
    {
        assert(self@.len() == self.reversed_tokens.len());
    }

    /// A cursor at the start of `tokens`; `end` stands for the end of the input.
    pub fn new(tokens: Vec<Token>, end: Span) -> (iter: TokenIter)
        ensures
            iter@ == tokens.deep_view(),
            iter.end() == end,
    {
        let ghost all = tokens.deep_view();
        let mut tokens = tokens;
        let mut reversed_tokens: Vec<Token> = Vec::new();
        loop
            invariant
                reversed_tokens.len() + tokens.len() == all.len(),
                tokens.deep_view() == all.take(tokens.len() as int),
                reversed_tokens.deep_view().reverse() == all.skip(tokens.len() as int),
            ensures
                reversed_tokens.deep_view().reverse() == all,
            decreases tokens.len(),
        {
            let ghost before = reversed_tokens.deep_view();
            let ghost rest = tokens.deep_view();
            match tokens.pop() {
                Some(token) => {
                    reversed_tokens.push(token);
                    assert(tokens.deep_view() =~= all.take(tokens.len() as int));
                    assert(reversed_tokens.deep_view() =~= before.push(token@));
                    assert(token@ == rest[rest.len() - 1]);
                    assert(before.push(token@).reverse() =~= seq![token@] + before.reverse());
                    assert(seq![token@] + all.skip(rest.len() as int) =~= all.skip(
                        tokens.len() as int,
                    ));
                },
                None => {
                    assert(all.skip(0) =~= all);
                    break ;
                },
            }
        }
        TokenIter { reversed_tokens, end_span: end }
    }

    /// The span that stands for the end of the input.
    pub fn end_span(&self) -> (span: Span)
        ensures
            span == self.end(),
    {
        self.end_span
    }

    /// Consumes the next token and returns it; `None` at the end of the input.
    pub fn next(&mut self) -> (token: Option<Token>)
        ensures
            final(self).end() == old(self).end(),
            old(self)@.len() == 0 ==> token is None && final(self)@ == old(self)@,
            old(self)@.len() > 0 ==> token is Some && token->0@ == old(self)@[0] && final(self)@
                == old(self)@.skip(1),
    {
        let ghost before = self.reversed_tokens.deep_view();
        let result = self.reversed_tokens.pop();
        proof {
            if before.len() > 0 {
                assert(self.reversed_tokens.deep_view() =~= before.drop_last());
                assert(before.drop_last().reverse() =~= before.reverse().skip(1));
            } else {
                assert(self.reversed_tokens.deep_view() =~= before);
            }
        }
        result
    }

    /// The next token, which stays unconsumed; `None` at the end of the input.
    pub fn peek(&self) -> (token: Option<&Token>)
        ensures
            self@.len() == 0 ==> token is None,
            self@.len() > 0 ==> token is Some && token->0@ == self@[0],
    {
        let len = self.reversed_tokens.len();
        if len < 1 {
            return None;
        }
        Some(&self.reversed_tokens[len - 1])
    }

    /// The token after the next one, which stays unconsumed; `None` when
    /// fewer than two tokens are left.
    pub fn peek2(&self) -> (token: Option<&Token>)
        ensures
            self@.len() < 2 ==> token is None,
            self@.len() >= 2 ==> token is Some && token->0@ == self@[1],
    {
        let len = self.reversed_tokens.len();
        if len < 2 {
            return None;
        }
        Some(&self.reversed_tokens[len - 2])
    }

    /// The span of the next token, or the end span once every token has been
    /// consumed.
    pub fn span(&self) -> (span: Span)
        ensures
            span == next_span(self@, self.end()),
    {
        let len = self.reversed_tokens.len();
        if len < 1 {
            self.end_span
        } else {
            self.reversed_tokens[len - 1].span()
        }
    }
}

} // verus!
