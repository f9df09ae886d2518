//! Tokens: the lexical units that the parser reads and the generator writes.

use proc_macro2::Span;
use vstd::prelude::*;

verus! {

/// A region of source code, as the compiler hands it to a procedural macro:
/// the type `proc_macro2::Span`.
///
/// Nothing is claimed of a span. It is carried from the tokens that were
/// read to the tokens and diagnostics that are written, and contracts speak
/// only of which span a value carries.
#[verifier::external_type_specification]
#[verifier::external_body]
pub struct ExSpan(proc_macro2::Span);

/// The brackets around a group of tokens.
#[derive(Clone, Copy, Debug, PartialEq, Eq, Structural)]
pub enum Delimiter {
    /// `( ... )`
    Parenthesis,
    /// `{ ... }`
    Brace,
    /// `[ ... ]`
    Bracket,
    /// No visible brackets: a group that a macro expansion keeps together.
    Invisible,
}

/// One token with the place it was read from.
#[derive(Debug)]
pub enum Token {
    /// A word: an identifier or a keyword.
    Ident { name: String, span: Span },
    /// A single punctuation character; `joint` when the next token follows
    /// it immediately and is another punctuation character.
    Punct { ch: char, joint: bool, span: Span },
    /// A literal, by the text it was written as.
    Literal { text: String, span: Span },
    /// A string literal, by the value it stands for.
    Str { value: String, span: Span },
    /// A bracketed sequence of tokens.
    Group { delimiter: Delimiter, tokens: Vec<Token>, span: Span },
}

/// The mathematical value of a [`Token`].
pub ghost enum TokenView {
    Ident { name: Seq<char>, span: Span },
    Punct { ch: char, joint: bool, span: Span },
    Literal { text: Seq<char>, span: Span },
    Str { value: Seq<char>, span: Span },
    Group { delimiter: Delimiter, tokens: Seq<TokenView>, span: Span },
}

impl TokenView {
    /// The place the token was read from.
    pub open spec fn span(self) -> Span {
        match self {
            TokenView::Ident { span, .. } => span,
            TokenView::Punct { span, .. } => span,
            TokenView::Literal { span, .. } => span,
            TokenView::Str { span, .. } => span,
            TokenView::Group { span, .. } => span,
        }
    }

    /// An identifier that is not followed by anything special.
    pub open spec fn ident(name: Seq<char>, span: Span) -> TokenView {
        TokenView::Ident { name, span }
    }

    /// A punctuation character that stands alone.
    pub open spec fn alone(ch: char, span: Span) -> TokenView {
        TokenView::Punct { ch, joint: false, span }
    }

    /// A punctuation character that is joined to the next one.
    pub open spec fn joint(ch: char, span: Span) -> TokenView {
        TokenView::Punct { ch, joint: true, span }
    }

    /// A bracketed sequence of tokens.
    pub open spec fn group(delimiter: Delimiter, tokens: Seq<TokenView>, span: Span) -> TokenView {
        TokenView::Group { delimiter, tokens, span }
    }
}

/// The value of a token: the same token with each string and each sequence
/// replaced by its value.
pub open spec fn token_view(token: Token) -> TokenView
    decreases token,
{
    match token {
        Token::Ident { name, span } => TokenView::Ident { name: name@, span },
        Token::Punct { ch, joint, span } => TokenView::Punct { ch, joint, span },
        Token::Literal { text, span } => TokenView::Literal { text: text@, span },
        Token::Str { value, span } => TokenView::Str { value: value@, span },
        Token::Group { delimiter, tokens, span } => TokenView::Group {
            delimiter,
            tokens: Seq::new(
                tokens@.len(),
                |i: int|
                    if 0 <= i < tokens@.len() {
                        token_view(tokens@[i])
                    } else {
                        arbitrary()
                    },
            ),
            span,
        },
    }
}

impl DeepView for Token {
    type V = TokenView;

    open spec fn deep_view(&self) -> TokenView {
        token_view(*self)
    }
}

impl View for Token {
    type V = TokenView;

    open spec fn view(&self) -> TokenView {
        token_view(*self)
    }
}

/// The value of a group is made of the values of the tokens inside it.
pub proof fn lemma_group_view(delimiter: Delimiter, tokens: Vec<Token>, span: Span)
    ensures
        (Token::Group { delimiter, tokens, span })@ == TokenView::group(
            delimiter,
            tokens.deep_view(),
            span,
        ),
{
    let inner = (Token::Group { delimiter, tokens, span })@->Group_tokens;
    assert(inner =~= tokens.deep_view());
}

impl Clone for Token {
    /// A copy with the same value.
    fn clone(&self) -> (copy: Self)
        ensures
            copy@ == self@,
        decreases self,
    {
        match self {
            Token::Ident { name, span } => Token::Ident { name: name.clone(), span: *span },
            Token::Punct { ch, joint, span } => Token::Punct {
                ch: *ch,
                joint: *joint,
                span: *span,
            },
            Token::Literal { text, span } => Token::Literal { text: text.clone(), span: *span },
            Token::Str { value, span } => Token::Str { value: value.clone(), span: *span },
            Token::Group { delimiter, tokens, span } => {
                let mut copies: Vec<Token> = Vec::new();
                let mut i: usize = 0;
                while i < tokens.len()
                    invariant
                        i <= tokens.len(),
                        copies.len() == i,
                        *self == (Token::Group {
                            delimiter: *delimiter,
                            tokens: *tokens,
                            span: *span,
                        }),
                        forall|j: int| 0 <= j < i ==> copies[j]@ == tokens[j]@,
                    decreases tokens.len() - i,
                {
                    proof {
                        assert(decreases_to!(*self => self->Group_tokens));
                        vstd::std_specs::vec::axiom_vec_index_decreases(*tokens, i as int);
                    }
                    copies.push(tokens[i].clone());
                    i += 1;
                }
                proof {
                    lemma_group_view(*delimiter, *tokens, *span);
                    lemma_group_view(*delimiter, copies, *span);
                    assert(copies.deep_view() =~= tokens.deep_view());
                }
                Token::Group { delimiter: *delimiter, tokens: copies, span: *span }
            },
        }
    }
}

impl Token {
    /// The place the token was read from.
    pub fn span(&self) -> (span: Span)
        ensures
            span == self@.span(),
    {
        match self {
            Token::Ident { span, .. } => *span,
            Token::Punct { span, .. } => *span,
            Token::Literal { span, .. } => *span,
            Token::Str { span, .. } => *span,
            Token::Group { span, .. } => *span,
        }
    }

    /// The identifier `name`.
    pub fn ident(name: &str, span: Span) -> (token: Token)
        ensures
            token@ == TokenView::ident(name@, span),
    {
        Token::Ident { name: String::from_str(name), span }
    }

    /// The punctuation character `ch`, standing alone.
    pub fn alone(ch: char, span: Span) -> (token: Token)
        ensures
            token@ == TokenView::alone(ch, span),
    {
        Token::Punct { ch, joint: false, span }
    }

    /// The punctuation character `ch`, joined to the one that follows.
    pub fn joint(ch: char, span: Span) -> (token: Token)
        ensures
            token@ == TokenView::joint(ch, span),
    {
        Token::Punct { ch, joint: true, span }
    }

    /// The tokens `tokens` inside the brackets `delimiter`.
    pub fn group(delimiter: Delimiter, tokens: Vec<Token>, span: Span) -> (token: Token)
        ensures
            token@ == TokenView::group(delimiter, tokens.deep_view(), span),
    {
        proof {
            lemma_group_view(delimiter, tokens, span);
        }
        Token::Group { delimiter, tokens, span }
    }
}

/// Appends `token` to `tokens`.
pub fn push_token(tokens: &mut Vec<Token>, token: Token)
    ensures
        final(tokens).deep_view() == old(tokens).deep_view().push(token@),
{
    tokens.push(token);
    assert(tokens.deep_view() =~= old(tokens).deep_view().push(token@));
}

/// A copy of `tokens` with the same value.
pub fn clone_tokens(tokens: &Vec<Token>) -> (copy: Vec<Token>)
    ensures
        copy.deep_view() == tokens.deep_view(),
{
    let mut copy: Vec<Token> = Vec::new();
    let mut i: usize = 0;
    while i < tokens.len()
        invariant
            i <= tokens.len(),
            copy.len() == i,
            forall|j: int| 0 <= j < i ==> copy[j]@ == tokens[j]@,
        decreases tokens.len() - i,
    {
        copy.push(tokens[i].clone());
        i += 1;
    }
    assert(copy.deep_view() =~= tokens.deep_view());
    copy
}

/// Appends copies of `more` to `tokens`.
pub fn extend_tokens(tokens: &mut Vec<Token>, more: &Vec<Token>)
    ensures
        final(tokens).deep_view() == old(tokens).deep_view() + more.deep_view(),
{
    let mut i: usize = 0;
    while i < more.len()
        invariant
            i <= more.len(),
            tokens.deep_view() == old(tokens).deep_view() + more.deep_view().take(i as int),
        decreases more.len() - i,
    {
        let ghost before = tokens.deep_view();
        tokens.push(more[i].clone());
        assert(tokens.deep_view() =~= before.push(more[i as int]@));
        assert(more.deep_view().take(i + 1) =~= more.deep_view().take(i as int).push(
            more[i as int]@,
        ));
        i += 1;
    }
    assert(more.deep_view().take(more.len() as int) =~= more.deep_view());
}

} // verus!
