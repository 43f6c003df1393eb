//! The input alphabet of the chord notation.

use vstd::prelude::*;

verus! {

/// The brackets that enclose a group of tokens.
#[derive(Clone, Copy, Debug, PartialEq, Eq, Structural)]
pub enum Delimiter {
    Parenthesis,
    Brace,
    Bracket,
    /// No visible bracket at all.
    Invisible,
}

/// One token of the notation. A token's position is its index in the list it
/// stands in.
#[derive(Debug, PartialEq, Eq)]
pub enum Token {
    /// A literal, held as its source text: `1`, or a quoted character.
    Literal(String),
    /// A single punctuation character.
    Punct(char),
    /// A name, held as its source text.
    Name(String),
    /// A bracketed group with the tokens inside it.
    Group(Delimiter, Vec<Token>),
}

/// What a [`Token`] denotes.
pub enum TokenView {
    Literal(Seq<char>),
    Punct(char),
    Name(Seq<char>),
    Group(Delimiter, Seq<TokenView>),
}

/// What a token denotes: its text or character, and for a group what the
/// tokens inside it denote.
pub open spec fn token_view(token: Token) -> TokenView
    decreases token,
{
    match token {
        Token::Literal(text) => TokenView::Literal(text@),
        Token::Punct(c) => TokenView::Punct(c),
        Token::Name(text) => TokenView::Name(text@),
        Token::Group(delimiter, inner) => TokenView::Group(
            delimiter,
            Seq::new(
                inner@.len(),
                |i: int|
                    if 0 <= i < inner@.len() {
                        token_view(inner@[i])
                    } else {
                        arbitrary()
                    },
            ),
        ),
    }
}

impl DeepView for Token {
    type V = TokenView;

    open spec fn deep_view(&self) -> TokenView {
        token_view(*self)
    }
}

impl View for Token {
    type V = TokenView;

    open spec fn view(&self) -> TokenView {
        self.deep_view()
    }
}

/// Whether a token is the dash that joins a modifier to what follows it.
pub open spec fn is_dash(token: TokenView) -> bool {
    token == TokenView::Punct('-')
}

impl Clone for Token {
    /// A token with the same texts, and in a group the same tokens inside.
    fn clone(&self) -> (copy: Self)
        ensures
            copy@ == self@,
        decreases self,
    {
        match self {
            Token::Literal(text) => Token::Literal(text.clone()),
            Token::Punct(c) => Token::Punct(*c),
            Token::Name(text) => Token::Name(text.clone()),
            Token::Group(delimiter, inner) => {
                let mut copies: Vec<Token> = Vec::new();
                let mut i: usize = 0;
                while i < inner.len()
                    invariant
                        i <= inner.len(),
                        copies.len() == i,
                        decreases_to!(*self => *inner),
                        self@ matches TokenView::Group(d, held) && d == *delimiter && held
                            =~= inner.deep_view(),
                        forall|j: int| 0 <= j < i ==> copies@[j].deep_view() == inner@[j].deep_view(),
                    decreases inner.len() - i,
                {
                    copies.push(inner[i].clone());
                    i += 1;
                }
                let copy = Token::Group(*delimiter, copies);
                assert(copy@ matches TokenView::Group(_, seen) && seen =~= inner.deep_view());
                copy
            },
        }
    }
}

impl Token {
    /// Whether the token is the dash that joins a modifier to what follows it.
    pub fn is_dash(&self) -> (dash: bool)
        ensures
            dash == is_dash(self@),
    {
        match self {
            Token::Punct(c) => *c == '-',
            _ => false,
        }
    }
}

/// Whether two texts hold the same characters.
pub(crate) fn text_is(text: &String, word: &str) -> (same: bool)
    ensures
        same == (text@ == word@),
{
    let owned = word.to_owned();
    *text == owned
}

} // verus!
