//! Token trees: nested groups of identifiers, literals and punctuation.

use crate::span::SourceSpan;
use vstd::prelude::*;

verus! {

/// The brackets that enclose a group.
#[derive(Clone, Copy, Debug, PartialEq, Eq, Structural)]
pub enum Delimiter {
    /// `( ... )`
    Parenthesis,
    /// `{ ... }`
    Brace,
    /// `[ ... ]`
    Bracket,
    /// No visible brackets: the group only holds its tokens together.
    Invisible,
}

/// One node of a token tree.
#[derive(Debug, PartialEq, Eq)]
pub enum Token {
    /// A bracketed sequence of tokens. The group alone owns its children.
    Group { delimiter: Delimiter, children: Vec<Token>, position: SourceSpan },
    /// A name.
    Identifier { text: String, position: SourceSpan },
    /// A number or string literal, kept as written.
    Literal { text: String, position: SourceSpan },
    /// A single punctuation character.
    Punctuation { character: char, position: SourceSpan },
}

/// The mathematical value of a [`Token`]: the same tree over sequences.
pub enum TokenView {
    Group { delimiter: Delimiter, children: Seq<TokenView>, position: SourceSpan },
    Identifier { text: Seq<char>, position: SourceSpan },
    Literal { text: Seq<char>, position: SourceSpan },
    Punctuation { character: char, position: SourceSpan },
}

/// The value of a token: strings become sequences of characters, and the children of
/// a group the sequence of their own values.
pub open spec fn token_view(token: Token) -> TokenView
    decreases token,
{
    match token {
        Token::Group { delimiter, children, position } => TokenView::Group {
            delimiter,
            children: Seq::new(
                children@.len(),
                |i: int|
                    if 0 <= i < children@.len() {
                        token_view(children@[i])
                    } else {
                        arbitrary()
                    },
            ),
            position,
        },
        Token::Identifier { text, position } => TokenView::Identifier { text: text@, position },
        Token::Literal { text, position } => TokenView::Literal { text: text@, position },
        Token::Punctuation { character, position } => TokenView::Punctuation {
            character,
            position,
        },
    }
}

/// The place where a token was written.
pub open spec fn position_of(token: TokenView) -> SourceSpan {
    match token {
        TokenView::Group { position, .. } => position,
        TokenView::Identifier { position, .. } => position,
        TokenView::Literal { position, .. } => position,
        TokenView::Punctuation { position, .. } => position,
    }
}

/// Whether `token` is written as one with `next`: a punctuation character that is
/// directly followed by another, with which it may make up an operator, or an
/// apostrophe that is directly followed by the name of a lifetime.
pub open spec fn joined_to(token: TokenView, next: TokenView) -> bool {
    &&& token is Punctuation
    &&& position_of(token).touches(position_of(next))
    &&& next is Punctuation || (token->character == '\'' && next is Identifier)
}

impl Token {
    /// Tells whether this token is written as one with `next`, the token after it.
    pub fn is_joined_to(&self, next: &Token) -> (r: bool)
        ensures
            r == joined_to(self.deep_view(), next.deep_view()),
    {
        match self {
            Token::Punctuation { character, position } => match next {
                Token::Punctuation { position: after, .. } => position.is_followed_by(after),
                Token::Identifier { position: after, .. } => *character == '\''
                    && position.is_followed_by(after),
                _ => false,
            },
            _ => false,
        }
    }

    /// The place where the token was written.
    pub fn position(&self) -> (r: SourceSpan)
        ensures
            r == position_of(self.deep_view()),
    {
        match self {
            Token::Group { position, .. } => *position,
            Token::Identifier { position, .. } => *position,
            Token::Literal { position, .. } => *position,
            Token::Punctuation { position, .. } => *position,
        }
    }
}

impl DeepView for Token {
    type V = TokenView;

    open spec fn deep_view(&self) -> TokenView {
        token_view(*self)
    }
}

impl View for Token {
    type V = TokenView;

    open spec fn view(&self) -> TokenView {
        token_view(*self)
    }
}

/// The view of a group is a group of the views of its children.
pub proof fn lemma_group_view(delimiter: Delimiter, children: Vec<Token>, position: SourceSpan)
    ensures
        (Token::Group { delimiter, children, position }).deep_view() == (TokenView::Group {
            delimiter,
            children: children.deep_view(),
            position,
        }),
{
    let group = Token::Group { delimiter, children, position };
    assert(group.deep_view()->children =~= children.deep_view());
}

/// Copies a sequence of tokens, groups and all.
pub fn clone_tokens(tokens: &Vec<Token>) -> (r: Vec<Token>)
    ensures
        r.deep_view() == tokens.deep_view(),
    decreases tokens, 1int,
{
    let mut out: Vec<Token> = Vec::new();
    let mut i: usize = 0;
    while i < tokens.len()
        invariant
            i <= tokens.len(),
            out.len() == i,
            forall|k: int| 0 <= k < i ==> out@[k].deep_view() == tokens@[k].deep_view(),
        decreases tokens.len() - i,
    {
        let copy = tokens[i].clone();
        out.push(copy);
        i += 1;
    }
    assert(out.deep_view() =~= tokens.deep_view());
    out
}

impl Clone for Token {
    /// Copies the token; a group is copied with everything below it.
    fn clone(&self) -> (r: Token)
        ensures
            r.deep_view() == self.deep_view(),
        decreases self, 0int,
    {
        match self {
            Token::Group { delimiter, children, position } => {
                let kids = clone_tokens(children);
                proof {
                    lemma_group_view(*delimiter, *children, *position);
                    lemma_group_view(*delimiter, kids, *position);
                }
                Token::Group { delimiter: *delimiter, children: kids, position: *position }
            },
            Token::Identifier { text, position } => Token::Identifier {
                text: text.clone(),
                position: *position,
            },
            Token::Literal { text, position } => Token::Literal {
                text: text.clone(),
                position: *position,
            },
            Token::Punctuation { character, position } => Token::Punctuation {
                character: *character,
                position: *position,
            },
        }
    }
}

} // verus!
