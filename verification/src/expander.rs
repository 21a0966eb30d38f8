//! Rewriting a template body for one value of the repetition variable.
//!
//! Three rules are tried at each token, the longest first:
//!
//! 1. *Paste*: an identifier, a `~` and the variable, written without a gap between
//!    them, become one identifier: the first one's text followed by the value.
//! 2. *Substitute*: the variable alone becomes a literal that holds the value.
//! 3. *Keep*: anything else is copied; a group is copied with its contents rewritten.

use crate::decimal::{decimal, decimal_text};
use crate::span::SourceSpan;
use crate::template::TemplateSpec;
use crate::token::{lemma_group_view, position_of, Token, TokenView};
use vstd::prelude::*;
use vstd::string::StringExecFns;

verus! {

/// The character that joins an identifier to the variable that follows it.
pub const PASTE: char = '~';

/// `tokens[at], tokens[at + 1], tokens[at + 2]` are an identifier, the paste
/// character and the variable, and each begins where the one before it ends.
pub open spec fn paste_at(tokens: Seq<TokenView>, at: int, variable: Seq<char>) -> bool {
    &&& 0 <= at
    &&& at + 2 < tokens.len()
    &&& tokens[at] is Identifier
    &&& tokens[at + 1] is Punctuation
    &&& tokens[at + 2] is Identifier
    &&& tokens[at + 1]->character == PASTE
    &&& tokens[at + 2]->Identifier_text == variable
    &&& tokens[at]->Identifier_position.touches(tokens[at + 1]->Punctuation_position)
    &&& tokens[at + 1]->Punctuation_position.touches(tokens[at + 2]->Identifier_position)
}

/// The identifier that a paste makes of `prefix` and `n`: the prefix's text with the
/// decimal text of `n` behind it, at the prefix's position.
pub open spec fn pasted(prefix: TokenView, n: int) -> TokenView {
    TokenView::Identifier {
        text: prefix->Identifier_text + decimal(n),
        position: prefix->Identifier_position,
    }
}

/// The literal that stands for the variable: the decimal text of `n`, without a suffix.
pub open spec fn substituted(n: int) -> TokenView {
    TokenView::Literal { text: decimal(n), position: SourceSpan::spec_call_site() }
}

/// What becomes of a single token that no paste consumes.
pub open spec fn rewrite(token: TokenView, variable: Seq<char>, n: int) -> TokenView
    decreases token, 0int,
{
    match token {
        TokenView::Group { delimiter, children, position } => TokenView::Group {
            delimiter,
            children: expand_from(children, 0, variable, n),
            position,
        },
        TokenView::Identifier { text, position } => if text == variable {
            substituted(n)
        } else {
            token
        },
        TokenView::Literal { .. } => token,
        TokenView::Punctuation { .. } => token,
    }
}

/// The expansion of `tokens[from..]`: a paste takes three tokens and gives one, any
/// other token gives one.
pub open spec fn expand_from(
    tokens: Seq<TokenView>,
    from: int,
    variable: Seq<char>,
    n: int,
) -> Seq<TokenView>
    decreases tokens, tokens.len() - from,
{
    if from < 0 || from >= tokens.len() {
        Seq::empty()
    } else if paste_at(tokens, from, variable) {
        seq![pasted(tokens[from], n)] + expand_from(tokens, from + 3, variable, n)
    } else {
        seq![rewrite(tokens[from], variable, n)] + expand_from(tokens, from + 1, variable, n)
    }
}

/// The expansion of a whole body for the value `n`.
pub open spec fn expand_view(body: Seq<TokenView>, variable: Seq<char>, n: int) -> Seq<TokenView> {
    expand_from(body, 0, variable, n)
}

/// Whether the variable is named anywhere in `token`, at any depth.
pub open spec fn token_mentions(token: TokenView, variable: Seq<char>) -> bool
    decreases token, 0int,
{
    match token {
        TokenView::Group { children, .. } => mentions_from(children, 0, variable),
        TokenView::Identifier { text, .. } => text == variable,
        TokenView::Literal { .. } => false,
        TokenView::Punctuation { .. } => false,
    }
}

/// Whether the variable is named anywhere in `tokens[from..]`, at any depth.
pub open spec fn mentions_from(tokens: Seq<TokenView>, from: int, variable: Seq<char>) -> bool
    decreases tokens, tokens.len() - from,
{
    if from < 0 || from >= tokens.len() {
        false
    } else {
        token_mentions(tokens[from], variable) || mentions_from(tokens, from + 1, variable)
    }
}

/// Whether the variable is named anywhere in `body`, at any depth.
pub open spec fn mentions(body: Seq<TokenView>, variable: Seq<char>) -> bool {
    mentions_from(body, 0, variable)
}

/// The rules are tried longest first: where the three tokens of a paste stand at
/// `at`, they are consumed together and give the fused identifier, also where the
/// first of them is itself the variable.
pub proof fn lemma_paste_comes_first(tokens: Seq<TokenView>, at: int, variable: Seq<char>, n: int)
    requires
        paste_at(tokens, at, variable),
    ensures
        expand_from(tokens, at, variable, n) == seq![pasted(tokens[at], n)] + expand_from(
            tokens,
            at + 3,
            variable,
            n,
        ),
        expand_from(tokens, at, variable, n)[0] is Identifier,
        expand_from(tokens, at, variable, n)[0] != substituted(n),
{
}

/// Without a paste at `at`, the token there is rewritten by itself, and the next
/// token is looked at afresh.
pub proof fn lemma_single_step(tokens: Seq<TokenView>, at: int, variable: Seq<char>, n: int)
    requires
        0 <= at < tokens.len(),
        !paste_at(tokens, at, variable),
    ensures
        expand_from(tokens, at, variable, n) == seq![rewrite(tokens[at], variable, n)]
            + expand_from(tokens, at + 1, variable, n),
{
}

/// A gap prevents a paste. Where an identifier, the paste character and the
/// variable follow one another but do not touch at both joints, none of them is
/// consumed by a paste at `at`: the identifier is kept (or, if it is the variable
/// itself, replaced by the literal), the paste character is kept as it is, whatever
/// the value, and the expansion goes on at the variable, which becomes the literal
/// unless it is itself the first token of a paste.
pub proof fn lemma_gap_prevents_paste(tokens: Seq<TokenView>, at: int, variable: Seq<char>, n: int)
    requires
        0 <= at,
        at + 2 < tokens.len(),
        tokens[at] is Identifier,
        tokens[at + 1] is Punctuation,
        tokens[at + 2] is Identifier,
        tokens[at + 2]->Identifier_text == variable,
        !(position_of(tokens[at]).touches(position_of(tokens[at + 1])) && position_of(
            tokens[at + 1],
        ).touches(position_of(tokens[at + 2]))),
    ensures
        !paste_at(tokens, at, variable),
        expand_from(tokens, at, variable, n) == seq![
            if tokens[at]->Identifier_text == variable {
                substituted(n)
            } else {
                tokens[at]
            },
            tokens[at + 1],
        ] + expand_from(tokens, at + 2, variable, n),
        !paste_at(tokens, at + 2, variable) ==> expand_from(tokens, at + 2, variable, n)[0]
            == substituted(n),
{
    reveal_with_fuel(expand_from, 3);
    assert(!paste_at(tokens, at, variable));
    assert(!paste_at(tokens, at + 1, variable));
    let head = seq![rewrite(tokens[at], variable, n)];
    let next = seq![rewrite(tokens[at + 1], variable, n)];
    let rest = expand_from(tokens, at + 2, variable, n);
    assert(head + (next + rest) =~= seq![
        if tokens[at]->Identifier_text == variable {
            substituted(n)
        } else {
            tokens[at]
        },
        tokens[at + 1],
    ] + rest);
}

/// A group stays a group: its brackets and its position are kept, and its contents
/// are the expansion of what it held.
pub proof fn lemma_group_is_preserved(
    tokens: Seq<TokenView>,
    at: int,
    variable: Seq<char>,
    n: int,
)
    requires
        0 <= at < tokens.len(),
        tokens[at] is Group,
    ensures
        expand_from(tokens, at, variable, n).len() >= 1,
        expand_from(tokens, at, variable, n)[0] == (TokenView::Group {
            delimiter: tokens[at]->delimiter,
            children: expand_view(tokens[at]->children, variable, n),
            position: tokens[at]->Group_position,
        }),
        expand_from(tokens, at, variable, n) == seq![rewrite(tokens[at], variable, n)]
            + expand_from(tokens, at + 1, variable, n),
{
}

/// A body that does not name the variable expands to itself, for every value.
pub proof fn lemma_without_variable_unchanged(body: Seq<TokenView>, variable: Seq<char>, n: int)
    requires
        !mentions(body, variable),
    ensures
        expand_view(body, variable, n) == body,
{
    lemma_unmentioned_from(body, 0, variable, n);
    assert(body.subrange(0, body.len() as int) =~= body);
}

proof fn lemma_unmentioned_from(tokens: Seq<TokenView>, from: int, variable: Seq<char>, n: int)
    requires
        0 <= from <= tokens.len(),
        !mentions_from(tokens, from, variable),
    ensures
        expand_from(tokens, from, variable, n) == tokens.subrange(from, tokens.len() as int),
    decreases tokens, tokens.len() - from,
{
    let rest = tokens.subrange(from, tokens.len() as int);
    if from == tokens.len() {
        assert(rest =~= Seq::<TokenView>::empty());
    } else {
        assert(!token_mentions(tokens[from], variable));
        assert(!mentions_from(tokens, from + 1, variable));
        if from + 2 < tokens.len() {
            reveal_with_fuel(mentions_from, 3);
            assert(!token_mentions(tokens[from + 2], variable));
        }
        assert(!paste_at(tokens, from, variable));
        match tokens[from] {
            TokenView::Group { delimiter, children, position } => {
                lemma_unmentioned_from(children, 0, variable, n);
                assert(children.subrange(0, children.len() as int) =~= children);
            },
            _ => {},
        }
        assert(rewrite(tokens[from], variable, n) == tokens[from]);
        lemma_unmentioned_from(tokens, from + 1, variable, n);
        assert(rest =~= seq![tokens[from]] + tokens.subrange(from + 1, tokens.len() as int));
    }
}

/// The expansion is a function of the body, the variable's name and the value: two
/// results that `expand` may return for equal inputs are equal, whichever template
/// they were asked of and whatever was expanded before.
pub proof fn lemma_expand_is_repeatable(
    first_template: TemplateSpec,
    second_template: TemplateSpec,
    first_body: Vec<Token>,
    second_body: Vec<Token>,
    n: i64,
    first: Vec<Token>,
    second: Vec<Token>,
)
    requires
        first_template.variable.text@ == second_template.variable.text@,
        first_body.deep_view() == second_body.deep_view(),
        first.deep_view() == expand_view(
            first_body.deep_view(),
            first_template.variable.text@,
            n as int,
        ),
        second.deep_view() == expand_view(
            second_body.deep_view(),
            second_template.variable.text@,
            n as int,
        ),
    ensures
        first.deep_view() == second.deep_view(),
{
}

impl TemplateSpec {
    /// Rewrites `body` for the value `n` of this template's variable.
    ///
    /// The result depends on `body`, on the variable's name and on `n` alone, and
    /// there is no input on which it fails.
    pub fn expand(&self, body: &Vec<Token>, n: i64) -> (out: Vec<Token>)
        ensures
            out.deep_view() == expand_view(body.deep_view(), self.variable.text@, n as int),
        decreases body,
    {
        let ghost source = body.deep_view();
        let ghost variable = self.variable.text@;
        let mut out: Vec<Token> = Vec::new();
        let mut idx: usize = 0;
        while idx < body.len()
            invariant
                idx <= body.len(),
                source == body.deep_view(),
                variable == self.variable.text@,
                expand_from(source, 0, variable, n as int) == out.deep_view() + expand_from(
                    source,
                    idx as int,
                    variable,
                    n as int,
                ),
            decreases body.len() - idx,
        {
            let ghost done = out.deep_view();
            let ghost rest = expand_from(source, idx as int, variable, n as int);
            assert(source[idx as int] == body@[idx as int].deep_view());
            let mut consumed: usize = 1;
            match &body[idx] {
                Token::Group { delimiter, children, position } => {
                    let inner = self.expand(children, n);
                    let group = Token::Group {
                        delimiter: *delimiter,
                        children: inner,
                        position: *position,
                    };
                    proof {
                        lemma_group_view(*delimiter, *children, *position);
                        lemma_group_view(*delimiter, inner, *position);
                        assert(group.deep_view() == rewrite(source[idx as int], variable, n as int));
                    }
                    out.push(group);
                },
                Token::Identifier { text, position } => {
                    let mut is_paste = false;
                    if body.len() - idx > 2 {
                        assert(source[idx + 1] == body@[idx + 1].deep_view());
                        assert(source[idx + 2] == body@[idx + 2].deep_view());
                        if let Token::Punctuation { character, position: joint } = &body[idx + 1] {
                            if *character == PASTE {
                                if let Token::Identifier { text: name, position: last } = &body[idx
                                    + 2] {
                                    if *name == self.variable.text && position.is_followed_by(joint)
                                        && joint.is_followed_by(last) {
                                        is_paste = true;
                                    }
                                }
                            }
                        }
                    }
                    assert(is_paste == paste_at(source, idx as int, variable));
                    if is_paste {
                        let digits = decimal_text(n);
                        let fused = Token::Identifier {
                            text: text.clone().concat(digits.as_str()),
                            position: *position,
                        };
                        assert(fused.deep_view() == pasted(source[idx as int], n as int));
                        out.push(fused);
                        consumed = 3;
                    } else if *text == self.variable.text {
                        let literal = Token::Literal {
                            text: decimal_text(n),
                            position: SourceSpan::call_site(),
                        };
                        out.push(literal);
                    } else {
                        out.push(Token::Identifier { text: text.clone(), position: *position });
                    }
                },
                Token::Literal { text, position } => {
                    out.push(Token::Literal { text: text.clone(), position: *position });
                },
                Token::Punctuation { character, position } => {
                    out.push(Token::Punctuation { character: *character, position: *position });
                },
            }
            proof {
                let made = out@[out.len() - 1].deep_view();
                assert(out.deep_view() =~= done.push(made));
                assert(rest == seq![made] + expand_from(
                    source,
                    idx + consumed,
                    variable,
                    n as int,
                ));
                assert(done + rest =~= done.push(made) + expand_from(
                    source,
                    idx + consumed,
                    variable,
                    n as int,
                ));
            }
            idx += consumed;
        }
        assert(out.deep_view() =~= out.deep_view() + Seq::<TokenView>::empty());
        out
    }
}

} // verus!
