//! Reading an invocation of the shape `N in 0..4 { body }`.
//!
//! The grammar is fixed: a name, the word `in`, an integer literal, two dots written
//! without a gap, a second integer literal, and one group in braces. Nothing may
//! follow. The tokens are taken in this order and the first one that does not fit is
//! reported; there is nothing to go back on.
//!
//! Each bound is one literal token. A sign written in front of a number is a token
//! of its own, so `N in -1..2 { .. }` is refused at the `-`: it is no integer
//! literal. A range cannot end before it starts; it may be empty.

use crate::lexical::{accepts_name, int_literal_of, is_name, read_int_literal, IntLiteral};
use crate::span::SourceSpan;
use crate::template::{Identifier, TemplateSpec, TemplateView};
use crate::token::{lemma_group_view, position_of, Delimiter, Token, TokenView};
use vstd::pervasive::unreached;
use vstd::prelude::*;
use vstd::string::StringExecFns;

verus! {

/// What the parser looked for where it gave up.
#[derive(Clone, Copy, Debug, PartialEq, Eq, Structural)]
pub enum SyntaxErrorKind {
    /// The invocation does not begin with a name.
    ExpectedIdentifier,
    /// The word `in` does not follow the name.
    ExpectedIn,
    /// A bound of the range is not an integer literal.
    ExpectedInteger,
    /// The two bounds are not separated by `..`.
    ExpectedRange,
    /// The body is not a group in braces.
    ExpectedBraces,
    /// A bound of the range does not fit into 64 bits.
    IntegerOutOfRange,
    /// The range ends before it starts.
    ReversedRange,
    /// Something follows the body.
    UnexpectedToken,
}

/// A violation of the grammar: what was expected, at which token, and where in the
/// source that token stands.
#[derive(Clone, Copy, Debug, PartialEq, Eq)]
pub struct SyntaxError {
    pub kind: SyntaxErrorKind,
    /// The index of the offending token; the number of tokens where the input
    /// ended too early.
    pub index: usize,
    /// The position of the offending token; `None` where the input ended too early.
    pub position: Option<SourceSpan>,
}

impl SyntaxErrorKind {
    /// The words that name what was expected.
    pub open spec fn text(self) -> Seq<char> {
        match self {
            SyntaxErrorKind::ExpectedIdentifier => "expected identifier"@,
            SyntaxErrorKind::ExpectedIn => "expected `in`"@,
            SyntaxErrorKind::ExpectedInteger => "expected integer literal"@,
            SyntaxErrorKind::ExpectedRange => "expected `..`"@,
            SyntaxErrorKind::ExpectedBraces => "expected curly braces"@,
            SyntaxErrorKind::IntegerOutOfRange => "integer literal out of range"@,
            SyntaxErrorKind::ReversedRange => "range ends before it starts"@,
            SyntaxErrorKind::UnexpectedToken => "unexpected token"@,
        }
    }
}

impl SyntaxError {
    /// The message of the error: what was expected, and before it a remark where the
    /// input ended too early.
    pub open spec fn message_view(self) -> Seq<char> {
        if self.position is None {
            "unexpected end of input, "@ + self.kind.text()
        } else {
            self.kind.text()
        }
    }

    /// The message of the error, for a reader.
    pub fn message(&self) -> (r: String)
        ensures
            r@ == self.message_view(),
    {
        let text = match self.kind {
            SyntaxErrorKind::ExpectedIdentifier => "expected identifier",
            SyntaxErrorKind::ExpectedIn => "expected `in`",
            SyntaxErrorKind::ExpectedInteger => "expected integer literal",
            SyntaxErrorKind::ExpectedRange => "expected `..`",
            SyntaxErrorKind::ExpectedBraces => "expected curly braces",
            SyntaxErrorKind::IntegerOutOfRange => "integer literal out of range",
            SyntaxErrorKind::ReversedRange => "range ends before it starts",
            SyntaxErrorKind::UnexpectedToken => "unexpected token",
        };
        match self.position {
            Some(_) => String::from_str(text),
            None => String::from_str("unexpected end of input, ").concat(text),
        }
    }
}

/// The token is the word `in`.
pub open spec fn is_keyword_in(token: TokenView) -> bool {
    token is Identifier && token->Identifier_text == seq!['i', 'n']
}

/// The token is a single dot.
pub open spec fn is_dot(token: TokenView) -> bool {
    token is Punctuation && token->character == '.'
}

/// The two tokens are the range operator: two dots, the second written directly
/// after the first.
pub open spec fn is_range_operator(first: TokenView, second: TokenView) -> bool {
    is_dot(first) && is_dot(second) && position_of(first).touches(position_of(second))
}

/// The token is a group in braces.
pub open spec fn is_braced(token: TokenView) -> bool {
    token is Group && token->delimiter == Delimiter::Brace
}

/// The error of kind `kind` at the token `index` of `tokens`.
pub open spec fn error_at(tokens: Seq<TokenView>, index: int, kind: SyntaxErrorKind) -> SyntaxError {
    SyntaxError {
        kind,
        index: index as usize,
        position: if 0 <= index < tokens.len() {
            Some(position_of(tokens[index]))
        } else {
            None
        },
    }
}

/// The first violation of the grammar in `tokens`, if there is one.
///
/// `named` says whether the first token's text is a name, `start` and `end` what
/// the texts of the two bounds stand for. The shape is checked token by token; the
/// values of the bounds are looked at after the shape: whether each fits, then
/// whether the range ends before it starts, which is reported at the end bound. What
/// follows the body comes last.
pub open spec fn violation(
    tokens: Seq<TokenView>,
    named: bool,
    start: IntLiteral,
    end: IntLiteral,
) -> Option<SyntaxError> {
    if !(tokens.len() > 0 && tokens[0] is Identifier && named) {
        Some(error_at(tokens, 0, SyntaxErrorKind::ExpectedIdentifier))
    } else if !(tokens.len() > 1 && is_keyword_in(tokens[1])) {
        Some(error_at(tokens, 1, SyntaxErrorKind::ExpectedIn))
    } else if !(tokens.len() > 2 && tokens[2] is Literal && !(start is NotInteger)) {
        Some(error_at(tokens, 2, SyntaxErrorKind::ExpectedInteger))
    } else if !(tokens.len() > 4 && is_range_operator(tokens[3], tokens[4])) {
        Some(error_at(tokens, 3, SyntaxErrorKind::ExpectedRange))
    } else if !(tokens.len() > 5 && tokens[5] is Literal && !(end is NotInteger)) {
        Some(error_at(tokens, 5, SyntaxErrorKind::ExpectedInteger))
    } else if !(tokens.len() > 6 && is_braced(tokens[6])) {
        Some(error_at(tokens, 6, SyntaxErrorKind::ExpectedBraces))
    } else if start is OutOfRange {
        Some(error_at(tokens, 2, SyntaxErrorKind::IntegerOutOfRange))
    } else if end is OutOfRange {
        Some(error_at(tokens, 5, SyntaxErrorKind::IntegerOutOfRange))
    } else if end->Value_0 < start->Value_0 {
        Some(error_at(tokens, 5, SyntaxErrorKind::ReversedRange))
    } else if tokens.len() > 7 {
        Some(error_at(tokens, 7, SyntaxErrorKind::UnexpectedToken))
    } else {
        None
    }
}

/// What parsing `tokens` gives, once the first token's text and the texts of the
/// bounds have been classified: the first violation, or else the template that the
/// tokens spell out.
pub open spec fn parse_classified_view(
    tokens: Seq<TokenView>,
    named: bool,
    start: IntLiteral,
    end: IntLiteral,
) -> Result<TemplateView, SyntaxError> {
    match violation(tokens, named, start, end) {
        Some(error) => Err(error),
        None => Ok(
            TemplateView {
                variable: tokens[0]->Identifier_text,
                variable_position: tokens[0]->Identifier_position,
                start: start->Value_0 as int,
                end: end->Value_0 as int,
                body: tokens[6]->children,
            },
        ),
    }
}

/// Whether the token `index` of `tokens` is an identifier whose text is a name.
pub open spec fn name_at(tokens: Seq<TokenView>, index: int) -> bool {
    0 <= index < tokens.len() && tokens[index] is Identifier && is_name(
        tokens[index]->Identifier_text,
    )
}

/// What the token `index` of `tokens` stands for as an integer literal.
pub open spec fn literal_at(tokens: Seq<TokenView>, index: int) -> IntLiteral {
    if 0 <= index < tokens.len() && tokens[index] is Literal {
        int_literal_of(tokens[index]->Literal_text)
    } else {
        IntLiteral::NotInteger
    }
}

/// What parsing `tokens` gives.
pub open spec fn parse_view(tokens: Seq<TokenView>) -> Result<TemplateView, SyntaxError> {
    parse_classified_view(tokens, name_at(tokens, 0), literal_at(tokens, 2), literal_at(tokens, 5))
}

/// The tokens have the shape of an invocation, both bounds are integers that fit,
/// and the second is not below the first: a name, `in`, a bound, the range operator,
/// a bound, a body in braces, and nothing else.
pub open spec fn well_formed(tokens: Seq<TokenView>) -> bool {
    &&& tokens.len() == 7
    &&& name_at(tokens, 0)
    &&& is_keyword_in(tokens[1])
    &&& literal_at(tokens, 2) is Value
    &&& is_range_operator(tokens[3], tokens[4])
    &&& literal_at(tokens, 5) is Value
    &&& literal_at(tokens, 2)->Value_0 <= literal_at(tokens, 5)->Value_0
    &&& is_braced(tokens[6])
}

/// Every template that parsing gives is in order: its range does not end before it
/// starts.
pub proof fn lemma_parsed_template_is_in_order(
    tokens: Seq<TokenView>,
    named: bool,
    start: IntLiteral,
    end: IntLiteral,
)
    requires
        parse_classified_view(tokens, named, start, end) is Ok,
    ensures
        parse_classified_view(tokens, named, start, end)->Ok_0.in_order(),
{
}

/// A range that ends before it starts is a syntax error.
pub proof fn lemma_reversed_range_is_rejected(
    tokens: Seq<TokenView>,
    named: bool,
    start: IntLiteral,
    end: IntLiteral,
)
    requires
        start is Value,
        end is Value,
        end->Value_0 < start->Value_0,
    ensures
        parse_classified_view(tokens, named, start, end) is Err,
{
}

/// Parsing succeeds on the well-formed invocations and on no others; every other
/// sequence of tokens is a syntax error.
pub proof fn lemma_parse_accepts_well_formed_only(tokens: Seq<TokenView>)
    ensures
        parse_view(tokens) is Ok <==> well_formed(tokens),
        parse_view(tokens) is Err <==> !well_formed(tokens),
{
}

/// An invocation in which the two bounds are not separated by the range operator is
/// a syntax error, whatever else it holds.
pub proof fn lemma_range_operator_is_required(tokens: Seq<TokenView>)
    requires
        !(tokens.len() > 4 && is_range_operator(tokens[3], tokens[4])),
    ensures
        parse_view(tokens) is Err,
{
}

/// An invocation with a bound that is not an integer literal is a syntax error,
/// whatever else it holds.
pub proof fn lemma_bounds_must_be_integers(tokens: Seq<TokenView>)
    requires
        literal_at(tokens, 2) is NotInteger || literal_at(tokens, 5) is NotInteger,
    ensures
        parse_view(tokens) is Err,
{
}

/// `result` is what `expected` says: the same error, or a template of the same value.
pub open spec fn agrees(
    result: Result<TemplateSpec, SyntaxError>,
    expected: Result<TemplateView, SyntaxError>,
) -> bool {
    match result {
        Ok(template) => expected == Ok::<TemplateView, SyntaxError>(template.deep_view()),
        Err(error) => expected == Err::<TemplateView, SyntaxError>(error),
    }
}

fn fail(tokens: &Vec<Token>, index: usize, kind: SyntaxErrorKind) -> (r: SyntaxError)
    ensures
        r == error_at(tokens.deep_view(), index as int, kind),
{
    let position = if index < tokens.len() {
        Some(tokens[index].position())
    } else {
        None
    };
    SyntaxError { kind, index, position }
}

fn keyword_in(token: &Token) -> (r: bool)
    ensures
        r == is_keyword_in(token.deep_view()),
{
    match token {
        Token::Identifier { text, .. } => {
            proof {
                reveal_strlit("in");
                assert("in"@ =~= seq!['i', 'n']);
            }
            *text == String::from_str("in")
        },
        _ => false,
    }
}

fn dot(token: &Token) -> (r: bool)
    ensures
        r == is_dot(token.deep_view()),
{
    match token {
        Token::Punctuation { character, .. } => *character == '.',
        _ => false,
    }
}

fn braced(token: &Token) -> (r: bool)
    ensures
        r == is_braced(token.deep_view()),
{
    match token {
        Token::Group { delimiter, .. } => match delimiter {
            Delimiter::Brace => true,
            _ => false,
        },
        _ => false,
    }
}

fn is_identifier(token: &Token) -> (r: bool)
    ensures
        r == (token.deep_view() is Identifier),
{
    match token {
        Token::Identifier { .. } => true,
        _ => false,
    }
}

fn is_literal(token: &Token) -> (r: bool)
    ensures
        r == (token.deep_view() is Literal),
{
    match token {
        Token::Literal { .. } => true,
        _ => false,
    }
}

/// Parses an invocation whose words have been classified already.
///
/// `named` says whether the first token's text is a name; `start` and `end` say
/// what the texts of the third and the sixth token stand for as integer literals.
/// The result is the first violation of the grammar, or the template, whose range
/// is in order.
pub fn parse_classified(tokens: Vec<Token>, named: bool, start: IntLiteral, end: IntLiteral) -> (r:
    Result<TemplateSpec, SyntaxError>)
    ensures
        agrees(r, parse_classified_view(tokens.deep_view(), named, start, end)),
        r is Ok ==> r->Ok_0@.in_order(),
{
    let ghost source = tokens.deep_view();
    let len = tokens.len();
    assert forall|i: int| 0 <= i < len implies source[i] == #[trigger] tokens@[i].deep_view() by {}
    if !(len > 0 && is_identifier(&tokens[0]) && named) {
        return Err(fail(&tokens, 0, SyntaxErrorKind::ExpectedIdentifier));
    }
    if !(len > 1 && keyword_in(&tokens[1])) {
        return Err(fail(&tokens, 1, SyntaxErrorKind::ExpectedIn));
    }
    let start_given = match start {
        IntLiteral::NotInteger => false,
        _ => true,
    };
    if !(len > 2 && is_literal(&tokens[2]) && start_given) {
        return Err(fail(&tokens, 2, SyntaxErrorKind::ExpectedInteger));
    }
    if !(len > 4 && dot(&tokens[3]) && dot(&tokens[4]) && tokens[3].position().is_followed_by(
        &tokens[4].position(),
    )) {
        return Err(fail(&tokens, 3, SyntaxErrorKind::ExpectedRange));
    }
    let end_given = match end {
        IntLiteral::NotInteger => false,
        _ => true,
    };
    if !(len > 5 && is_literal(&tokens[5]) && end_given) {
        return Err(fail(&tokens, 5, SyntaxErrorKind::ExpectedInteger));
    }
    if !(len > 6 && braced(&tokens[6])) {
        return Err(fail(&tokens, 6, SyntaxErrorKind::ExpectedBraces));
    }
    let first = match start {
        IntLiteral::Value(value) => value,
        _ => {
            return Err(fail(&tokens, 2, SyntaxErrorKind::IntegerOutOfRange));
        },
    };
    let last = match end {
        IntLiteral::Value(value) => value,
        _ => {
            return Err(fail(&tokens, 5, SyntaxErrorKind::IntegerOutOfRange));
        },
    };
    if last < first {
        return Err(fail(&tokens, 5, SyntaxErrorKind::ReversedRange));
    }
    if len > 7 {
        return Err(fail(&tokens, 7, SyntaxErrorKind::UnexpectedToken));
    }
    let variable = match &tokens[0] {
        Token::Identifier { text, position } => Identifier {
            text: text.clone(),
            position: *position,
        },
        _ => unreached(),
    };
    let mut tokens = tokens;
    let body = match tokens.pop() {
        Some(Token::Group { delimiter, children, position }) => {
            proof {
                lemma_group_view(delimiter, children, position);
            }
            children
        },
        _ => unreached(),
    };
    Ok(TemplateSpec { variable, start: first, end: last, body })
}

/// Parses an invocation: `N in 0..4 { body }`.
///
/// Gives the template that the tokens spell out, or the first violation of the
/// grammar. Whether the first word is a name and which digits a bound is written
/// with is asked of the language's own parser.
///
/// A bound is a single literal token: `-1` written as a sign and a number is
/// refused at the sign. The range of the template that is given never ends before
/// it starts.
pub fn parse(tokens: Vec<Token>) -> (r: Result<TemplateSpec, SyntaxError>)
    ensures
        agrees(r, parse_view(tokens.deep_view())),
        r is Ok ==> r->Ok_0@.in_order(),
{
    let len = tokens.len();
    assert forall|i: int| 0 <= i < len implies tokens.deep_view()[i]
        == #[trigger] tokens@[i].deep_view() by {}
    let named = len > 0 && match &tokens[0] {
        Token::Identifier { text, .. } => accepts_name(text.as_str()),
        _ => false,
    };
    let start = if len > 2 {
        match &tokens[2] {
            Token::Literal { text, .. } => read_int_literal(text.as_str()),
            _ => IntLiteral::NotInteger,
        }
    } else {
        IntLiteral::NotInteger
    };
    let end = if len > 5 {
        match &tokens[5] {
            Token::Literal { text, .. } => read_int_literal(text.as_str()),
            _ => IntLiteral::NotInteger,
        }
    } else {
        IntLiteral::NotInteger
    };
    parse_classified(tokens, named, start, end)
}

} // verus!
