//! The whole repetition, from the tokens of an invocation to the tokens it stands for.

use crate::parser::{parse, parse_view, SyntaxError};
use crate::token::{Token, TokenView};
use vstd::prelude::*;

verus! {

/// What an invocation stands for: the error of its first violation of the grammar,
/// or the expansions of its body joined in ascending order.
pub open spec fn seq_view(input: Seq<TokenView>) -> Result<Seq<TokenView>, SyntaxError> {
    match parse_view(input) {
        Ok(template) => Ok(template.emitted()),
        Err(error) => Err(error),
    }
}

/// `result` is what `expected` says: the same error, or tokens of the same value.
pub open spec fn seq_agrees(
    result: Result<Vec<Token>, SyntaxError>,
    expected: Result<Seq<TokenView>, SyntaxError>,
) -> bool {
    match result {
        Ok(tokens) => expected == Ok::<Seq<TokenView>, SyntaxError>(tokens.deep_view()),
        Err(error) => expected == Err::<Seq<TokenView>, SyntaxError>(error),
    }
}

/// Expands an invocation of the shape `N in 0..4 { body }`.
///
/// A malformed invocation gives its syntax error and no tokens: nothing is expanded
/// before the whole invocation has been read.
pub fn seq(input: Vec<Token>) -> (r: Result<Vec<Token>, SyntaxError>)
    ensures
        seq_agrees(r, seq_view(input.deep_view())),
{
    match parse(input) {
        Ok(template) => Ok(template.emit()),
        Err(error) => Err(error),
    }
}

/// A malformed invocation gives a syntax error, and with it no tokens at all.
pub proof fn lemma_malformed_gives_no_tokens(input: Seq<TokenView>)
    requires
        parse_view(input) is Err,
    ensures
        seq_view(input) is Err,
        seq_view(input)->Err_0 == parse_view(input)->Err_0,
{
}

} // verus!
