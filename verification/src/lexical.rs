//! What the text of a single token says: whether a word may serve as a name, and
//! which integer a literal stands for.
//!
//! Two questions are put to the parser of the language itself, so that the answers
//! are the compiler's own: whether a text is a name, and with which digits an
//! integer literal is written. Their answers are not proved here: they are named,
//! and the contracts that rest on them speak of those names. What the digits amount
//! to is worked out, and proved, here.

use crate::decimal::{fitting, integer_of, read_decimal};
use vstd::prelude::*;

verus! {

/// A literal's text, read as an integer.
#[derive(Clone, Copy, Debug, PartialEq, Eq, Structural)]
pub enum IntLiteral {
    /// The text is not an integer literal.
    NotInteger,
    /// The text is an integer literal, and its value does not fit into an `i64`.
    OutOfRange,
    /// The text is an integer literal of this value.
    Value(i64),
}

/// Whether `text` is a name: a single identifier of the language that is neither
/// `_` nor one of its reserved words, with nothing around it but blanks and
/// comments.
pub uninterp spec fn is_name(text: Seq<char>) -> bool;

/// The digits of `text` where it is an integer literal of the language: its value
/// written in base 10, after a `-` where the literal has one, whatever base,
/// digit separators and type suffix the literal is written with.
pub uninterp spec fn int_digits_of(text: Seq<char>) -> Option<Seq<char>>;

/// What an integer literal with these digits stands for. Digits that are no
/// integer, or none that fits, give `OutOfRange`.
pub open spec fn classified(digits: Option<Seq<char>>) -> IntLiteral {
    match digits {
        None => IntLiteral::NotInteger,
        Some(digits) => match fitting(integer_of(digits)) {
            Some(value) => IntLiteral::Value(value),
            None => IntLiteral::OutOfRange,
        },
    }
}

/// What `text` stands for as an integer literal.
pub open spec fn int_literal_of(text: Seq<char>) -> IntLiteral {
    classified(int_digits_of(text))
}

/// Asks `syn::parse_str::<syn::Ident>` whether `text` is a name.
///
/// That parser splits the text into tokens, skipping blanks and comments, and
/// accepts it where the tokens are exactly one identifier that is neither `_` nor a
/// reserved word. The answer is taken as it comes and is called `is_name(text)`.
/// Inside a procedural macro the text is split by the compiler; each call leaves
/// the text in the table of sources that proc-macro2 keeps for the thread.
#[verifier::external_body]
pub(crate) fn accepts_name(text: &str) -> (r: bool)
    ensures
        r == is_name(text@),
{
    syn::parse_str::<syn::Ident>(text).is_ok()
}

/// Reads `text` as a literal with `proc_macro2::Literal`'s `from_str`, has
/// `syn::Lit::new` say of which kind it is, and takes the digits of an integer
/// literal from `syn::LitInt::base10_digits`.
///
/// Text that is no literal at all, or a literal of another kind, gives `None`. The
/// digits are taken as they come and are called `int_digits_of(text)`; nothing is
/// claimed of them. Inside a procedural macro the text is read by the compiler;
/// each call leaves the text in the table of sources that proc-macro2 keeps for
/// the thread.
#[verifier::external_body]
pub(crate) fn read_int_digits(text: &str) -> (r: Option<String>)
    ensures
        match r {
            Some(digits) => int_digits_of(text@) == Some(digits@),
            None => int_digits_of(text@) is None,
        },
{
    match text.parse::<proc_macro2::Literal>() {
        Ok(token) => match syn::Lit::new(token) {
            syn::Lit::Int(number) => Some(number.base10_digits().to_string()),
            _ => None,
        },
        Err(_) => None,
    }
}

/// Works out what an integer literal with these digits stands for.
pub fn classify(digits: &Option<String>) -> (r: IntLiteral)
    ensures
        r == classified(
            match digits {
                Some(digits) => Some(digits@),
                None => None,
            },
        ),
{
    match digits {
        None => IntLiteral::NotInteger,
        Some(digits) => match read_decimal(digits.as_str()) {
            Some(value) => IntLiteral::Value(value),
            None => IntLiteral::OutOfRange,
        },
    }
}

/// Reads the text of a literal token as an integer.
pub fn read_int_literal(text: &str) -> (r: IntLiteral)
    ensures
        r == int_literal_of(text@),
{
    let digits = read_int_digits(text);
    classify(&digits)
}

} // verus!
