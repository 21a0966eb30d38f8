//! Compile-time code generation on token trees.
//!
//! The heart of the crate is a repetition expander: an invocation of the shape
//! `N in 0..4 { body }` is parsed into a [`TemplateSpec`] ([`parser`]), the body is
//! rewritten once for every value of the range ([`expander`]), and the rewritten
//! copies are joined in ascending order ([`emitter`]). [`repeat`] does the three in
//! one call.
//!
//! Beside it stand the decisions of three smaller generators, each on a plain
//! description of the declaration it is asked about: the order check for
//! enumerations and `match` arms ([`sorted`], on [`ordering`]), the plan of a
//! builder ([`builder`]), and the plan of an implementation of debug printing
//! ([`debug`]).
//!
//! Every function is verified against its contract. Two questions are put to the
//! parser of the language and believed: whether a word is a name, and with which
//! digits an integer literal is written ([`lexical`]).

pub mod builder;
pub mod debug;
pub mod decimal;
pub mod emitter;
pub mod expander;
pub mod lexical;
pub mod ordering;
pub mod parser;
pub mod repeat;
pub mod sample;
pub mod sorted;
pub mod span;
pub mod template;
pub mod token;

pub use parser::{parse, parse_classified, SyntaxError, SyntaxErrorKind};
pub use sample::{assert_debug, Trait, Wrapper};
pub use span::{LineColumn, SourceSpan};
pub use template::{Identifier, TemplateSpec, TemplateView};
pub use token::{Delimiter, Token, TokenView};
