//! The parsed form of a repetition: a variable, a range and a body.

use crate::span::SourceSpan;
use crate::token::{Token, TokenView};
use vstd::prelude::*;

verus! {

/// A name together with the place where it was written.
#[derive(Debug, PartialEq, Eq)]
pub struct Identifier {
    pub text: String,
    pub position: SourceSpan,
}

/// One repetition: the body is to be written out once for each `n` with
/// `start <= n < end`, in ascending order.
///
/// A template is well formed when `start <= end` ([`TemplateView::in_order`]); the
/// parser gives no other. The variable is found in the body by its name, not by its
/// position.
#[derive(Debug, PartialEq, Eq)]
pub struct TemplateSpec {
    pub variable: Identifier,
    pub start: i64,
    pub end: i64,
    pub body: Vec<Token>,
}

/// The mathematical value of a [`TemplateSpec`].
pub struct TemplateView {
    pub variable: Seq<char>,
    pub variable_position: SourceSpan,
    pub start: int,
    pub end: int,
    pub body: Seq<TokenView>,
}

impl TemplateView {
    /// The invariant of a template: the range does not end before it starts.
    pub open spec fn in_order(self) -> bool {
        self.start <= self.end
    }

    /// How many values the range holds.
    pub open spec fn count(self) -> nat {
        if self.in_order() {
            (self.end - self.start) as nat
        } else {
            0
        }
    }
}

impl DeepView for TemplateSpec {
    type V = TemplateView;

    open spec fn deep_view(&self) -> TemplateView {
        TemplateView {
            variable: self.variable.text@,
            variable_position: self.variable.position,
            start: self.start as int,
            end: self.end as int,
            body: self.body.deep_view(),
        }
    }
}

impl View for TemplateSpec {
    type V = TemplateView;

    open spec fn view(&self) -> TemplateView {
        self.deep_view()
    }
}

} // verus!
