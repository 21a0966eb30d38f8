//! Writing a template out: one expansion of the body for each value of the range,
//! joined in ascending order with nothing put between them.

use crate::expander::expand_view;
use crate::template::{TemplateSpec, TemplateView};
use crate::token::{Token, TokenView};
use vstd::prelude::*;

verus! {

impl TemplateView {
    /// The expansions of the body, one for each value of the range, lowest value first.
    pub open spec fn expansions(self) -> Seq<Seq<TokenView>> {
        Seq::new(self.count(), |k: int| expand_view(self.body, self.variable, self.start + k))
    }

    /// The expansions joined into one flat sequence.
    pub open spec fn emitted(self) -> Seq<TokenView> {
        self.expansions().flatten()
    }
}

/// A template with `start <= end` is written out as exactly `end - start`
/// expansions of its body, one for each value from `start` up, joined in that order.
pub proof fn lemma_one_expansion_per_value(template: TemplateView)
    requires
        template.in_order(),
    ensures
        template.expansions().len() == template.end - template.start,
        forall|k: int|
            0 <= k < template.end - template.start ==> #[trigger] template.expansions()[k]
                == expand_view(template.body, template.variable, template.start + k),
        template.emitted() == template.expansions().flatten(),
{
}

/// An empty range gives an empty result.
pub proof fn lemma_empty_range_gives_nothing(template: TemplateView)
    requires
        template.end <= template.start,
    ensures
        template.emitted() == Seq::<TokenView>::empty(),
{
    assert(template.expansions() =~= Seq::<Seq<TokenView>>::empty());
}

/// What is written for a value does not depend on the range around it: two
/// templates with the same body and variable give the same expansion for every value
/// that both ranges hold.
pub proof fn lemma_piece_depends_on_value_only(first: TemplateView, second: TemplateView, n: int)
    requires
        first.body == second.body,
        first.variable == second.variable,
        first.start <= n < first.end,
        second.start <= n < second.end,
    ensures
        first.expansions()[n - first.start] == second.expansions()[n - second.start],
        first.expansions()[n - first.start] == expand_view(first.body, first.variable, n),
{
}

/// Widening a range by one value at its end appends that value's expansion: the
/// output is in ascending order of the values.
pub proof fn lemma_emitted_grows_at_the_end(template: TemplateView, wider: TemplateView)
    requires
        template.start <= template.end,
        wider.body == template.body,
        wider.variable == template.variable,
        wider.start == template.start,
        wider.end == template.end + 1,
    ensures
        wider.emitted() == template.emitted() + expand_view(
            template.body,
            template.variable,
            template.end,
        ),
{
    let last = expand_view(template.body, template.variable, template.end);
    assert(wider.expansions() =~= template.expansions().push(last));
    template.expansions().lemma_flatten_push(last);
}

impl TemplateSpec {
    /// Writes the template out.
    ///
    /// The body is expanded for `start`, `start + 1`, ... up to `end - 1`, and the
    /// results follow one another directly. An empty range gives an empty result,
    /// and so does a template that was put together with its range out of order.
    pub fn emit(&self) -> (out: Vec<Token>)
        ensures
            out.deep_view() == self@.emitted(),
            self.end <= self.start ==> out@.len() == 0,
    {
        let ghost pieces = self@.expansions();
        let mut out: Vec<Token> = Vec::new();
        if self.start >= self.end {
            assert(pieces =~= Seq::<Seq<TokenView>>::empty());
            assert(out.deep_view() =~= pieces.flatten());
            return out;
        }
        let mut n: i64 = self.start;
        assert(pieces.take(0) =~= Seq::<Seq<TokenView>>::empty());
        assert(out.deep_view() =~= pieces.take(0).flatten());
        while n < self.end
            invariant
                self.start <= n <= self.end,
                pieces == self@.expansions(),
                out.deep_view() == pieces.take(n - self.start).flatten(),
            decreases self.end - n,
        {
            let ghost done = out.deep_view();
            let ghost k = n - self.start;
            let mut piece = self.expand(&self.body, n);
            let ghost added = piece.deep_view();
            out.append(&mut piece);
            proof {
                assert(out.deep_view() =~= done + added);
                assert(added == pieces[k]);
                assert(pieces.take(k + 1) =~= pieces.take(k).push(pieces[k]));
                pieces.take(k).lemma_flatten_push(pieces[k]);
            }
            n += 1;
        }
        assert(pieces.take(self.end - self.start) =~= pieces);
        out
    }
}

} // verus!
