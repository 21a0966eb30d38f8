//! Source positions, and the adjacency test that token pasting rests on.

use vstd::prelude::*;

verus! {

/// A place in a source file: a line and a column on it.
#[derive(Clone, Copy, Debug, PartialEq, Eq, Structural)]
pub struct LineColumn {
    pub line: usize,
    pub column: usize,
}

/// The stretch of source text that a token was read from.
#[derive(Clone, Copy, Debug, PartialEq, Eq, Structural)]
pub struct SourceSpan {
    pub start: LineColumn,
    pub end: LineColumn,
}

impl SourceSpan {
    /// `next` begins exactly where `self` ends: no blank and no token lies between them.
    pub open spec fn touches(self, next: SourceSpan) -> bool {
        self.end == next.start
    }

    /// Tells whether `next` begins exactly where `self` ends.
    pub fn is_followed_by(&self, next: &SourceSpan) -> (r: bool)
        ensures
            r == self.touches(*next),
    {
        self.end.line == next.start.line && self.end.column == next.start.column
    }

    /// The position of a token that was made, not read from the text: an empty span
    /// at the very beginning, line 1, column 0.
    pub open spec fn spec_call_site() -> SourceSpan {
        SourceSpan {
            start: LineColumn { line: 1, column: 0 },
            end: LineColumn { line: 1, column: 0 },
        }
    }

    /// The position that tokens get which were made, not read from the text.
    #[verifier::when_used_as_spec(spec_call_site)]
    pub fn call_site() -> (r: SourceSpan)
        ensures
            r == Self::spec_call_site(),
    {
        SourceSpan {
            start: LineColumn { line: 1, column: 0 },
            end: LineColumn { line: 1, column: 0 },
        }
    }

    /// A span from `(start_line, start_column)` to `(end_line, end_column)`.
    pub fn new(start_line: usize, start_column: usize, end_line: usize, end_column: usize) -> (r:
        SourceSpan)
        ensures
            r == (SourceSpan {
                start: LineColumn { line: start_line, column: start_column },
                end: LineColumn { line: end_line, column: end_column },
            }),
    {
        SourceSpan {
            start: LineColumn { line: start_line, column: start_column },
            end: LineColumn { line: end_line, column: end_column },
        }
    }
}

} // verus!
