use vstd::prelude::*;

verus! {

/// A half-open range `[start, end)` of character offsets into one source
/// text. Spans locate diagnostics; they never carry semantic meaning.
#[derive(Clone, Copy, Debug, PartialEq, Eq, Structural)]
pub struct Span(pub usize, pub usize);

impl Span {
    /// A span covering the offsets from `start` (inclusive) to `end`
    /// (exclusive).
    pub fn from_range(start: usize, end: usize) -> (s: Span)
        ensures
            s == Span(start, end),
    {
        Span(start, end)
    }

    /// The union of two spans: from the start of `self` to the end of
    /// `other`. Composite nodes take the span of their first and last
    /// consumed tokens.
    pub fn to(&self, other: &Span) -> (s: Span)
        ensures
            s == Span(self.0, other.1),
    {
        Span::from_range(self.0, other.1)
    }
}

} // verus!
