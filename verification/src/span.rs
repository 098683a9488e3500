//! Half-open ranges of character offsets into a source text.

use crate::decimal::{decimal, push_decimal};
use vstd::prelude::*;

verus! {

/// The offsets `start..end` of a piece of source text; `end` is exclusive.
#[derive(Debug, Clone, Copy, PartialEq, Eq, Structural)]
pub struct Span {
    pub start: usize,
    pub end: usize,
}

impl Span {
    /// A span never ends before it starts.
    pub open spec fn wf(&self) -> bool {
        self.start <= self.end
    }

    /// The number of offsets the span covers.
    pub open spec fn spec_len(&self) -> int {
        self.end - self.start
    }

    /// Create a new span with the given start and end positions.
    /// Note that the end position is exclusive.
    pub fn new(start: usize, end: usize) -> (span: Self)
        requires
            start <= end,
        ensures
            span.start == start,
            span.end == end,
            span.wf(),
    {
        Span { start, end }
    }

    /// Get the length of the span.
    pub fn len(&self) -> (n: usize)
        requires
            self.wf(),
        ensures
            n == self.spec_len(),
    {
        self.end - self.start
    }

    /// Check if the span is empty.
    pub fn is_empty(&self) -> (b: bool)
        ensures
            b == (self.start == self.end),
    {
        self.start == self.end
    }

    /// The canonical text of the span: `[`, the start, two dots, the end, `]`,
    /// both offsets in decimal.
    pub open spec fn text(&self) -> Seq<char> {
        seq!['['] + decimal(self.start as nat) + seq!['.', '.'] + decimal(self.end as nat)
            + seq![']']
    }

    /// Appends the canonical text of the span to `out`.
    pub fn push_text(&self, out: &mut String)
        ensures
            final(out)@ == old(out)@ + self.text(),
    {
        out.push('[');
        push_decimal(out, self.start);
        out.push('.');
        out.push('.');
        push_decimal(out, self.end);
        out.push(']');
        assert(final(out)@ =~= old(out)@ + self.text());
    }

    /// Renders the span as its canonical text.
    pub fn to_string(&self) -> (s: String)
        ensures
            s@ == self.text(),
    {
        let mut s = String::new();
        self.push_text(&mut s);
        assert(s@ =~= self.text());
        s
    }
}

} // verus!
