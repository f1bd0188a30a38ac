//! Values annotated with the range of source text they came from.

use vstd::prelude::*;

verus! {

/// A range of the source text: `len` characters starting at `offset`.
#[derive(Clone, Copy, Debug, PartialEq, Eq)]
pub struct Span {
    pub offset: usize,
    pub len: usize,
}

impl Span {
    /// Builds the span that starts at `offset` and is `len` long.
    pub fn new(offset: usize, len: usize) -> (s: Span)
        ensures
            s.offset == offset,
            s.len == len,
    {
        Span { offset, len }
    }

    /// The span covering `start..end`; an inverted range is empty.
    pub fn from_range(start: usize, end: usize) -> (s: Span)
        ensures
            s.offset == start,
            s.len == if end >= start { end - start } else { 0 },
    {
        let len = if end >= start { end - start } else { 0 };
        Span { offset: start, len }
    }
}

/// A value together with the source range `start..end` it was read from.
#[derive(Clone, Debug)]
pub struct Spanned<T> {
    pub start: usize,
    pub end: usize,
    pub value: T,
}

impl<T> Spanned<T> {
    /// Wraps `value` with the range that `span` covers.
    pub fn new(value: T, span: Span) -> (s: Self)
        requires
            span.offset + span.len <= usize::MAX,
        ensures
            s.value == value,
            s.start == span.offset,
            s.end == span.offset + span.len,
    {
        Spanned { value, start: span.offset, end: span.offset + span.len }
    }

    /// Wraps `value` with the empty range at the start of the text.
    pub fn from_value(value: T) -> (s: Self)
        ensures
            s.value == value,
            s.start == 0,
            s.end == 0,
    {
        Spanned { start: 0, end: 0, value }
    }

    /// The start of the range.
    pub fn start(this: &Self) -> (r: usize)
        ensures
            r == this.start,
    {
        this.start
    }

    /// The end of the range.
    pub fn end(this: &Self) -> (r: usize)
        ensures
            r == this.end,
    {
        this.end
    }

    /// Replaces the range, leaving the value as it was.
    pub fn update_span(this: &mut Self, start: usize, end: usize)
        ensures
            final(this).start == start,
            final(this).end == end,
            final(this).value == old(this).value,
    {
        this.start = start;
        this.end = end;
    }

    /// The range as a span (empty when `end` lies before `start`).
    pub fn span(this: &Self) -> (s: Span)
        ensures
            s.offset == this.start,
            s.len == if this.end >= this.start { this.end - this.start } else { 0 },
    {
        Span::from_range(this.start, this.end)
    }

    /// Gives back the value, dropping the range.
    pub fn into_inner(this: Self) -> (v: T)
        ensures
            v == this.value,
    {
        this.value
    }

    /// Borrows the value.
    pub fn get(&self) -> (v: &T)
        ensures
            *v == self.value,
    {
        &self.value
    }
}

} // verus!
