//! Source spans: a byte offset into the source and a length.

use vstd::prelude::*;

verus! {

/// A region of the source text: `offset` and `len` in bytes.
#[derive(Debug, Clone, Copy, PartialEq, Eq, Structural)]
pub struct Span {
    pub offset: usize,
    pub len: usize,
}

}

verus! {

/// A wrapper type that holds a value and its source span
/// This is used to provide rich error messages with source context
#[derive(Debug, Clone, PartialEq, Eq)]
pub struct Spanned<T> {
    value: T,
    span: Span,
}

impl<T> Spanned<T> {
    pub closed spec fn spec_value(self) -> T {
        self.value
    }

    pub closed spec fn spec_span(self) -> Span {
        self.span
    }

    /// Create a new spanned value
    pub fn new(value: T, span: Span) -> (r: Self)
        ensures
            r.spec_value() == value,
            r.spec_span() == span,
    {
        Spanned { value, span }
    }

    /// Create a spanned value from byte offsets
    pub fn with_offsets(value: T, start: usize, end: usize) -> (r: Self)
        requires
            start <= end,
        ensures
            r.spec_value() == value,
            r.spec_span() == (Span { offset: start, len: (end - start) as usize }),
    {
        Spanned { value, span: Span { offset: start, len: end - start } }
    }

    /// Get a reference to the value
    pub fn value(&self) -> (r: &T)
        ensures
            *r == self.spec_value(),
    {
        &self.value
    }

    /// Get a reference to the span
    pub fn span(&self) -> (r: Span)
        ensures
            r == self.spec_span(),
    {
        self.span
    }

    /// Consume self and return the value
    pub fn into_value(self) -> (r: T)
        ensures
            r == self.spec_value(),
    {
        self.value
    }

    /// Map the value while preserving the span
    pub fn map<U, F: FnOnce(T) -> U>(self, f: F) -> (r: Spanned<U>)
        requires
            f.requires((self.spec_value(),)),
        ensures
            f.ensures((self.spec_value(),), r.spec_value()),
            r.spec_span() == self.spec_span(),
    {
        Spanned { value: f(self.value), span: self.span }
    }

    /// Try to map the value, propagating errors while preserving the span info
    pub fn try_map<U, E, F: FnOnce(T) -> Result<U, E>>(self, f: F) -> (r: Result<Spanned<U>, E>)
        requires
            f.requires((self.spec_value(),)),
        ensures
            match r {
                Ok(s) => f.ensures((self.spec_value(),), Ok(s.spec_value())) && s.spec_span()
                    == self.spec_span(),
                Err(e) => f.ensures((self.spec_value(),), Err(e)),
            },
    {
        let span = self.span;
        match f(self.value) {
            Ok(v) => Ok(Spanned { value: v, span }),
            Err(e) => Err(e),
        }
    }

    /// Combine two spanned values into a tuple, using the first span
    pub fn zip<U>(self, other: Spanned<U>) -> (r: Spanned<(T, U)>)
        ensures
            r.spec_value() == (self.spec_value(), other.spec_value()),
            r.spec_span() == self.spec_span(),
    {
        Spanned { value: (self.value, other.value), span: self.span }
    }

    /// Create a spanned value covering the range from this span to another
    pub fn join<U>(&self, other: &Spanned<U>) -> (r: Span)
        requires
            self.spec_span().offset <= other.spec_span().offset + other.spec_span().len
                <= usize::MAX,
        ensures
            r.offset == self.spec_span().offset,
            r.offset + r.len == other.spec_span().offset + other.spec_span().len,
    {
        let start = self.span.offset;
        let end = other.span.offset + other.span.len;
        Span { offset: start, len: end - start }
    }
}

}
