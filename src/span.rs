use vstd::prelude::*;

verus! {

/// A half-open interval of byte offsets into the source text.
#[derive(Debug, Clone, Copy, PartialEq, Eq, Structural, Hash, Default)]
pub struct Span {
    pub start: usize,
    pub end: usize,
}

impl Span {
    /// A span is well formed when it does not end before it starts.
    pub open spec fn wf(self) -> bool {
        self.start <= self.end
    }

    pub fn new(start: usize, end: usize) -> (r: Span)
        requires
            start <= end,
        ensures
            r.start == start,
            r.end == end,
            r.wf(),
    {
        Span { start, end }
    }

    /// The number of bytes covered.
    pub fn len(&self) -> (r: usize)
        requires
            self.wf(),
        ensures
            r == self.end - self.start,
    {
        self.end - self.start
    }
}

/// A value together with the span of source text it was read from.
#[derive(Debug, Clone, PartialEq, Eq, Hash, Default)]
pub struct WithSpan<T> {
    pub span: Span,
    pub inner: T,
}

impl<T> WithSpan<T> {
    pub fn new(span: Span, inner: T) -> (r: WithSpan<T>)
        ensures
            r.span == span,
            r.inner == inner,
    {
        WithSpan { span, inner }
    }

    /// The span of source text the value came from.
    pub fn span(&self) -> (r: Span)
        ensures
            r == self.span,
    {
        self.span
    }

    /// Shared access to the wrapped value.
    pub fn inner(&self) -> (r: &T)
        ensures
            *r == self.inner,
    {
        &self.inner
    }

    /// Exclusive access to the wrapped value; the span stays as it is.
    pub fn inner_mut(&mut self) -> (r: &mut T)
        ensures
            *r == old(self).inner,
            final(self).span == old(self).span,
            final(self).inner == *final(r),
    {
        &mut self.inner
    }

    /// Gives up the span and keeps the value.
    pub fn into_inner(self) -> (r: T)
        ensures
            r == self.inner,
    {
        self.inner
    }
}

} // verus!
