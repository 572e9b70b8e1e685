//! Source positions: byte ranges into the text that was parsed.

use vstd::prelude::*;

verus! {

/// A half-open range of byte offsets into a source text.
#[derive(Clone, Copy, Debug, PartialEq, Eq, Structural)]
pub struct Span {
    pub start: usize,
    pub end: usize,
}

impl DeepView for Span {
    type V = Span;

    open spec fn deep_view(&self) -> Span {
        *self
    }
}

impl Span {
    /// The span of something that has no place in the source.
    pub open spec fn spec_unknown() -> Span {
        Span { start: 0, end: 0 }
    }

    pub fn new(start: usize, end: usize) -> (s: Span)
        ensures
            s == (Span { start, end }),
    {
        Span { start, end }
    }

    #[verifier::when_used_as_spec(spec_unknown)]
    pub fn unknown() -> (s: Span)
        ensures
            s == Span::spec_unknown(),
    {
        Span { start: 0, end: 0 }
    }

    pub fn start(&self) -> (n: usize)
        ensures
            n == self.start,
    {
        self.start
    }

    pub fn end(&self) -> (n: usize)
        ensures
            n == self.end,
    {
        self.end
    }

    /// The span from the start of `self` to the end of `other`.
    pub fn until(&self, other: Span) -> (s: Span)
        ensures
            s == (Span { start: self.start, end: other.end }),
    {
        Span { start: self.start, end: other.end }
    }
}

/// A value together with the place in the source it came from.
#[derive(Debug, PartialEq, Eq)]
pub struct Spanned<T> {
    pub item: T,
    pub span: Span,
}

impl<T: DeepView> DeepView for Spanned<T> {
    type V = Spanned<T::V>;

    open spec fn deep_view(&self) -> Spanned<T::V> {
        Spanned { item: self.item.deep_view(), span: self.span }
    }
}

impl Clone for Spanned<String> {
    fn clone(&self) -> (res: Self)
        ensures
            res == *self,
    {
        Spanned { item: self.item.clone(), span: self.span }
    }
}

/// Metadata carried by a value: where in the source it originated.
#[derive(Clone, Copy, Debug, PartialEq, Eq, Structural)]
pub struct Tag {
    pub span: Span,
}

impl DeepView for Tag {
    type V = Tag;

    open spec fn deep_view(&self) -> Tag {
        *self
    }
}

impl Tag {
    pub open spec fn spec_unknown() -> Tag {
        Tag { span: Span::spec_unknown() }
    }

    #[verifier::when_used_as_spec(spec_unknown)]
    pub fn unknown() -> (t: Tag)
        ensures
            t == Tag::spec_unknown(),
    {
        Tag { span: Span::unknown() }
    }

    pub fn new(span: Span) -> (t: Tag)
        ensures
            t == (Tag { span }),
    {
        Tag { span }
    }

    /// The tag that reaches from the start of `self` to the end of `other`.
    pub fn until(&self, other: Tag) -> (t: Tag)
        ensures
            t == (Tag { span: Span { start: self.span.start, end: other.span.end } }),
    {
        Tag { span: self.span.until(other.span) }
    }
}

} // verus!
