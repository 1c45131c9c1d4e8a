//! Source positions and the located-value wrapper.
//!
//! A [`Spanning`] pairs an arbitrary value with an optional source span so
//! that diagnostics can point at source text. The span is a pure diagnostic
//! attachment: it never participates in the value comparisons this crate
//! defines.

use vstd::prelude::*;

verus! {

/// A single position in the source text.
#[derive(Clone, Copy, Debug, PartialEq, Eq, Structural)]
pub struct SourcePosition {
    /// Byte offset from the start of the source text.
    pub index: usize,
    /// Zero-based line number.
    pub line: usize,
    /// Zero-based column number within the line.
    pub column: usize,
}

/// The region of source text a parsed node was read from.
#[derive(Clone, Copy, Debug, PartialEq, Eq, Structural)]
pub struct Span {
    /// Position of the first character of the node.
    pub start: SourcePosition,
    /// Position just past the last character of the node.
    pub end: SourcePosition,
}

/// A value of type `T` together with the optional span it was parsed from.
///
/// Trees built programmatically (rather than by a parser) carry no spans;
/// [`Spanning::unlocated`] builds such nodes.
#[derive(Debug)]
pub struct Spanning<T> {
    /// The wrapped value.
    pub item: T,
    /// Where the value stood in the source text, if it was parsed.
    pub span: Option<Span>,
}

/// Mathematical counterpart of [`Spanning`]: the model of the wrapped value
/// together with the span, which is plain data.
pub struct SpannedModel<T> {
    /// Model of the wrapped value.
    pub item: T,
    /// The span, unchanged.
    pub span: Option<Span>,
}

impl<T> Spanning<T> {
    /// Wraps `item` with the span it was parsed from.
    pub fn located(item: T, span: Span) -> (r: Spanning<T>)
        ensures
            r.item == item,
            r.span == Some(span),
    {
        Spanning { item, span: Some(span) }
    }

    /// Wraps `item` without any source position.
    pub fn unlocated(item: T) -> (r: Spanning<T>)
        ensures
            r.item == item,
            r.span is None,
    {
        Spanning { item, span: None }
    }

    /// Transforms the wrapped value, keeping the span.
    pub fn map<U, F: FnOnce(T) -> U>(self, f: F) -> (r: Spanning<U>)
        requires
            f.requires((self.item,)),
        ensures
            f.ensures((self.item,), r.item),
            r.span == self.span,
    {
        Spanning { item: f(self.item), span: self.span }
    }
}

} // verus!
