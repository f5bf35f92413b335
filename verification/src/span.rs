//! Byte spans of fragments of a statement's text.

use vstd::prelude::*;

verus! {

/// The half-open byte range `start..end` of a fragment of the statement's text.
#[derive(Clone, Copy, Debug, PartialEq, Eq, Structural)]
pub struct Span {
    pub start: usize,
    pub end: usize,
}

impl View for Span {
    type V = Span;

    open spec fn view(&self) -> Span {
        *self
    }
}

impl DeepView for Span {
    type V = Span;

    open spec fn deep_view(&self) -> Span {
        *self
    }
}

pub open spec fn spec_min(a: usize, b: usize) -> usize {
    if a <= b { a } else { b }
}

pub open spec fn spec_max(a: usize, b: usize) -> usize {
    if a >= b { a } else { b }
}

impl Span {
    /// The smallest span that contains both `self` and `other`.
    pub open spec fn spec_join(self, other: Span) -> Span {
        Span { start: spec_min(self.start, other.start), end: spec_max(self.end, other.end) }
    }

    pub fn new(start: usize, end: usize) -> (r: Span)
        ensures
            r == (Span { start, end }),
    {
        Span { start, end }
    }

    /// The smallest span that contains both `self` and `other`.
    pub fn join(self, other: Span) -> (r: Span)
        ensures
            r == self.spec_join(other),
    {
        join_span(self, other)
    }
}

/// The smallest span that contains the first `n` spans of `spans`, if `n > 0`.
pub open spec fn span_hull(spans: Seq<Span>, n: nat) -> Option<Span>
    decreases n,
{
    if n == 0 || n > spans.len() {
        None
    } else {
        match span_hull(spans, (n - 1) as nat) {
            Some(l) => Some(l.spec_join(spans[n - 1])),
            None => Some(spans[n - 1]),
        }
    }
}

/// Trusted: `sql_parse::Spanned::join_span` on two byte ranges. The result
/// starts at the smaller of the two starts and ends at the larger of the two
/// ends.
#[verifier::external_body]
pub(crate) fn join_span(a: Span, b: Span) -> (r: Span)
    ensures
        r == a.spec_join(b),
{
    let joined = sql_parse::Spanned::join_span(&(a.start..a.end), &(b.start..b.end));
    Span { start: joined.start, end: joined.end }
}

/// Trusted: `sql_parse::OptSpanned::opt_span` on a vector of byte ranges. It
/// folds the ranges from the left: nothing for an empty vector, the first
/// range alone, and from then on the join of what it has with the next one.
#[verifier::external_body]
pub(crate) fn opt_span(spans: &Vec<Span>) -> (r: Option<Span>)
    ensures
        r == span_hull(spans@, spans@.len()),
{
    let ranges: Vec<core::ops::Range<usize>> = spans.iter().map(|s| s.start..s.end).collect();
    sql_parse::OptSpanned::opt_span(&ranges).map(|r| Span { start: r.start, end: r.end })
}

/// The smallest span that contains every span of `spans`, or `fallback` where
/// there is none.
pub fn hull_or(spans: &Vec<Span>, fallback: Span) -> (r: Span)
    ensures
        r == match span_hull(spans@, spans@.len()) {
            Some(s) => s,
            None => fallback,
        },
        spans@.len() == 0 ==> r == fallback,
{
    match opt_span(spans) {
        Some(s) => s,
        None => fallback,
    }
}

} // verus!
