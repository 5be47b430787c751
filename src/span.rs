//! Source spans and the containment test that bridges the syntax tree and
//! the control-flow graph.
use vstd::prelude::*;

verus! {

/// A half-open range of byte positions in the source text.
#[derive(Clone, Copy, Debug, PartialEq, Eq, Structural)]
pub struct Span {
    pub lo: u32,
    pub hi: u32,
}

/// `inner` starts and ends inside `outer` (bounds included).
pub open spec fn span_within(inner: Span, outer: Span) -> bool {
    outer.lo <= inner.lo && inner.hi <= outer.hi
}

impl Span {
    pub fn new(lo: u32, hi: u32) -> (r: Span)
        ensures
            r.lo == lo,
            r.hi == hi,
    {
        Span { lo, hi }
    }

    /// Full interval containment: both ends of `self` fall within `outer`.
    pub fn is_within(&self, outer: &Span) -> (r: bool)
        ensures
            r == span_within(*self, *outer),
    {
        outer.lo <= self.lo && self.hi <= outer.hi
    }
}

} // verus!
