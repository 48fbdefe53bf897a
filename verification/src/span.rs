//! Source spans as the traversal sees them: a byte range plus the two
//! flags that decide whether a node is synthetic and must be skipped.

use vstd::prelude::*;

verus! {

/// A source span of the program unit under analysis: the byte range of
/// the node's text, whether the node was produced by macro expansion,
/// and whether the span is a synthetic placeholder.
#[derive(Clone, Copy, PartialEq, Eq, Structural, Debug)]
pub struct SpanData {
    pub lo: u32,
    pub hi: u32,
    pub from_expansion: bool,
    pub dummy: bool,
}

impl SpanData {
    /// The skip rule of the traversal: a node whose span comes from
    /// macro expansion, or whose span is a synthetic placeholder, is
    /// excluded from the graph together with its whole subtree.
    pub open spec fn spec_skipped(self) -> bool {
        self.from_expansion || self.dummy
    }

    /// Decides the skip rule for one span.
    pub fn skipped(&self) -> (r: bool)
        ensures
            r == self.spec_skipped(),
    {
        self.from_expansion || self.dummy
    }
}

} // verus!
