use vstd::prelude::*;

verus! {

/// How the hierarchy builder treats a span `[start, end)` of objects.
#[derive(Debug, Clone, Copy, PartialEq, Eq, Structural)]
pub enum SpanSplit {
    /// One object: it becomes both children of the node.
    Single,
    /// Two objects: the first is the left child, the second the right.
    Pair,
    /// More objects: after sorting, `[start, mid)` and `[mid, end)` become subtrees.
    Halves(usize),
}

/// Decides how a node of the bounding volume hierarchy splits the span
/// `[start, end)` of its objects. Both halves of a split are non-empty and
/// smaller than the span, so building the hierarchy terminates.
pub fn split_span(start: usize, end: usize) -> (s: SpanSplit)
    requires
        start < end,
    ensures
        s == SpanSplit::Single <==> end - start == 1,
        s == SpanSplit::Pair <==> end - start == 2,
        s matches SpanSplit::Halves(mid) ==> {
            &&& end - start > 2
            &&& mid == start + (end - start) / 2
            &&& start < mid < end
        },
{
    let object_span: usize = end - start;
    if object_span == 1 {
        SpanSplit::Single
    } else if object_span == 2 {
        SpanSplit::Pair
    } else {
        SpanSplit::Halves(start + object_span / 2)
    }
}

} // verus!
