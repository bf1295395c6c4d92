//! Rows of one cache append and the pages that receive them.

use vstd::prelude::*;

verus! {

/// Consecutive rows of one append that fall on one cache page.
#[derive(Clone, Copy, Debug, PartialEq, Eq, Structural)]
pub struct AppendSegment {
    /// Physical page.
    pub page: u32,
    /// First row within the page.
    pub page_offset: usize,
    /// First row within the append.
    pub input_offset: usize,
    /// Number of rows.
    pub rows: usize,
}

/// Rows that the sequence cache has set aside for one append.
pub struct Reservation {
    /// Position of the first row.
    pub start_position: usize,
    /// Number of rows.
    pub rows: usize,
    /// The rows, page by page.
    pub segments: Vec<AppendSegment>,
}

/// Segments whose row arithmetic is representable for an append at `position`.
pub open spec fn segments_fit(segments: Seq<AppendSegment>, position: int) -> bool {
    forall|i: int|
        0 <= i < segments.len() ==> {
            &&& (#[trigger] segments[i]).page_offset + segments[i].rows <= usize::MAX
            &&& position + segments[i].input_offset + segments[i].rows <= usize::MAX
        }
}

/// Number of rows in the first `count` segments.
pub open spec fn segment_rows(segments: Seq<AppendSegment>, count: nat) -> nat
    decreases count,
{
    if count == 0 {
        0
    } else {
        segment_rows(segments, (count - 1) as nat) + segments[count - 1].rows as nat
    }
}

/// Whether the segments hold the rows `0..rows` in order, each once.
pub open spec fn segments_cover(segments: Seq<AppendSegment>, rows: nat) -> bool {
    &&& forall|i: int|
        0 <= i < segments.len() ==> #[trigger] segments[i].input_offset == segment_rows(
            segments,
            i as nat,
        )
    &&& segment_rows(segments, segments.len()) == rows
}

} // verus!
