//! Source locations: half-open byte ranges inside a numbered source unit.

use vstd::prelude::*;

verus! {

/// Identifies one source unit (a file, a snippet typed at a prompt, ...).
#[derive(Clone, Copy, Debug, PartialEq, Eq, Structural)]
pub struct FileId(pub usize);

/// The byte range `start .. start + len` of the source unit `source`.
#[derive(Clone, Copy, Debug, PartialEq, Eq, Structural)]
pub struct Span {
    pub source: FileId,
    pub start: usize,
    pub len: usize,
}

impl Span {
    /// The offset just past the last byte of the range.
    pub open spec fn end(self) -> int {
        self.start + self.len
    }

    /// The range ends at an offset that a `usize` can hold.
    pub open spec fn wf(self) -> bool {
        self.end() <= usize::MAX
    }

    /// `other` lies inside `self`.
    pub open spec fn covers(self, other: Span) -> bool {
        self.start <= other.start && other.end() <= self.end()
    }

    /// The smallest range that contains both `self` and `other`, in the
    /// source unit of `self`.
    pub open spec fn merge(self, other: Span) -> Span {
        let start = if self.start <= other.start { self.start } else { other.start };
        let end = if self.end() >= other.end() { self.end() } else { other.end() };
        Span { source: self.source, start, len: (end - start) as usize }
    }

    /// The range of `len` bytes from `start` on in the source unit `source`.
    pub fn new(source: FileId, start: usize, len: usize) -> (span: Span)
        ensures
            span == (Span { source, start, len }),
    {
        Span { source, start, len }
    }

    /// The offset just past the range.
    pub fn end_offset(&self) -> (end: usize)
        requires
            self.wf(),
        ensures
            end == self.end(),
    {
        self.start + self.len
    }

    /// The bounding range of `self` and `other`.
    pub fn to(self, other: Span) -> (span: Span)
        requires
            self.wf(),
            other.wf(),
        ensures
            span == self.merge(other),
    {
        let start = if self.start <= other.start { self.start } else { other.start };
        let self_end = self.start + self.len;
        let other_end = other.start + other.len;
        let end = if self_end >= other_end { self_end } else { other_end };
        Span { source: self.source, start, len: end - start }
    }
}

/// A merged range is well formed and contains both of its parts.
pub proof fn lemma_merge_covers(a: Span, b: Span)
    requires
        a.wf(),
        b.wf(),
    ensures
        a.merge(b).wf(),
        a.merge(b).covers(a),
        a.merge(b).covers(b),
        a.merge(b).source == a.source,
{
}

/// A merged range is the smallest one containing both parts: every range
/// that contains the two parts contains their merge.
pub proof fn lemma_merge_least(a: Span, b: Span, c: Span)
    requires
        a.wf(),
        b.wf(),
        c.covers(a),
        c.covers(b),
    ensures
        c.covers(a.merge(b)),
{
}

/// Merging starts at the earlier start and ends at the later end.
pub proof fn lemma_merge_bounds(a: Span, b: Span)
    requires
        a.wf(),
        b.wf(),
    ensures
        a.merge(b).start == if a.start <= b.start { a.start } else { b.start },
        a.merge(b).end() == if a.end() >= b.end() { a.end() } else { b.end() },
{
}

} // verus!
