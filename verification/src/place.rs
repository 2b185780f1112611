//! Allocations, byte ranges and source locations.

use vstd::prelude::*;

verus! {

/// Identifier of an allocation.
#[derive(Clone, Copy, Debug, PartialEq, Eq, Structural)]
pub struct AllocId(pub u64);

/// A span of bytes inside one allocation: `size` bytes from `start`.
#[derive(Clone, Copy, Debug, PartialEq, Eq, Structural)]
pub struct AllocRange {
    pub start: u64,
    pub size: u64,
}

impl AllocRange {
    /// The range ends at an offset that fits the offset type.
    pub open spec fn wf(self) -> bool {
        self.start + self.size <= u64::MAX
    }

    /// The offset one past the last byte.
    pub open spec fn spec_end(self) -> int {
        self.start + self.size
    }

    /// Whether the byte at `offset` lies in the range.
    pub open spec fn spec_contains(self, offset: int) -> bool {
        self.start <= offset < self.start + self.size
    }

    /// The offset one past the last byte.
    pub fn end(&self) -> (r: u64)
        requires
            self.wf(),
        ensures
            r == self.spec_end(),
    {
        self.start + self.size
    }

    /// Whether the byte at `offset` lies in the range.
    pub fn contains(&self, offset: u64) -> (r: bool)
        ensures
            r == self.spec_contains(offset as int),
    {
        offset >= self.start && offset - self.start < self.size
    }
}

/// The range of the bytes from `start` up to, not including, `end`.
pub open spec fn range_between(start: u64, end: u64) -> AllocRange {
    AllocRange { start, size: (end - start) as u64 }
}

/// The range of the bytes from `start` up to, not including, `end`.
pub fn alloc_range(start: u64, end: u64) -> (r: AllocRange)
    requires
        start <= end,
    ensures
        r == range_between(start, end),
        r.wf(),
{
    AllocRange { start, size: end - start }
}

/// A source location in its compact form.
#[derive(Clone, Copy, Debug, PartialEq, Eq, Structural)]
pub struct Span {
    pub lo: u32,
    pub hi: u32,
}

/// A source location spelled out.
#[derive(Clone, Copy, Debug, PartialEq, Eq, Structural)]
pub struct SpanData {
    pub lo: u32,
    pub hi: u32,
}

impl Span {
    pub open spec fn spec_data(self) -> SpanData {
        SpanData { lo: self.lo, hi: self.hi }
    }

    /// The location spelled out.
    pub fn data(&self) -> (r: SpanData)
        ensures
            r == self.spec_data(),
    {
        SpanData { lo: self.lo, hi: self.hi }
    }
}

/// Where the running program stands: its own location and its caller's.
#[derive(Clone, Copy, Debug, PartialEq, Eq, Structural)]
pub struct CurrentSpan {
    pub current: Span,
    pub parent: Span,
}

impl CurrentSpan {
    pub fn new(current: Span, parent: Span) -> (r: CurrentSpan)
        ensures
            r == (CurrentSpan { current, parent }),
    {
        CurrentSpan { current, parent }
    }

    /// The location of the running statement.
    pub fn get(&self) -> (r: Span)
        ensures
            r == self.current,
    {
        self.current
    }

    /// The location of the call that led here.
    pub fn get_parent(&self) -> (r: Span)
        ensures
            r == self.parent,
    {
        self.parent
    }
}

} // verus!
