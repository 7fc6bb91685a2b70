//! Spans over a sequence of code points.

use std::ops::Range;
use vstd::prelude::*;

verus! {

/// A half-open span of `size` code points that starts at `offset`.
///
/// A span does not know the sequence it addresses: whether it lies within
/// one is for the code that pairs the two to check, with [`TokenRange::within`].
#[derive(Debug, Clone, Copy, PartialEq, Eq, Structural)]
pub struct TokenRange {
    pub offset: usize,
    pub size: usize,
}

impl TokenRange {
    /// One past the last position of the span.
    pub open spec fn end(self) -> int {
        self.offset + self.size
    }

    /// Whether the span lies inside a sequence of `len` code points.
    pub open spec fn within(self, len: nat) -> bool {
        self.end() <= len
    }

    /// The part of `text` that the span marks.
    pub open spec fn part_of(self, text: Seq<u32>) -> Seq<u32> {
        text.subrange(self.offset as int, self.end())
    }

    pub fn new(offset: usize, size: usize) -> (range: Self)
        ensures
            range == (TokenRange { offset, size }),
    {
        TokenRange { offset, size }
    }

    /// The span as a range of positions, `offset .. offset + size`.
    pub fn as_range(&self) -> (range: Range<usize>)
        requires
            self.end() <= usize::MAX,
        ensures
            range.start == self.offset,
            range.end == self.end(),
    {
        self.offset..self.offset + self.size
    }

    /// Whether the span lies inside a sequence of `len` code points. Never
    /// overflows, whatever the span holds.
    pub fn fits(&self, len: usize) -> (fits: bool)
        ensures
            fits == self.within(len as nat),
    {
        self.size <= len && self.offset <= len - self.size
    }
}

impl Default for TokenRange {
    fn default() -> (range: Self)
        ensures
            range == (TokenRange { offset: 0, size: 0 }),
    {
        TokenRange { offset: 0, size: 0 }
    }
}

} // verus!
