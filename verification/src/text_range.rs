use vstd::prelude::*;

verus! {

/// The unit of text measurement: a position or length counted in
/// characters.
pub type TextUnit = u32;

/// A contiguous range of text, measured in characters from the start of a
/// document: the positions from `start` (inclusive) to `end` (exclusive).
#[derive(Debug, Clone, Copy, PartialEq, Eq, Hash, Structural)]
pub struct TextRange {
    pub start: u32,
    pub end: u32,
}

impl TextRange {
    /// A range never runs backwards.
    pub open spec fn wf(self) -> bool {
        self.start <= self.end
    }

    pub fn from_to(start: u32, end: u32) -> (r: TextRange)
        requires
            start <= end,
        ensures
            r == (TextRange { start, end }),
            r.wf(),
    {
        TextRange { start, end }
    }

    pub fn start(&self) -> (r: u32)
        ensures
            r == self.start,
    {
        self.start
    }

    pub fn end(&self) -> (r: u32)
        ensures
            r == self.end,
    {
        self.end
    }

    /// The number of characters the range covers.
    pub fn len(&self) -> (r: u32)
        requires
            self.wf(),
        ensures
            r == self.end - self.start,
    {
        self.end - self.start
    }

    /// Whether `offset` lies in the range, its end position included.
    pub fn contains_inclusive(&self, offset: u32) -> (r: bool)
        ensures
            r == (self.start <= offset <= self.end),
    {
        self.start <= offset && offset <= self.end
    }

    /// The overlap of two ranges, if they touch at all.
    pub open spec fn intersection_spec(self, other: TextRange) -> Option<TextRange> {
        let lo = if self.start >= other.start {
            self.start
        } else {
            other.start
        };
        let hi = if self.end <= other.end {
            self.end
        } else {
            other.end
        };
        if lo <= hi {
            Some(TextRange { start: lo, end: hi })
        } else {
            None
        }
    }

    pub fn intersection(&self, other: &TextRange) -> (r: Option<TextRange>)
        ensures
            r == self.intersection_spec(*other),
            r is Some ==> r->0.wf(),
    {
        let lo = if self.start >= other.start {
            self.start
        } else {
            other.start
        };
        let hi = if self.end <= other.end {
            self.end
        } else {
            other.end
        };
        if lo <= hi {
            Some(TextRange { start: lo, end: hi })
        } else {
            None
        }
    }
}

} // verus!
