use crate::consts::{MEM_SIZE, VM_MAX_RAM};
use crate::error::PanicReason;
use core::ops::Range;
use vstd::prelude::*;

verus! {

/// A range of memory addresses `start..end`, with `start <= end`.
#[derive(Debug, Clone, Copy, PartialEq, Eq, Hash)]
pub struct MemoryRange {
    start: usize,
    end: usize,
}

impl View for MemoryRange {
    type V = (int, int);

    closed spec fn view(&self) -> (int, int) {
        (self.start as int, self.end as int)
    }
}

/// The smaller of two integers.
pub open spec fn spec_min(a: int, b: int) -> int {
    if a <= b { a } else { b }
}

/// The larger of two integers.
pub open spec fn spec_max(a: int, b: int) -> int {
    if a >= b { a } else { b }
}

impl MemoryRange {
    #[verifier::type_invariant]
    spec fn ordered(&self) -> bool {
        self.start <= self.end
    }

    /// Creates the range of `len` bytes from `start`; the end saturates at `usize::MAX`.
    pub fn new(start: usize, len: usize) -> (r: Self)
        ensures
            r@ == (start as int, spec_min(start + len, usize::MAX as int)),
    {
        let end = start.saturating_add(len);
        MemoryRange { start, end }
    }

    /// Creates the range of `len` bytes from `start` if it lies within the VM memory.
    pub fn try_new(start: u64, len: u64) -> (r: Result<Self, PanicReason>)
        ensures
            match r {
                Ok(range) => start + len <= MEM_SIZE && range@ == (start as int, start + len),
                Err(e) => start + len > MEM_SIZE && e == PanicReason::MemoryOverflow,
            },
    {
        if start > VM_MAX_RAM || len > VM_MAX_RAM {
            return Err(PanicReason::MemoryOverflow);
        }
        Self::try_new_usize(start as usize, len as usize)
    }

    /// Creates the range of `len` bytes from `start` if it lies within the VM memory.
    pub fn try_new_usize(start: usize, len: usize) -> (r: Result<Self, PanicReason>)
        ensures
            match r {
                Ok(range) => start + len <= MEM_SIZE && range@ == (start as int, start + len),
                Err(e) => start + len > MEM_SIZE && e == PanicReason::MemoryOverflow,
            },
    {
        let end = match start.checked_add(len) {
            Some(end) => end,
            None => return Err(PanicReason::MemoryOverflow),
        };
        if end > MEM_SIZE {
            return Err(PanicReason::MemoryOverflow);
        }
        Ok(MemoryRange { start, end })
    }

    /// Start of the range.
    pub fn start(&self) -> (r: usize)
        ensures
            r == self@.0,
    {
        self.start
    }

    /// End of the range, one past the last byte.
    pub fn end(&self) -> (r: usize)
        ensures
            r == self@.1,
    {
        self.end
    }

    /// Length of the range.
    pub fn len(&self) -> (r: usize)
        ensures
            self@.0 <= self@.1,
            r == self@.1 - self@.0,
    {
        proof {
            use_type_invariant(self);
        }
        self.end - self.start
    }

    /// Whether the range holds no byte.
    pub fn is_empty(&self) -> (r: bool)
        ensures
            r == (self@.0 == self@.1),
    {
        self.len() == 0
    }

    /// The range as a `usize` range.
    pub fn usizes(&self) -> (r: Range<usize>)
        ensures
            r.start == self@.0,
            r.end == self@.1,
    {
        Range { start: self.start, end: self.end }
    }

    /// The range as a `usize` range.
    pub fn as_usizes(&self) -> (r: Range<usize>)
        ensures
            r.start == self@.0,
            r.end == self@.1,
    {
        self.usizes()
    }

    /// The range as a range of words.
    pub fn words(&self) -> (r: Range<u64>)
        ensures
            r.start == self@.0,
            r.end == self@.1,
    {
        Range { start: self.start as u64, end: self.end as u64 }
    }

    /// The range as a range of words.
    pub fn as_words(&self) -> (r: Range<u64>)
        ensures
            r.start == self@.0,
            r.end == self@.1,
    {
        self.words()
    }

    /// Splits the range at the given offset from its start.
    pub fn split_at_offset(self, at: usize) -> (r: (Self, Self))
        requires
            spec_min(self@.0 + at, usize::MAX as int) <= self@.1,
        ensures
            r.0@ == (self@.0, spec_min(self@.0 + at, usize::MAX as int)),
            r.1@ == (spec_min(self@.0 + at, usize::MAX as int), self@.1),
    {
        proof {
            use_type_invariant(&self);
        }
        let mid = self.start.saturating_add(at);
        (MemoryRange { start: self.start, end: mid }, MemoryRange { start: mid, end: self.end })
    }

    /// Whether `inner` lies fully within this range.
    pub fn contains_range(&self, inner: &Self) -> (r: bool)
        ensures
            r == (self@.0 <= inner@.0 < self@.1 && inner@.1 <= self@.1),
    {
        self.start <= inner.start && inner.start < self.end && inner.end <= self.end
    }

    /// The intersection of two ranges, if it holds at least one byte.
    pub fn overlap_with(&self, other: &Self) -> (r: Option<Self>)
        ensures
            match r {
                Some(o) => o@ == (spec_max(self@.0, other@.0), spec_min(self@.1, other@.1))
                    && o@.0 < o@.1,
                None => spec_max(self@.0, other@.0) >= spec_min(self@.1, other@.1),
            },
    {
        let start = if self.start >= other.start { self.start } else { other.start };
        let end = if self.end <= other.end { self.end } else { other.end };
        if start < end {
            Some(MemoryRange { start, end })
        } else {
            None
        }
    }

    /// This range expressed relative to the start of `outer`, if it lies within `outer`.
    pub fn relative_to(&self, outer: &Self) -> (r: Option<Self>)
        ensures
            match r {
                Some(o) => outer@.0 <= self@.0 < outer@.1 && self@.1 <= outer@.1
                    && o@ == (self@.0 - outer@.0, self@.1 - outer@.0),
                None => !(outer@.0 <= self@.0 < outer@.1 && self@.1 <= outer@.1),
            },
    {
        proof {
            use_type_invariant(self);
        }
        if outer.contains_range(self) {
            Some(MemoryRange { start: self.start - outer.start, end: self.end - outer.start })
        } else {
            None
        }
    }

    /// The subrange of `len` bytes at `offset` from the start, if it lies within the range.
    pub fn subrange(&self, offset: usize, len: usize) -> (r: Option<Self>)
        ensures
            match r {
                Some(o) => self@.0 + offset + len <= self@.1
                    && o@ == (self@.0 + offset, self@.0 + offset + len),
                None => self@.0 + offset + len > self@.1
                    || self@.0 + offset + len > usize::MAX,
            },
    {
        let new_start = match self.start.checked_add(offset) {
            Some(s) => s,
            None => return None,
        };
        let new_end = match new_start.checked_add(len) {
            Some(e) => e,
            None => return None,
        };
        if new_end > self.end {
            return None;
        }
        Some(MemoryRange { start: new_start, end: new_end })
    }

    /// Splits the range at `offset` from its start, if the offset lies within the range.
    pub fn split_at(&self, offset: usize) -> (r: Option<(Self, Self)>)
        ensures
            match r {
                Some(p) => self@.0 + offset <= self@.1
                    && p.0@ == (self@.0, self@.0 + offset)
                    && p.1@ == (self@.0 + offset, self@.1),
                None => self@.0 + offset > self@.1,
            },
    {
        proof {
            use_type_invariant(self);
        }
        let mid = match self.start.checked_add(offset) {
            Some(m) => m,
            None => return None,
        };
        if mid > self.end {
            return None;
        }
        Some((MemoryRange { start: self.start, end: mid }, MemoryRange { start: mid, end: self.end }))
    }
}

} // verus!
