//! Source locations.

use vstd::prelude::*;

verus! {

/// The sum of two offsets, wrapped at 32 bits.
pub open spec fn wrap_add(a: u32, b: u32) -> u32 {
    if a + b > u32::MAX {
        (a + b - 0x1_0000_0000) as u32
    } else {
        (a + b) as u32
    }
}

/// The sum of two offsets, wrapped at 32 bits.
pub fn add_wrapping(a: u32, b: u32) -> (r: u32)
    ensures
        r == wrap_add(a, b),
{
    let sum: u64 = a as u64 + b as u64;
    if sum > u32::MAX as u64 {
        (sum - 0x1_0000_0000) as u32
    } else {
        sum as u32
    }
}

/// A half-open range `[lo, hi)` of byte offsets into a logical source.
#[derive(Clone, Copy, Debug, PartialEq, Eq, Structural, Hash)]
pub struct Span {
    /// The offset of the first byte.
    pub lo: u32,
    /// The offset one past the last byte.
    pub hi: u32,
}

impl Span {
    /// The span moved forward by `offset` bytes; offsets wrap at 32 bits.
    pub open spec fn shifted(self, offset: u32) -> Span {
        Span { lo: wrap_add(self.lo, offset), hi: wrap_add(self.hi, offset) }
    }

    /// The empty span at offset zero.
    pub fn empty() -> (r: Span)
        ensures
            r == (Span { lo: 0, hi: 0 }),
    {
        Span { lo: 0, hi: 0 }
    }

    /// Moves the span forward by `offset` bytes; offsets wrap at 32 bits.
    pub fn with_offset(self, offset: u32) -> (r: Span)
        ensures
            r == self.shifted(offset),
            self.lo + offset <= u32::MAX ==> r.lo == self.lo + offset,
            self.hi + offset <= u32::MAX ==> r.hi == self.hi + offset,
    {
        Span { lo: add_wrapping(self.lo, offset), hi: add_wrapping(self.hi, offset) }
    }
}

impl Default for Span {
    fn default() -> (r: Span)
        ensures
            r == (Span { lo: 0, hi: 0 }),
    {
        Span { lo: 0, hi: 0 }
    }
}

} // verus!
