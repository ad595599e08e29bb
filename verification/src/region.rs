//! Byte ranges inside an allocation, as kept by the suballocator.

use crate::allocation::Allocation;
use vstd::prelude::*;

verus! {

/// A region represents a range within an allocation.
///
/// Regions within an allocation never overlap.
#[derive(Clone, Copy, Debug, PartialEq, Eq, Structural)]
pub struct Region {
    pub offset: u64,
    pub size: u64,
}

/// This enum represents the result of attempting to merge two regions.
#[derive(Clone, Copy, Debug, PartialEq, Eq, Structural)]
pub enum MergeResult {
    /// Indicates that the regions cannot be merged because they are not
    /// contiguous.
    NonContiguous,
    /// Indicates that the regions were merged into a new contiguous region.
    Contiguous(Region),
}

impl Region {
    /// The first byte past the region, as a mathematical integer.
    pub open spec fn end_int(self) -> int {
        self.offset + self.size
    }

    /// The region's end fits in a `u64`.
    pub open spec fn fits(self) -> bool {
        self.offset + self.size <= u64::MAX
    }

    /// The byte offsets the region covers.
    pub open spec fn bytes(self) -> Set<int> {
        Set::new(|x: int| self.offset <= x < self.end_int())
    }

    /// The two regions touch with no space between them.
    pub open spec fn touches(self, other: Region) -> bool {
        self.offset == other.end_int() || self.end_int() == other.offset
    }

    /// The two regions share at least one byte.
    pub open spec fn overlaps(self, other: Region) -> bool {
        self.offset < other.end_int() && other.offset < self.end_int()
    }

    /// The region spanning two regions, the lower start and the summed size.
    pub open spec fn union_with(self, other: Region) -> Region {
        Region {
            offset: if self.offset <= other.offset { self.offset } else { other.offset },
            size: (self.size + other.size) as u64,
        }
    }

    pub fn new(offset: u64, size: u64) -> (r: Self)
        ensures
            r.offset == offset,
            r.size == size,
    {
        Region { offset, size }
    }

    /// Create a region which occupies an entire allocation.
    pub fn new_whole_region(allocation: &Allocation) -> (r: Self)
        ensures
            r.offset == allocation.offset,
            r.size == allocation.byte_size,
    {
        Self::new(allocation.offset, allocation.byte_size)
    }

    /// The address where this Region begins within the parent allocation.
    pub fn start(&self) -> (s: u64)
        ensures
            s == self.offset,
    {
        self.offset
    }

    /// The address where this Region ends within the parent allocation.
    pub fn end(&self) -> (e: u64)
        requires
            self.fits(),
        ensures
            e == self.end_int(),
    {
        self.offset + self.size
    }

    /// Returns true when this region and the other region are touching with
    /// no space between.
    pub fn is_contiguous(&self, other: &Self) -> (b: bool)
        requires
            self.fits(),
            other.fits(),
        ensures
            b == self.touches(*other),
    {
        self.start() == other.end() || self.end() == other.start()
    }

    /// Returns true when this region and the other region share at least one
    /// byte.
    pub fn is_overlapping(&self, other: &Self) -> (b: bool)
        requires
            self.fits(),
            other.fits(),
        ensures
            b == self.overlaps(*other),
    {
        self.start() < other.end() && other.start() < self.end()
    }

    /// Attempt to merge this region with another.
    pub fn merge(&self, other: &Self) -> (m: MergeResult)
        requires
            self.fits(),
            other.fits(),
        ensures
            self.touches(*other) ==> m == MergeResult::Contiguous(self.union_with(*other)),
            !self.touches(*other) ==> m == MergeResult::NonContiguous,
    {
        if self.is_contiguous(other) {
            MergeResult::Contiguous(self.merge_unchecked(other))
        } else {
            MergeResult::NonContiguous
        }
    }

    /// Take a subregion from the front of this region, updating the size and
    /// offset to match.
    pub fn take_subregion(&mut self, size: u64) -> (taken: Region)
        requires
            size <= old(self).size,
            old(self).offset + size <= u64::MAX,
        ensures
            taken == (Region { offset: old(self).offset, size }),
            final(self).offset == old(self).offset + size,
            final(self).size == old(self).size - size,
    {
        let new_region = Region::new(self.offset, size);
        self.offset = self.offset + size;
        self.size = self.size - size;
        new_region
    }

    /// Merge this region with another region without checking that the two
    /// are adjacent.
    fn merge_unchecked(&self, other: &Self) -> (m: Self)
        requires
            self.size + other.size <= u64::MAX,
        ensures
            m == self.union_with(*other),
    {
        Region {
            offset: if self.offset <= other.offset { self.offset } else { other.offset },
            size: self.size + other.size,
        }
    }
}

} // verus!
