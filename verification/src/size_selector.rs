//! Send small and large requests to different allocators.

use crate::allocation::{Allocation, MemoryAllocateInfo};
use crate::allocator::{answered_allocate, answered_free, DeviceAllocator};
use crate::error::AllocatorError;
use crate::mem_unit::MemUnit;
use vstd::prelude::*;

verus! {

/// An allocator which defers to one allocator for small requests and to
/// another for the rest.
pub struct SizeSelector<S: DeviceAllocator, L: DeviceAllocator> {
    small_allocator: S,
    large_allocator: L,
    size: u64,
    request_log: Ghost<Seq<MemoryAllocateInfo>>,
    free_log: Ghost<Seq<Allocation>>,
    allocate_answer_log: Ghost<Seq<Result<Allocation, AllocatorError>>>,
    free_answer_log: Ghost<Seq<Result<(), AllocatorError>>>,
}

impl<S: DeviceAllocator, L: DeviceAllocator> SizeSelector<S, L> {
    pub closed spec fn small_spec(self) -> S {
        self.small_allocator
    }

    pub closed spec fn large_spec(self) -> L {
        self.large_allocator
    }

    /// Requests of fewer bytes than this go to the small allocator.
    pub closed spec fn threshold(self) -> u64 {
        self.size
    }

    /// Create a new allocator which defers to the small allocator for
    /// allocations below size bytes, and otherwise uses the large allocator.
    pub fn new(small_allocator: S, size: MemUnit, large_allocator: L) -> (s: Self)
        requires
            size.bytes() <= u64::MAX,
        ensures
            s.small_spec() == small_allocator,
            s.large_spec() == large_allocator,
            s.threshold() == size.bytes(),
    {
        SizeSelector {
            small_allocator,
            large_allocator,
            size: size.to_bytes(),
            request_log: Ghost(Seq::empty()),
            allocate_answer_log: Ghost(Seq::empty()),
            free_answer_log: Ghost(Seq::empty()),
            free_log: Ghost(Seq::empty()),
        }
    }
}

impl<S: DeviceAllocator, L: DeviceAllocator> DeviceAllocator for SizeSelector<S, L> {
    open spec fn keeps_call_record(&self) -> bool {
        true
    }

    closed spec fn requests(&self) -> Seq<MemoryAllocateInfo> {
        self.request_log@
    }

    closed spec fn frees(&self) -> Seq<Allocation> {
        self.free_log@
    }

    closed spec fn allocate_answers(&self) -> Seq<Result<Allocation, AllocatorError>> {
        self.allocate_answer_log@
    }

    closed spec fn free_answers(&self) -> Seq<Result<(), AllocatorError>> {
        self.free_answer_log@
    }

    /// Requests below the threshold go to the small allocator, the others to
    /// the large one; the answer is the chosen allocator's answer, and the
    /// allocator not chosen is left untouched.
    fn allocate(&mut self, allocate_info: MemoryAllocateInfo) -> (res: Result<Allocation, AllocatorError>)
        ensures
            final(self).threshold() == old(self).threshold(),
            allocate_info.allocation_size < old(self).threshold() ==> final(self).large_spec()
                == old(self).large_spec() && answered_allocate(
                old(self).small_spec(),
                final(self).small_spec(),
                allocate_info,
                res,
            ),
            allocate_info.allocation_size >= old(self).threshold() ==> final(self).small_spec()
                == old(self).small_spec() && answered_allocate(
                old(self).large_spec(),
                final(self).large_spec(),
                allocate_info,
                res,
            ),
    {
        self.request_log = Ghost(self.request_log@.push(allocate_info));
        let res = if allocate_info.allocation_size < self.size {
            self.small_allocator.allocate(allocate_info)
        } else {
            self.large_allocator.allocate(allocate_info)
        };
        self.allocate_answer_log = Ghost(self.allocate_answer_log@.push(res));
        res
    }

    /// Allocations below the threshold are freed by the small allocator, the
    /// others by the large one; the answer is the chosen allocator's answer,
    /// and the allocator not chosen is left untouched.
    fn free(&mut self, allocation: &Allocation) -> (res: Result<(), AllocatorError>)
        ensures
            final(self).threshold() == old(self).threshold(),
            allocation.byte_size < old(self).threshold() ==> final(self).large_spec() == old(self).large_spec()
                && answered_free(old(self).small_spec(), final(self).small_spec(), *allocation, res),
            allocation.byte_size >= old(self).threshold() ==> final(self).small_spec() == old(self).small_spec()
                && answered_free(old(self).large_spec(), final(self).large_spec(), *allocation, res),
    {
        self.free_log = Ghost(self.free_log@.push(*allocation));
        let res = if allocation.byte_size < self.size {
            self.small_allocator.free(allocation)
        } else {
            self.large_allocator.free(allocation)
        };
        self.free_answer_log = Ghost(self.free_answer_log@.push(res));
        res
    }
}

} // verus!
