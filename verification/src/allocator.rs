//! The interface every device memory allocator offers, so that allocators
//! compose: most allocators here decorate another one.

use crate::allocation::{Allocation, MemoryAllocateInfo};
use crate::error::AllocatorError;
use vstd::prelude::*;

verus! {

/// The external device memory allocation interface. This is the api used by
/// applications to allocate and free memory on the gpu.
///
/// An allocator may keep a record of the calls made of it: the requests it
/// was asked to allocate and the allocations it was asked to free. Every
/// allocator of this library keeps it, so that an allocator that decorates
/// another one can say what it asked of it; an allocator that keeps no record
/// promises nothing of one. The record also holds what the allocator
/// answered to each call.
pub trait DeviceAllocator {
    /// Whether this allocator keeps the record of its calls.
    open spec fn keeps_call_record(&self) -> bool {
        false
    }

    /// The requests this allocator was asked to allocate, oldest first.
    open spec fn requests(&self) -> Seq<MemoryAllocateInfo> {
        Seq::empty()
    }

    /// The allocations this allocator was asked to free, oldest first.
    open spec fn frees(&self) -> Seq<Allocation> {
        Seq::empty()
    }

    /// What this allocator answered to the requests of [`Self::requests`],
    /// in the same order.
    open spec fn allocate_answers(&self) -> Seq<Result<Allocation, AllocatorError>> {
        Seq::empty()
    }

    /// What this allocator answered to the frees of [`Self::frees`], in the
    /// same order.
    open spec fn free_answers(&self) -> Seq<Result<(), AllocatorError>> {
        Seq::empty()
    }

    /// Allocate device memory with the provided type index and size.
    ///
    /// A successful allocation has exactly the requested size and memory
    /// type. The caller is responsible for freeing it when it is no longer in
    /// use.
    fn allocate(&mut self, allocate_info: MemoryAllocateInfo) -> (res: Result<Allocation, AllocatorError>)
        ensures
            res matches Ok(a) ==> a.byte_size == allocate_info.allocation_size
                && a.memory_type_index == allocate_info.memory_type_index,
            old(self).keeps_call_record() ==> {
                &&& final(self).keeps_call_record()
                &&& final(self).requests() == old(self).requests().push(allocate_info)
                &&& final(self).allocate_answers() == old(self).allocate_answers().push(res)
                &&& final(self).frees() == old(self).frees()
                &&& final(self).free_answers() == old(self).free_answers()
            },
    ;

    /// Free an allocated piece of device memory.
    ///
    /// The caller is responsible for knowing when the GPU no longer uses the
    /// allocation.
    fn free(&mut self, allocation: &Allocation) -> (res: Result<(), AllocatorError>)
        ensures
            old(self).keeps_call_record() ==> {
                &&& final(self).keeps_call_record()
                &&& final(self).frees() == old(self).frees().push(*allocation)
                &&& final(self).free_answers() == old(self).free_answers().push(res)
                &&& final(self).requests() == old(self).requests()
                &&& final(self).allocate_answers() == old(self).allocate_answers()
            },
    ;
}

/// The call record of `after` shows that `before` was asked for
/// `allocate_info` and answered `res`, and nothing else; for an allocator that
/// keeps no record this says nothing.
pub open spec fn answered_allocate<A: DeviceAllocator>(
    before: A,
    after: A,
    allocate_info: MemoryAllocateInfo,
    res: Result<Allocation, AllocatorError>,
) -> bool {
    before.keeps_call_record() ==> {
        &&& after.keeps_call_record()
        &&& after.requests() == before.requests().push(allocate_info)
        &&& after.allocate_answers() == before.allocate_answers().push(res)
        &&& after.frees() == before.frees()
        &&& after.free_answers() == before.free_answers()
    }
}

/// The call record of `after` shows that `before` was asked to free
/// `allocation` and answered `res`, and nothing else; for an allocator that
/// keeps no record this says nothing.
pub open spec fn answered_free<A: DeviceAllocator>(
    before: A,
    after: A,
    allocation: Allocation,
    res: Result<(), AllocatorError>,
) -> bool {
    before.keeps_call_record() ==> {
        &&& after.keeps_call_record()
        &&& after.frees() == before.frees().push(allocation)
        &&& after.free_answers() == before.free_answers().push(res)
        &&& after.requests() == before.requests()
        &&& after.allocate_answers() == before.allocate_answers()
    }
}

} // verus!
