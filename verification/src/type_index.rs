//! One allocator per memory type.

use crate::allocation::{Allocation, MemoryAllocateInfo};
use crate::allocator::{answered_allocate, answered_free, DeviceAllocator};
use crate::error::AllocatorError;
use crate::memory_type::MemoryType;
use vstd::prelude::*;

verus! {

/// The type index allocator creates a separate memory allocator for each memory
/// type index, then dispatches allocations and frees.
pub struct TypeIndexAllocator<A: DeviceAllocator> {
    allocators: Vec<A>,
    request_log: Ghost<Seq<MemoryAllocateInfo>>,
    free_log: Ghost<Seq<Allocation>>,
    allocate_answer_log: Ghost<Seq<Result<Allocation, AllocatorError>>>,
    free_answer_log: Ghost<Seq<Result<(), AllocatorError>>>,
}

impl<A: DeviceAllocator> TypeIndexAllocator<A> {
    /// The allocator of each memory type, by memory type index.
    pub closed spec fn allocators_spec(self) -> Seq<A> {
        self.allocators@
    }

    /// Build one allocator per memory type with the factory, which gets the
    /// memory type's index and description.
    pub fn new<F: Fn(u32, MemoryType) -> A>(memory_types: &Vec<MemoryType>, factory: F) -> (t: Self)
        requires
            memory_types.len() <= u32::MAX,
            forall|i: u32, m: MemoryType| factory.requires((i, m)),
        ensures
            t.allocators_spec().len() == memory_types.len(),
            forall|i: int|
                0 <= i < memory_types.len() ==> factory.ensures(
                    (i as u32, memory_types@[i]),
                    #[trigger] t.allocators_spec()[i],
                ),
    {
        let n = memory_types.len();
        let mut allocators: Vec<A> = Vec::new();
        let mut i: usize = 0;
        while i < n
            invariant
                n == memory_types@.len(),
                n <= u32::MAX,
                i <= n,
                allocators@.len() == i,
                forall|i: u32, m: MemoryType| factory.requires((i, m)),
                forall|j: int|
                    0 <= j < i ==> factory.ensures((j as u32, memory_types@[j]), #[trigger] allocators@[j]),
            decreases n - i,
        {
            let allocator = factory(i as u32, memory_types[i]);
            allocators.push(allocator);
            i = i + 1;
        }
        TypeIndexAllocator {
            allocators,
            request_log: Ghost(Seq::empty()),
            free_log: Ghost(Seq::empty()),
            allocate_answer_log: Ghost(Seq::empty()),
            free_answer_log: Ghost(Seq::empty()),
        }
    }
}

impl<A: DeviceAllocator> DeviceAllocator for TypeIndexAllocator<A> {
    open spec fn keeps_call_record(&self) -> bool {
        true
    }

    closed spec fn requests(&self) -> Seq<MemoryAllocateInfo> {
        self.request_log@
    }

    closed spec fn frees(&self) -> Seq<Allocation> {
        self.free_log@
    }

    closed spec fn allocate_answers(&self) -> Seq<Result<Allocation, AllocatorError>> {
        self.allocate_answer_log@
    }

    closed spec fn free_answers(&self) -> Seq<Result<(), AllocatorError>> {
        self.free_answer_log@
    }

    /// Hand the request to the allocator of its memory type; the others are
    /// left untouched. A memory type index without an allocator is refused.
    fn allocate(&mut self, allocate_info: MemoryAllocateInfo) -> (res: Result<Allocation, AllocatorError>)
        ensures
            final(self).allocators_spec().len() == old(self).allocators_spec().len(),
            allocate_info.memory_type_index >= old(self).allocators_spec().len() ==> res == Err::<
                Allocation,
                AllocatorError,
            >(AllocatorError::UnknownMemoryType) && final(self).allocators_spec() == old(self).allocators_spec(),
            forall|j: int|
                0 <= j < old(self).allocators_spec().len() && j != allocate_info.memory_type_index ==> (
                #[trigger] final(self).allocators_spec()[j]) == old(self).allocators_spec()[j],
            ({
                let t = allocate_info.memory_type_index as int;
                let before = old(self).allocators_spec()[t];
                let after = final(self).allocators_spec()[t];
                t < old(self).allocators_spec().len() ==> answered_allocate(before, after, allocate_info, res)
            }),
    {
        self.request_log = Ghost(self.request_log@.push(allocate_info));
        let index = allocate_info.memory_type_index as usize;
        if index >= self.allocators.len() {
            let res = Err(AllocatorError::UnknownMemoryType);
            self.allocate_answer_log = Ghost(self.allocate_answer_log@.push(res));
            return res;
        }
        let mut allocator = self.allocators.remove(index);
        let res = allocator.allocate(allocate_info);
        self.allocators.insert(index, allocator);
        self.allocate_answer_log = Ghost(self.allocate_answer_log@.push(res));
        proof {
            assert forall|j: int|
                0 <= j < old(self).allocators_spec().len() && j != index implies (
            #[trigger] self.allocators@[j]) == old(self).allocators@[j] by {}
        }
        res
    }

    /// Hand the allocation to the allocator of its memory type; the others are
    /// left untouched. Freeing the null allocation does nothing; an allocation
    /// of a memory type without an allocator is refused.
    fn free(&mut self, allocation: &Allocation) -> (res: Result<(), AllocatorError>)
        ensures
            final(self).allocators_spec().len() == old(self).allocators_spec().len(),
            allocation.memory == 0 ==> res is Ok && final(self).allocators_spec() == old(self).allocators_spec(),
            allocation.memory != 0 && allocation.memory_type_index >= old(self).allocators_spec().len() ==> res
                == Err::<(), AllocatorError>(AllocatorError::UnknownMemoryType) && final(self).allocators_spec()
                == old(self).allocators_spec(),
            forall|j: int|
                0 <= j < old(self).allocators_spec().len() && j != allocation.memory_type_index ==> (
                #[trigger] final(self).allocators_spec()[j]) == old(self).allocators_spec()[j],
            ({
                let t = allocation.memory_type_index as int;
                let before = old(self).allocators_spec()[t];
                let after = final(self).allocators_spec()[t];
                allocation.memory != 0 && t < old(self).allocators_spec().len() ==> answered_free(
                    before,
                    after,
                    *allocation,
                    res,
                )
            }),
    {
        self.free_log = Ghost(self.free_log@.push(*allocation));
        if allocation.is_null() {
            self.free_answer_log = Ghost(self.free_answer_log@.push(Ok(())));
            return Ok(());
        }
        let index = allocation.memory_type_index as usize;
        if index >= self.allocators.len() {
            let res = Err(AllocatorError::UnknownMemoryType);
            self.free_answer_log = Ghost(self.free_answer_log@.push(res));
            return res;
        }
        let mut allocator = self.allocators.remove(index);
        let res = allocator.free(allocation);
        self.allocators.insert(index, allocator);
        self.free_answer_log = Ghost(self.free_answer_log@.push(res));
        proof {
            assert forall|j: int|
                0 <= j < old(self).allocators_spec().len() && j != index implies (
            #[trigger] self.allocators@[j]) == old(self).allocators@[j] by {}
        }
        res
    }
}

} // verus!
