//! An allocator that moves every allocation to a fixed offset.

use crate::allocation::{Allocation, MemoryAllocateInfo};
use crate::allocator::{answered_free, DeviceAllocator};
use crate::error::AllocatorError;
use crate::mem_unit::MemUnit;
use vstd::prelude::*;

verus! {

/// The answer to a request for `size` bytes when the underlying allocator
/// answered `r`: its block moved forward by `offset` bytes with the size the
/// caller asked for; its error; or `Overflow` when the moved offset leaves
/// the range of a `u64`.
pub open spec fn moved_answer(
    r: Result<Allocation, AllocatorError>,
    offset: int,
    size: u64,
) -> Result<Allocation, AllocatorError> {
    match r {
        Err(e) => Err(e),
        Ok(b) => if b.offset + offset <= u64::MAX {
            Ok(Allocation { offset: (b.offset + offset) as u64, byte_size: size, ..b })
        } else {
            Err(AllocatorError::Overflow)
        },
    }
}

/// What the forced offset allocator answers is the tail of the block the
/// underlying allocator gave for the enlarged request: in the same memory and
/// of the same type, starting no earlier than the block and ending exactly
/// where the block ends, with the size the caller asked for. An error of the
/// underlying allocator is passed on.
pub proof fn law_moved_answer_is_the_tail_of_the_block(r: Result<Allocation, AllocatorError>, offset: int, size: u64)
    requires
        offset >= 0,
        r matches Ok(b) ==> b.byte_size == size + offset,
    ensures
        r is Err ==> moved_answer(r, offset, size) == r,
        moved_answer(r, offset, size) matches Ok(a) ==> r matches Ok(b) && {
            &&& a.memory == b.memory
            &&& a.memory_type_index == b.memory_type_index
            &&& a.byte_size == size
            &&& b.offset <= a.offset
            &&& a.offset + a.byte_size == b.offset + b.byte_size
        },
{
}

/// An allocator which forces all allocations to have a fixed offset.
///
/// This has little practical use, but is convenient when verifying that other
/// parts of the code properly handle allocation offsets.
pub struct ForcedOffsetAllocator<A: DeviceAllocator> {
    alignment: u64,
    allocator: A,
    request_log: Ghost<Seq<MemoryAllocateInfo>>,
    free_log: Ghost<Seq<Allocation>>,
    allocate_answer_log: Ghost<Seq<Result<Allocation, AllocatorError>>>,
    free_answer_log: Ghost<Seq<Result<(), AllocatorError>>>,
}

impl<A: DeviceAllocator> ForcedOffsetAllocator<A> {
    pub closed spec fn inner(self) -> A {
        self.allocator
    }

    pub closed spec fn alignment_spec(self) -> u64 {
        self.alignment
    }

    /// The offset every allocation is moved by: a hundred alignments.
    pub open spec fn offset_spec(self) -> int {
        self.alignment_spec() * 100
    }

    pub fn new(allocator: A, alignment: MemUnit) -> (f: Self)
        requires
            alignment.bytes() <= u64::MAX,
        ensures
            f.inner() == allocator,
            f.alignment_spec() == alignment.bytes(),
    {
        ForcedOffsetAllocator {
            allocator,
            alignment: alignment.to_bytes(),
            request_log: Ghost(Seq::empty()),
            allocate_answer_log: Ghost(Seq::empty()),
            free_answer_log: Ghost(Seq::empty()),
            free_log: Ghost(Seq::empty()),
        }
    }

    /// The offset every allocation is moved by, or `None` when it does not
    /// fit in a `u64`.
    fn offset(&self) -> (o: Option<u64>)
        ensures
            o matches Some(v) ==> v == self.offset_spec(),
            o is None <==> self.offset_spec() > u64::MAX,
    {
        self.alignment.checked_mul(100)
    }

    /// The request made of the underlying allocator: the same memory type,
    /// the size grown by the offset; `None` when that leaves the range of a
    /// `u64`.
    pub fn expanded_request(&self, allocate_info: MemoryAllocateInfo) -> (r: Option<MemoryAllocateInfo>)
        ensures
            r is None <==> self.offset_spec() + allocate_info.allocation_size > u64::MAX,
            r matches Some(info) ==> info == (MemoryAllocateInfo {
                memory_type_index: allocate_info.memory_type_index,
                allocation_size: (allocate_info.allocation_size + self.offset_spec()) as u64,
            }),
    {
        let offset = match self.offset() {
            Some(o) => o,
            None => return None,
        };
        if allocate_info.allocation_size > u64::MAX - offset {
            return None;
        }
        Some(
            MemoryAllocateInfo {
                memory_type_index: allocate_info.memory_type_index,
                allocation_size: allocate_info.allocation_size + offset,
            },
        )
    }

    /// What the caller gets for a block from the underlying allocator: moved
    /// forward by the offset, with the size the caller asked for; `None` when
    /// the moved offset leaves the range of a `u64`.
    pub fn moved_allocation(&self, block: Allocation, requested_size: u64) -> (r: Option<Allocation>)
        ensures
            r is None <==> self.offset_spec() + block.offset > u64::MAX,
            r matches Some(a) ==> a == (Allocation {
                offset: (block.offset + self.offset_spec()) as u64,
                byte_size: requested_size,
                ..block
            }),
    {
        let offset = match self.offset() {
            Some(o) => o,
            None => return None,
        };
        if block.offset > u64::MAX - offset {
            return None;
        }
        let mut allocation = block;
        allocation.offset = allocation.offset + offset;
        allocation.byte_size = requested_size;
        Some(allocation)
    }

    /// The block an allocation was moved from: the offset and size
    /// adjustments of `allocate` undone; `None` when that leaves the range of
    /// a `u64`.
    pub fn original_block(&self, allocation: Allocation) -> (r: Option<Allocation>)
        ensures
            r is None <==> self.offset_spec() > allocation.offset || self.offset_spec() + allocation.byte_size
                > u64::MAX,
            r matches Some(a) ==> a == (Allocation {
                offset: (allocation.offset - self.offset_spec()) as u64,
                byte_size: (allocation.byte_size + self.offset_spec()) as u64,
                ..allocation
            }),
    {
        let offset = match self.offset() {
            Some(o) => o,
            None => return None,
        };
        if allocation.offset < offset || allocation.byte_size > u64::MAX - offset {
            return None;
        }
        let mut adjusted = allocation;
        adjusted.offset = adjusted.offset - offset;
        adjusted.byte_size = adjusted.byte_size + offset;
        Some(adjusted)
    }
}

impl<A: DeviceAllocator> DeviceAllocator for ForcedOffsetAllocator<A> {
    open spec fn keeps_call_record(&self) -> bool {
        true
    }

    closed spec fn requests(&self) -> Seq<MemoryAllocateInfo> {
        self.request_log@
    }

    closed spec fn frees(&self) -> Seq<Allocation> {
        self.free_log@
    }

    closed spec fn allocate_answers(&self) -> Seq<Result<Allocation, AllocatorError>> {
        self.allocate_answer_log@
    }

    closed spec fn free_answers(&self) -> Seq<Result<(), AllocatorError>> {
        self.free_answer_log@
    }

    /// Use the underlying allocator implementation to allocate an oversized
    /// piece of memory, then set an offset to compensate.
    ///
    /// When the offset or the enlarged size leaves the range of a `u64` the
    /// request is refused before the underlying allocator is asked; when the
    /// moved offset does, the memory is freed again and the request refused.
    fn allocate(&mut self, allocate_info: MemoryAllocateInfo) -> (res: Result<Allocation, AllocatorError>)
        ensures
            final(self).alignment_spec() == old(self).alignment_spec(),
            old(self).offset_spec() + allocate_info.allocation_size > u64::MAX ==> res == Err::<
                Allocation,
                AllocatorError,
            >(AllocatorError::Overflow) && final(self).inner() == old(self).inner(),
            res matches Ok(a) ==> exists|b: Allocation|
                {
                    &&& b.byte_size == allocate_info.allocation_size + old(self).offset_spec()
                    &&& b.memory_type_index == allocate_info.memory_type_index
                    &&& b.offset + old(self).offset_spec() <= u64::MAX
                    &&& a == (Allocation {
                        offset: (b.offset + old(self).offset_spec()) as u64,
                        byte_size: allocate_info.allocation_size,
                        ..b
                    })
                },
            old(self).offset_spec() + allocate_info.allocation_size <= u64::MAX && old(self).inner().keeps_call_record() ==> {
                let before = old(self).inner();
                let after = final(self).inner();
                let r = after.allocate_answers().last();
                &&& after.keeps_call_record()
                &&& after.requests() == before.requests().push(
                    MemoryAllocateInfo {
                        memory_type_index: allocate_info.memory_type_index,
                        allocation_size: (allocate_info.allocation_size + old(self).offset_spec()) as u64,
                    },
                )
                &&& after.allocate_answers() == before.allocate_answers().push(r)
                &&& res == moved_answer(r, old(self).offset_spec(), allocate_info.allocation_size)
                &&& res is Ok || r is Err ==> after.frees() == before.frees() && after.free_answers()
                    == before.free_answers()
                &&& res is Err && r is Ok ==> after.frees() == before.frees().push(r->Ok_0)
                    && after.free_answers().len() == before.free_answers().len() + 1
            },
    {
        self.request_log = Ghost(self.request_log@.push(allocate_info));
        let res = match self.expanded_request(allocate_info) {
            None => Err(AllocatorError::Overflow),
            Some(expanded_allocate_info) => match self.allocator.allocate(expanded_allocate_info) {
                Err(e) => Err(e),
                Ok(block) => match self.moved_allocation(block, allocate_info.allocation_size) {
                    Some(allocation) => {
                        assert(block.byte_size == allocate_info.allocation_size + self.offset_spec());
                        Ok(allocation)
                    },
                    None => {
                        let _ = self.allocator.free(&block);
                        Err(AllocatorError::Overflow)
                    },
                },
            },
        };
        self.allocate_answer_log = Ghost(self.allocate_answer_log@.push(res));
        res
    }

    /// Undo the offset and size adjustments made by `allocate`, then use the
    /// underlying allocator to actually free the memory. Freeing the null
    /// allocation does nothing.
    fn free(&mut self, allocation: &Allocation) -> (res: Result<(), AllocatorError>)
        ensures
            final(self).alignment_spec() == old(self).alignment_spec(),
            allocation.memory == 0 ==> res is Ok && final(self).inner() == old(self).inner(),
            allocation.memory != 0 && (old(self).offset_spec() > allocation.offset || old(self).offset_spec()
                + allocation.byte_size > u64::MAX) ==> res == Err::<(), AllocatorError>(AllocatorError::Overflow)
                && final(self).inner() == old(self).inner(),
            allocation.memory != 0 && old(self).offset_spec() <= allocation.offset && old(self).offset_spec()
                + allocation.byte_size <= u64::MAX && old(self).inner().keeps_call_record() ==> {
                &&& answered_free(
                    old(self).inner(),
                    final(self).inner(),
                    Allocation {
                        offset: (allocation.offset - old(self).offset_spec()) as u64,
                        byte_size: (allocation.byte_size + old(self).offset_spec()) as u64,
                        ..*allocation
                    },
                    res,
                )
            },
    {
        self.free_log = Ghost(self.free_log@.push(*allocation));
        let res = if allocation.is_null() {
            Ok(())
        } else {
            match self.original_block(*allocation) {
                Some(adjusted) => self.allocator.free(&adjusted),
                None => Err(AllocatorError::Overflow),
            }
        };
        self.free_answer_log = Ghost(self.free_answer_log@.push(res));
        res
    }
}

} // verus!
