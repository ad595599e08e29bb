//! Round every request up to whole pages.

use crate::allocation::{Allocation, MemoryAllocateInfo};
use crate::allocator::{answered_allocate, answered_free, DeviceAllocator};
use crate::error::AllocatorError;
use crate::mem_unit::MemUnit;
use vstd::prelude::*;

verus! {

/// `size` rounded up to a whole number of pages of `page` bytes; with pages
/// of zero bytes every size rounds to zero.
pub open spec fn round_up(size: int, page: int) -> int {
    if page == 0 {
        0
    } else {
        (size / page + if size % page == 0 { 0int } else { 1int }) * page
    }
}

/// Rounding up gives the least multiple of the page size that holds the
/// request: a whole number of pages, at least the size, and less than one
/// page more.
pub proof fn law_round_up_is_least_page_multiple(size: nat, page: nat)
    requires
        page > 0,
    ensures
        round_up(size as int, page as int) % (page as int) == 0,
        size <= round_up(size as int, page as int) < size + page,
{
    let q = size as int / page as int;
    let r = size as int % page as int;
    let p = page as int;
    vstd::arithmetic::div_mod::lemma_fundamental_div_mod(size as int, p);
    if r == 0 {
        assert(round_up(size as int, p) == q * p);
        vstd::arithmetic::div_mod::lemma_mod_multiples_basic(q, p);
    } else {
        assert(round_up(size as int, p) == (q + 1) * p);
        vstd::arithmetic::div_mod::lemma_mod_multiples_basic(q + 1, p);
        assert((q + 1) * p == q * p + p) by (nonlinear_arith);
    }
}

/// The page allocator's answer for its parent's answer `r`: the parent's
/// allocation with the size the caller asked for, or the parent's error.
pub open spec fn with_requested_size(
    r: Result<Allocation, AllocatorError>,
    size: u64,
) -> Result<Allocation, AllocatorError> {
    match r {
        Ok(b) => Ok(Allocation { byte_size: size, ..b }),
        Err(e) => Err(e),
    }
}

/// Decorate an allocator such that all allocation requests are rounded up to
/// the nearest page.
pub struct PageAllocator<A: DeviceAllocator> {
    parent: A,
    page_size: u64,
    request_log: Ghost<Seq<MemoryAllocateInfo>>,
    free_log: Ghost<Seq<Allocation>>,
    allocate_answer_log: Ghost<Seq<Result<Allocation, AllocatorError>>>,
    free_answer_log: Ghost<Seq<Result<(), AllocatorError>>>,
}

impl<A: DeviceAllocator> PageAllocator<A> {
    pub closed spec fn parent_spec(self) -> A {
        self.parent
    }

    pub closed spec fn page_size_spec(self) -> u64 {
        self.page_size
    }

    /// Decorate an allocator such that all of the underlying allocations occur
    /// on page boundaries.
    pub fn new(parent: A, page_size: MemUnit) -> (p: Self)
        requires
            page_size.bytes() <= u64::MAX,
        ensures
            p.parent_spec() == parent,
            p.page_size_spec() == page_size.bytes(),
    {
        PageAllocator {
            parent,
            page_size: page_size.to_bytes(),
            request_log: Ghost(Seq::empty()),
            allocate_answer_log: Ghost(Seq::empty()),
            free_answer_log: Ghost(Seq::empty()),
            free_log: Ghost(Seq::empty()),
        }
    }

    /// `size` rounded up to whole pages, or `None` when that leaves the range
    /// of a `u64`.
    fn checked_round_up(&self, size: u64) -> (r: Option<u64>)
        ensures
            r matches Some(v) ==> v == round_up(size as int, self.page_size as int),
            r is None <==> round_up(size as int, self.page_size as int) > u64::MAX,
    {
        if self.page_size == 0 {
            return Some(0);
        }
        let whole = size / self.page_size;
        let partial: u64 = if size % self.page_size == 0 { 0 } else { 1 };
        proof {
            let p = self.page_size as int;
            let s = size as int;
            if p == 1 {
                assert(s % p == 0) by (nonlinear_arith) requires p == 1;
            } else {
                assert(s / p < u64::MAX) by (nonlinear_arith) requires p >= 2, 0 <= s <= u64::MAX;
            }
        }
        let pages = whole + partial;
        pages.checked_mul(self.page_size)
    }

    /// The request that is made of the parent for `allocate_info`: the same
    /// memory type, the size rounded up to whole pages; `None` when the
    /// rounded size leaves the range of a `u64`.
    pub fn aligned_request(&self, allocate_info: MemoryAllocateInfo) -> (r: Option<MemoryAllocateInfo>)
        ensures
            r is None <==> round_up(allocate_info.allocation_size as int, self.page_size_spec() as int) > u64::MAX,
            r matches Some(info) ==> info.memory_type_index == allocate_info.memory_type_index
                && info.allocation_size == round_up(allocate_info.allocation_size as int, self.page_size_spec() as int),
    {
        match self.checked_round_up(allocate_info.allocation_size) {
            Some(aligned_size) => Some(
                MemoryAllocateInfo { memory_type_index: allocate_info.memory_type_index, allocation_size: aligned_size },
            ),
            None => None,
        }
    }

    /// What the caller gets for a block from the parent: the block, with the
    /// size the caller asked for.
    pub fn reported_allocation(&self, block: Allocation, requested_size: u64) -> (a: Allocation)
        ensures
            a == (Allocation { byte_size: requested_size, ..block }),
    {
        let mut allocation = block;
        allocation.byte_size = requested_size;
        allocation
    }

    /// The allocation handed to the parent when `allocation` is freed: the
    /// same allocation with its size rounded up to whole pages, as the parent
    /// allocated it; `None` when the rounded size leaves the range of a
    /// `u64`.
    pub fn aligned_allocation(&self, allocation: Allocation) -> (r: Option<Allocation>)
        ensures
            r is None <==> round_up(allocation.byte_size as int, self.page_size_spec() as int) > u64::MAX,
            r matches Some(b) ==> b == (Allocation {
                byte_size: round_up(allocation.byte_size as int, self.page_size_spec() as int) as u64,
                ..allocation
            }),
    {
        match self.checked_round_up(allocation.byte_size) {
            Some(aligned_size) => {
                let mut aligned = allocation;
                aligned.byte_size = aligned_size;
                Some(aligned)
            },
            None => None,
        }
    }

    /// Round a size up to the nearest multiple of the page size.
    pub fn round_up_to_nearest_page(&self, size: u64) -> (r: u64)
        requires
            round_up(size as int, self.page_size_spec() as int) <= u64::MAX,
        ensures
            r == round_up(size as int, self.page_size_spec() as int),
    {
        match self.checked_round_up(size) {
            Some(v) => v,
            None => 0,
        }
    }
}

impl<A: DeviceAllocator> DeviceAllocator for PageAllocator<A> {
    open spec fn keeps_call_record(&self) -> bool {
        true
    }

    closed spec fn requests(&self) -> Seq<MemoryAllocateInfo> {
        self.request_log@
    }

    closed spec fn frees(&self) -> Seq<Allocation> {
        self.free_log@
    }

    closed spec fn allocate_answers(&self) -> Seq<Result<Allocation, AllocatorError>> {
        self.allocate_answer_log@
    }

    closed spec fn free_answers(&self) -> Seq<Result<(), AllocatorError>> {
        self.free_answer_log@
    }

    /// Ask the parent for the request's size rounded up to whole pages, then
    /// tell the caller the size they asked for. A request whose rounded size
    /// would leave the range of a `u64` is refused before the parent is
    /// asked.
    fn allocate(&mut self, allocate_info: MemoryAllocateInfo) -> (res: Result<Allocation, AllocatorError>)
        ensures
            final(self).page_size_spec() == old(self).page_size_spec(),
            round_up(allocate_info.allocation_size as int, old(self).page_size_spec() as int) > u64::MAX ==> res
                == Err::<Allocation, AllocatorError>(AllocatorError::Overflow) && final(self).parent_spec()
                == old(self).parent_spec(),
            round_up(allocate_info.allocation_size as int, old(self).page_size_spec() as int) <= u64::MAX
                && old(self).parent_spec().keeps_call_record() ==> {
                let r = final(self).parent_spec().allocate_answers().last();
                &&& answered_allocate(
                    old(self).parent_spec(),
                    final(self).parent_spec(),
                    MemoryAllocateInfo {
                        memory_type_index: allocate_info.memory_type_index,
                        allocation_size: round_up(
                            allocate_info.allocation_size as int,
                            old(self).page_size_spec() as int,
                        ) as u64,
                    },
                    r,
                )
                &&& res == with_requested_size(r, allocate_info.allocation_size)
            },
            res matches Ok(a) ==> exists|b: Allocation|
                {
                    &&& b.byte_size == round_up(
                        allocate_info.allocation_size as int,
                        old(self).page_size_spec() as int,
                    )
                    &&& b.memory_type_index == allocate_info.memory_type_index
                    &&& a == (Allocation { byte_size: allocate_info.allocation_size, ..b })
                },
    {
        self.request_log = Ghost(self.request_log@.push(allocate_info));
        let res = match self.aligned_request(allocate_info) {
            None => Err(AllocatorError::Overflow),
            Some(aligned_memory_allocate_info) => {
                // use the aligned size when actually allocating
                match self.parent.allocate(aligned_memory_allocate_info) {
                    // but tell the caller the size they expect
                    Ok(block) => {
                        let allocation = self.reported_allocation(block, allocate_info.allocation_size);
                        assert(allocation == (Allocation { byte_size: allocate_info.allocation_size, ..block }));
                        Ok(allocation)
                    },
                    Err(e) => Err(e),
                }
            },
        };
        self.allocate_answer_log = Ghost(self.allocate_answer_log@.push(res));
        res
    }

    /// Free the allocation with its size rounded up to whole pages, as it was
    /// allocated from the parent.
    fn free(&mut self, allocation: &Allocation) -> (res: Result<(), AllocatorError>)
        ensures
            final(self).page_size_spec() == old(self).page_size_spec(),
            round_up(allocation.byte_size as int, old(self).page_size_spec() as int) > u64::MAX ==> res
                == Err::<(), AllocatorError>(AllocatorError::Overflow) && final(self).parent_spec()
                == old(self).parent_spec(),
            round_up(allocation.byte_size as int, old(self).page_size_spec() as int) <= u64::MAX
                && old(self).parent_spec().keeps_call_record() ==> {
                &&& answered_free(
                    old(self).parent_spec(),
                    final(self).parent_spec(),
                    Allocation {
                        byte_size: round_up(allocation.byte_size as int, old(self).page_size_spec() as int) as u64,
                        ..*allocation
                    },
                    res,
                )
            },
    {
        self.free_log = Ghost(self.free_log@.push(*allocation));
        let res = match self.aligned_allocation(*allocation) {
            Some(aligned_allocation) => self.parent.free(&aligned_allocation),
            None => Err(AllocatorError::Overflow),
        };
        self.free_answer_log = Ghost(self.free_answer_log@.push(res));
        res
    }
}

} // verus!
