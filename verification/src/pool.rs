//! Serve small requests from large blocks, each divided by a suballocator.

use crate::allocation::{Allocation, MemoryAllocateInfo};
use crate::allocator::{answered_allocate, answered_free, DeviceAllocator};
use crate::error::AllocatorError;
use crate::mem_unit::MemUnit;
use crate::region::Region;
use crate::suballocator::{can_serve, conflicts, first_fit_at, insert_free, take_front, Suballocator};
use std::collections::HashMap;
use vstd::prelude::*;

verus! {

/// The range an allocation occupies in its block's free list terms: its
/// offset taken relative to the block's offset.
pub open spec fn relative_region(sub: Suballocator, allocation: Allocation) -> Region {
    Region { offset: (allocation.offset - sub.block_spec().offset) as u64, size: allocation.byte_size }
}

/// The suballocator accepts the allocation back: it does not start before
/// the block and its relative end fits in a `u64`.
pub open spec fn accepts(sub: Suballocator, allocation: Allocation) -> bool {
    allocation.offset >= sub.block_spec().offset && relative_region(sub, allocation).fits()
}

/// The free list of the block after the allocation is returned to it; a
/// range that is already free changes nothing.
pub open spec fn returned(sub: Suballocator, allocation: Allocation) -> Seq<Region> {
    if conflicts(sub@, relative_region(sub, allocation)) {
        sub@
    } else {
        insert_free(sub@, relative_region(sub, allocation))
    }
}

/// A free list that is one region at offset zero spanning the block.
pub open spec fn entirely_free(free: Seq<Region>, block: Allocation) -> bool {
    free.len() == 1 && free[0].offset == 0 && free[0].size == block.byte_size
}

/// Some block the pool holds can serve the request.
pub open spec fn some_block_serves(blocks: Map<u64, Suballocator>, allocate_info: MemoryAllocateInfo) -> bool {
    exists|memory: u64| blocks.contains_key(memory) && can_serve(#[trigger] blocks[memory], allocate_info)
}

/// `after` is the block `sub` once `allocation` was carved out of it for the
/// request, by a first-fit search of its free regions.
pub open spec fn served_from(
    sub: Suballocator,
    after: Suballocator,
    allocate_info: MemoryAllocateInfo,
    allocation: Allocation,
) -> bool {
    exists|i: int|
        {
            &&& first_fit_at(sub@, allocate_info.allocation_size, i)
            &&& after@ == take_front(sub@, allocate_info.allocation_size, i)
            &&& after.block_spec() == sub.block_spec()
            &&& allocation == (Allocation {
                memory: sub.block_spec().memory,
                offset: (sub@[i].offset + sub.block_spec().offset) as u64,
                byte_size: allocate_info.allocation_size,
                memory_type_index: allocate_info.memory_type_index,
            })
        }
}

/// The free list of a new block of `block_size` bytes once the first `size`
/// bytes are taken from it: the rest of the block, if anything is left.
pub open spec fn fresh_block_free_list(block_size: u64, size: u64) -> Seq<Region> {
    if size == block_size {
        Seq::empty()
    } else {
        seq![Region { offset: size, size: (block_size - size) as u64 }]
    }
}

/// An allocator which suballocates memory from large blocks that it gets
/// from its parent allocator, one block at a time. The blocks are kept by
/// the memory they live in.
pub struct PoolAllocator<A: DeviceAllocator> {
    parent: A,
    block_size: u64,
    blocks: HashMap<u64, Suballocator>,
    request_log: Ghost<Seq<MemoryAllocateInfo>>,
    free_log: Ghost<Seq<Allocation>>,
    allocate_answer_log: Ghost<Seq<Result<Allocation, AllocatorError>>>,
    free_answer_log: Ghost<Seq<Result<(), AllocatorError>>>,
}

impl<A: DeviceAllocator> PoolAllocator<A> {
    pub closed spec fn parent_spec(self) -> A {
        self.parent
    }

    pub closed spec fn block_size_spec(self) -> u64 {
        self.block_size
    }

    /// The blocks the pool currently holds, by the memory they live in.
    pub closed spec fn blocks_spec(self) -> Map<u64, Suballocator> {
        self.blocks@
    }

    /// Create a new pool allocator which suballocates memory from large
    /// blocks.
    pub fn new(allocator: A, block_size: MemUnit) -> (p: Self)
        requires
            block_size.bytes() <= u64::MAX,
        ensures
            p.parent_spec() == allocator,
            p.block_size_spec() == block_size.bytes(),
            p.blocks_spec() == Map::<u64, Suballocator>::empty(),
    {
        PoolAllocator {
            parent: allocator,
            block_size: block_size.to_bytes(),
            blocks: HashMap::new(),
            request_log: Ghost(Seq::empty()),
            allocate_answer_log: Ghost(Seq::empty()),
            free_answer_log: Ghost(Seq::empty()),
            free_log: Ghost(Seq::empty()),
        }
    }

    /// The blocks the pool currently holds, by the memory they live in.
    pub fn blocks(&self) -> (b: &HashMap<u64, Suballocator>)
        ensures
            b@ == self.blocks_spec(),
    {
        &self.blocks
    }

    /// The memories of the blocks, in the order the map is walked.
    fn block_memories(&self) -> (memories: Vec<u64>)
        ensures
            memories@.to_set() == self.blocks@.dom(),
    {
        broadcast use vstd::std_specs::hash::group_hash_axioms;

        let mut memories: Vec<u64> = Vec::new();
        let ghost all = vstd::std_specs::iter::IteratorSpec::remaining(&self.blocks.keys());
        for memory in it: self.blocks.keys()
            invariant
                it.seq() == all,
                memories@ == it.seq().take(it.index() as int).unref(),
        {
            memories.push(*memory);
        }
        proof {
            assert(memories@ =~= all.unref());
            assert(all.unref().to_set() == self.blocks@.dom());
        }
        memories
    }

    /// The request made of the parent when no block can serve a request: a
    /// whole block of the request's memory type.
    pub fn new_block_request(&self, allocate_info: MemoryAllocateInfo) -> (r: MemoryAllocateInfo)
        ensures
            r == (MemoryAllocateInfo {
                memory_type_index: allocate_info.memory_type_index,
                allocation_size: self.block_size_spec(),
            }),
    {
        MemoryAllocateInfo { memory_type_index: allocate_info.memory_type_index, allocation_size: self.block_size }
    }
}

impl<A: DeviceAllocator> DeviceAllocator for PoolAllocator<A> {
    open spec fn keeps_call_record(&self) -> bool {
        true
    }

    closed spec fn requests(&self) -> Seq<MemoryAllocateInfo> {
        self.request_log@
    }

    closed spec fn frees(&self) -> Seq<Allocation> {
        self.free_log@
    }

    closed spec fn allocate_answers(&self) -> Seq<Result<Allocation, AllocatorError>> {
        self.allocate_answer_log@
    }

    closed spec fn free_answers(&self) -> Seq<Result<(), AllocatorError>> {
        self.free_answer_log@
    }

    /// Serve the request from a block that can hold it; when none can, get a
    /// new block from the parent, serve the request from it and keep it by
    /// its memory. Which of several blocks that can hold the request serves
    /// it follows the order in which the blocks are walked.
    ///
    /// Requests larger than a block are refused and nothing changes.
    fn allocate(&mut self, allocate_info: MemoryAllocateInfo) -> (res: Result<Allocation, AllocatorError>)
        ensures
            final(self).block_size_spec() == old(self).block_size_spec(),
            allocate_info.allocation_size > old(self).block_size_spec() ==> res == Err::<
                Allocation,
                AllocatorError,
            >(AllocatorError::RequestTooLarge) && final(self).blocks_spec() == old(self).blocks_spec()
                && final(self).parent_spec() == old(self).parent_spec(),
            allocate_info.allocation_size <= old(self).block_size_spec() && some_block_serves(
                old(self).blocks_spec(),
                allocate_info,
            ) ==> {
                &&& final(self).parent_spec() == old(self).parent_spec()
                &&& res matches Ok(a) && exists|memory: u64|
                    {
                        &&& old(self).blocks_spec().contains_key(memory)
                        &&& can_serve(old(self).blocks_spec()[memory], allocate_info)
                        &&& final(self).blocks_spec() == old(self).blocks_spec().insert(
                            memory,
                            final(self).blocks_spec()[memory],
                        )
                        &&& served_from(
                            old(self).blocks_spec()[memory],
                            final(self).blocks_spec()[memory],
                            allocate_info,
                            a,
                        )
                    }
            },
            allocate_info.allocation_size <= old(self).block_size_spec() && !some_block_serves(
                old(self).blocks_spec(),
                allocate_info,
            ) ==> {
                &&& res is Err ==> final(self).blocks_spec() == old(self).blocks_spec()
                &&& old(self).parent_spec().keeps_call_record() ==> {
                    let r = final(self).parent_spec().allocate_answers().last();
                    &&& answered_allocate(
                        old(self).parent_spec(),
                        final(self).parent_spec(),
                        MemoryAllocateInfo {
                            memory_type_index: allocate_info.memory_type_index,
                            allocation_size: old(self).block_size_spec(),
                        },
                        r,
                    )
                    &&& r is Err ==> res == r
                    &&& r matches Ok(b) ==> res == Ok::<Allocation, AllocatorError>(
                        Allocation {
                            memory: b.memory,
                            offset: b.offset,
                            byte_size: allocate_info.allocation_size,
                            memory_type_index: allocate_info.memory_type_index,
                        },
                    ) && final(self).blocks_spec()[b.memory].block_spec() == b
                }
                &&& res matches Ok(a) ==> exists|b: Allocation|
                    {
                        &&& b.memory_type_index == allocate_info.memory_type_index
                        &&& b.byte_size == old(self).block_size_spec()
                        &&& final(self).blocks_spec() == old(self).blocks_spec().insert(
                            b.memory,
                            final(self).blocks_spec()[b.memory],
                        )
                        &&& final(self).blocks_spec()[b.memory].block_spec() == b
                        &&& final(self).blocks_spec()[b.memory]@ == fresh_block_free_list(
                            old(self).block_size_spec(),
                            allocate_info.allocation_size,
                        )
                        &&& a == (Allocation {
                            memory: b.memory,
                            offset: b.offset,
                            byte_size: allocate_info.allocation_size,
                            memory_type_index: allocate_info.memory_type_index,
                        })
                    }
            },
    {
        broadcast use vstd::std_specs::hash::group_hash_axioms;

        self.request_log = Ghost(self.request_log@.push(allocate_info));
        if allocate_info.allocation_size > self.block_size {
            let res = Err(AllocatorError::RequestTooLarge);
            self.allocate_answer_log = Ghost(self.allocate_answer_log@.push(res));
            return res;
        }

        let memories = self.block_memories();
        let n = memories.len();
        let mut i: usize = 0;
        while i < n
            invariant
                n == memories@.len(),
                i <= n,
                memories@.to_set() == old(self).blocks@.dom(),
                self.blocks@ == old(self).blocks@,
                self.block_size == old(self).block_size,
                self.parent == old(self).parent,
                self.request_log@ == old(self).request_log@.push(allocate_info),
                self.free_log == old(self).free_log,
                self.allocate_answer_log == old(self).allocate_answer_log,
                self.free_answer_log == old(self).free_answer_log,
                allocate_info.allocation_size <= self.block_size,
                forall|j: int|
                    0 <= j < i ==> !can_serve(#[trigger] old(self).blocks@[memories@[j]], allocate_info),
            decreases n - i,
        {
            let memory = memories[i];
            proof {
                assert(memories@.to_set().contains(memory));
            }
            let serves = match self.blocks.get(&memory) {
                Some(sub) => sub.can_allocate(allocate_info),
                None => false,
            };
            if serves {
                let mut sub = self.blocks.remove(&memory).unwrap();
                let ghost before = sub;
                let allocation = sub.allocate(allocate_info)?;
                self.blocks.insert(memory, sub);
                proof {
                    assert(self.blocks@ =~= old(self).blocks@.insert(memory, sub));
                    assert(served_from(before, sub, allocate_info, allocation));
                }
                self.allocate_answer_log = Ghost(self.allocate_answer_log@.push(Ok(allocation)));
                return Ok(allocation);
            }
            i = i + 1;
        }
        proof {
            assert forall|memory: u64| old(self).blocks@.contains_key(memory) implies !can_serve(
                #[trigger] old(self).blocks@[memory],
                allocate_info,
            ) by {
                assert(memories@.to_set().contains(memory));
                let j = memories@.index_of(memory);
                assert(memories@[j] == memory);
            }
        }

        let request = self.new_block_request(allocate_info);
        let new_block_allocation = match self.parent.allocate(request) {
            Ok(block) => block,
            Err(e) => {
                self.allocate_answer_log = Ghost(self.allocate_answer_log@.push(Err(e)));
                return Err(e);
            },
        };
        let mut suballocator = Suballocator::new(new_block_allocation);
        let ghost fresh = suballocator;
        proof {
            assert(first_fit_at(fresh@, allocate_info.allocation_size, 0));
        }
        let allocation = suballocator.allocate(allocate_info)?;
        proof {
            let size = allocate_info.allocation_size;
            assert(take_front(fresh@, size, 0) =~= fresh_block_free_list(self.block_size, size));
            assert forall|i: int| first_fit_at(fresh@, size, i) implies i == 0 by {}
        }
        self.blocks.insert(new_block_allocation.memory, suballocator);
        self.allocate_answer_log = Ghost(self.allocate_answer_log@.push(Ok(allocation)));
        proof {
            let b = new_block_allocation;
            assert(self.blocks@[b.memory] == suballocator);
            assert(self.blocks@ =~= old(self).blocks@.insert(b.memory, self.blocks@[b.memory]));
            assert({
                &&& b.memory_type_index == allocate_info.memory_type_index
                &&& b.byte_size == old(self).block_size_spec()
                &&& self.blocks_spec() == old(self).blocks_spec().insert(b.memory, self.blocks_spec()[b.memory])
                &&& self.blocks_spec()[b.memory].block_spec() == b
                &&& self.blocks_spec()[b.memory]@ == fresh_block_free_list(
                    old(self).block_size_spec(),
                    allocate_info.allocation_size,
                )
                &&& allocation == (Allocation {
                    memory: b.memory,
                    offset: b.offset,
                    byte_size: allocate_info.allocation_size,
                    memory_type_index: allocate_info.memory_type_index,
                })
            });
        }
        proof {
            if old(self).parent.keeps_call_record() {
                let answers = self.parent.allocate_answers();
                assert(answers == old(self).parent.allocate_answers().push(Ok(new_block_allocation)));
                assert(answers.last() == Ok::<Allocation, AllocatorError>(new_block_allocation));
                assert(answered_allocate(
                    old(self).parent_spec(),
                    self.parent_spec(),
                    MemoryAllocateInfo {
                        memory_type_index: allocate_info.memory_type_index,
                        allocation_size: old(self).block_size_spec(),
                    },
                    answers.last(),
                ));
                assert(self.blocks_spec()[new_block_allocation.memory].block_spec() == new_block_allocation);
                assert(allocation == (Allocation {
                    memory: new_block_allocation.memory,
                    offset: new_block_allocation.offset,
                    byte_size: allocate_info.allocation_size,
                    memory_type_index: allocate_info.memory_type_index,
                }));
            }
        }
        Ok(allocation)
    }

    /// Return the allocation to the block it came from; once that block is
    /// entirely free it is given back to the parent and dropped. Freeing the
    /// null allocation does nothing; an allocation from memory the pool does
    /// not hold is refused.
    fn free(&mut self, allocation: &Allocation) -> (res: Result<(), AllocatorError>)
        ensures
            final(self).block_size_spec() == old(self).block_size_spec(),
            allocation.memory == 0 ==> res is Ok && final(self).blocks_spec() == old(self).blocks_spec()
                && final(self).parent_spec() == old(self).parent_spec(),
            allocation.memory != 0 && !old(self).blocks_spec().contains_key(allocation.memory) ==> res
                == Err::<(), AllocatorError>(AllocatorError::UnknownMemory) && final(self).blocks_spec()
                == old(self).blocks_spec() && final(self).parent_spec() == old(self).parent_spec(),
            ({
                let m = allocation.memory;
                let sub = old(self).blocks_spec()[m];
                let kept = final(self).blocks_spec()[m];
                m != 0 && old(self).blocks_spec().contains_key(m) ==> {
                    &&& !accepts(sub, *allocation) ==> res == Err::<(), AllocatorError>(AllocatorError::Overflow)
                        && final(self).blocks_spec() == old(self).blocks_spec() && final(self).parent_spec()
                        == old(self).parent_spec()
                    &&& accepts(sub, *allocation) && !entirely_free(returned(sub, *allocation), sub.block_spec())
                        ==> {
                        &&& res is Ok
                        &&& final(self).parent_spec() == old(self).parent_spec()
                        &&& final(self).blocks_spec() == old(self).blocks_spec().insert(m, kept)
                        &&& kept@ == returned(sub, *allocation)
                        &&& kept.block_spec() == sub.block_spec()
                    }
                    &&& accepts(sub, *allocation) && entirely_free(returned(sub, *allocation), sub.block_spec()) ==> {
                        &&& res is Ok ==> final(self).blocks_spec() == old(self).blocks_spec().remove(m)
                        &&& old(self).parent_spec().keeps_call_record() ==> {
                            let r = final(self).parent_spec().free_answers().last();
                            &&& answered_free(old(self).parent_spec(), final(self).parent_spec(), sub.block_spec(), r)
                            &&& res == r
                        }
                        &&& res is Err ==> final(self).blocks_spec() == old(self).blocks_spec().insert(m, kept)
                            && kept@ == returned(sub, *allocation) && kept.block_spec() == sub.block_spec()
                    }
                }
            }),
    {
        broadcast use vstd::std_specs::hash::group_hash_axioms;

        self.free_log = Ghost(self.free_log@.push(*allocation));
        if allocation.is_null() {
            self.free_answer_log = Ghost(self.free_answer_log@.push(Ok(())));
            return Ok(());
        }
        let memory = allocation.memory;
        if !self.blocks.contains_key(&memory) {
            let res = Err(AllocatorError::UnknownMemory);
            self.free_answer_log = Ghost(self.free_answer_log@.push(res));
            return res;
        }
        let accepted = match self.blocks.get(&memory) {
            Some(sub) => sub.accepts_allocation(allocation),
            None => false,
        };
        if !accepted {
            let res = Err(AllocatorError::Overflow);
            self.free_answer_log = Ghost(self.free_answer_log@.push(res));
            return res;
        }
        let mut suballocator = self.blocks.remove(&memory).unwrap();
        if let Err(e) = suballocator.free(allocation) {
            self.blocks.insert(memory, suballocator);
            assert(self.blocks@ =~= old(self).blocks@);
            return Err(e);
        }
        if suballocator.is_empty() {
            let freed = suballocator.free_block(&mut self.parent);
            if freed.is_err() {
                self.blocks.insert(memory, suballocator);
                assert(self.blocks@ =~= old(self).blocks@.insert(memory, suballocator));
            }
            self.free_answer_log = Ghost(self.free_answer_log@.push(freed));
            return freed;
        } else {
            self.blocks.insert(memory, suballocator);
            assert(self.blocks@ =~= old(self).blocks@.insert(memory, suballocator));
        }
        self.free_answer_log = Ghost(self.free_answer_log@.push(Ok(())));
        Ok(())
    }
}

} // verus!
