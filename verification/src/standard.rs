//! The allocator stack the renderer uses.

use crate::allocator::DeviceAllocator;
use crate::mem_unit::MemUnit;
use crate::memory_type::MemoryType;
use crate::page_allocator::PageAllocator;
use crate::pool::PoolAllocator;
use crate::size_selector::SizeSelector;
use crate::type_index::TypeIndexAllocator;
use vstd::prelude::*;

verus! {

/// The allocator each memory type gets: pools of 1 MiB blocks for requests
/// below 512 KiB, pools of 512 MiB blocks for requests below 256 MiB, and the
/// device allocator itself for the rest.
pub type MemoryTypeAllocator<A> = SizeSelector<PoolAllocator<A>, SizeSelector<PoolAllocator<A>, A>>;

/// The standard allocator: requests are rounded up to whole KiB, dispatched
/// by memory type, then by size.
pub type StandardAllocator<A> = PageAllocator<TypeIndexAllocator<MemoryTypeAllocator<A>>>;

/// The allocator layout of one memory type: pools of 1 MiB blocks below 512
/// KiB, pools of 512 MiB blocks below 256 MiB, each pool empty to start with.
pub open spec fn is_fresh_memory_type_allocator<A: DeviceAllocator>(a: MemoryTypeAllocator<A>) -> bool {
    &&& a.threshold() == 512 * 1024
    &&& a.small_spec().block_size_spec() == 1024 * 1024
    &&& a.small_spec().blocks_spec().len() == 0
    &&& a.large_spec().threshold() == 256 * 1024 * 1024
    &&& a.large_spec().small_spec().block_size_spec() == 512 * 1024 * 1024
    &&& a.large_spec().small_spec().blocks_spec().len() == 0
}

/// The allocator of one memory type, drawing all of its memory from (a clone
/// of) the shared device allocator.
pub fn memory_type_allocator<A: DeviceAllocator + Clone>(device_allocator: &A) -> (a: MemoryTypeAllocator<A>)
    ensures
        is_fresh_memory_type_allocator(a),
{
    SizeSelector::new(
        // for allocations below 512KiB
        PoolAllocator::new(device_allocator.clone(), MemUnit::MiB(1)),
        MemUnit::KiB(512),
        // for allocations above 512KiB
        SizeSelector::new(
            // for allocations below 256MiB
            PoolAllocator::new(device_allocator.clone(), MemUnit::MiB(512)),
            MemUnit::MiB(256),
            // for allocations above 256MiB
            device_allocator.clone(),
        ),
    )
}

/// Build the standard allocator implementation over a shared device
/// allocator, with one allocator per memory type of the device.
///
/// The device allocator is cloned for each use, so clones should share one
/// underlying allocator.
pub fn build_standard_allocator<A: DeviceAllocator + Clone>(device_allocator: A, memory_types: &Vec<MemoryType>) -> (a:
    StandardAllocator<A>)
    requires
        memory_types.len() <= u32::MAX,
    ensures
        a.page_size_spec() == 1024,
        a.parent_spec().allocators_spec().len() == memory_types.len(),
        forall|i: int|
            0 <= i < memory_types.len() ==> is_fresh_memory_type_allocator(
                #[trigger] a.parent_spec().allocators_spec()[i],
            ),
{
    let factory = |memory_type_index: u32, memory_type: MemoryType| -> (a: MemoryTypeAllocator<A>)
        ensures
            is_fresh_memory_type_allocator(a),
        { memory_type_allocator(&device_allocator) };
    PageAllocator::new(TypeIndexAllocator::new(memory_types, factory), MemUnit::KiB(1))
}

} // verus!
