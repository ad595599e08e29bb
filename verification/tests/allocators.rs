use ash_starter::allocation::{Allocation, MemoryAllocateInfo};
use ash_starter::allocator::DeviceAllocator;
use ash_starter::error::AllocatorError;
use ash_starter::forced_offset::ForcedOffsetAllocator;
use ash_starter::mem_unit::MemUnit;
use ash_starter::memory_type::MemoryType;
use ash_starter::metrics::MetricsAllocator;
use ash_starter::page_allocator::PageAllocator;
use ash_starter::pool::PoolAllocator;
use ash_starter::size_selector::SizeSelector;
use ash_starter::standard::build_standard_allocator;
use ash_starter::type_index::TypeIndexAllocator;
use std::cell::RefCell;
use std::rc::Rc;

/// An allocator with no memory; only the page rounding is exercised with it.
pub struct StubAllocator {}

impl DeviceAllocator for StubAllocator {
    fn allocate(&mut self, _allocate_info: MemoryAllocateInfo) -> Result<Allocation, AllocatorError> {
        Err(AllocatorError::OutOfMemory)
    }

    fn free(&mut self, _allocation: &Allocation) -> Result<(), AllocatorError> {
        Err(AllocatorError::UnknownMemory)
    }
}

#[derive(Default)]
struct DeviceLog {
    next_handle: u64,
    allocated: Vec<MemoryAllocateInfo>,
    freed: Vec<Allocation>,
}

/// A fake device: every allocation is a new memory object; the log is shared
/// between clones.
#[derive(Clone, Default)]
struct FakeDevice {
    log: Rc<RefCell<DeviceLog>>,
}

impl DeviceAllocator for FakeDevice {
    fn allocate(&mut self, info: MemoryAllocateInfo) -> Result<Allocation, AllocatorError> {
        let mut log = self.log.borrow_mut();
        log.next_handle += 1;
        log.allocated.push(info);
        Ok(Allocation::new(log.next_handle, 0, info.allocation_size, info.memory_type_index))
    }

    fn free(&mut self, allocation: &Allocation) -> Result<(), AllocatorError> {
        self.log.borrow_mut().freed.push(*allocation);
        Ok(())
    }
}

/// A device that refuses everything with a driver error.
struct FailingDevice {}

impl DeviceAllocator for FailingDevice {
    fn allocate(&mut self, _info: MemoryAllocateInfo) -> Result<Allocation, AllocatorError> {
        Err(AllocatorError::Device(-2))
    }

    fn free(&mut self, _allocation: &Allocation) -> Result<(), AllocatorError> {
        Err(AllocatorError::Device(-2))
    }
}

fn request(memory_type_index: u32, allocation_size: u64) -> MemoryAllocateInfo {
    MemoryAllocateInfo { memory_type_index, allocation_size }
}

#[test]
pub fn test_round_to_nearest_page() {
    let allocator = PageAllocator::new(StubAllocator {}, MemUnit::B(256));

    assert_eq!(allocator.round_up_to_nearest_page(0), 0);
    assert_eq!(allocator.round_up_to_nearest_page(256), 256);
    assert_eq!(allocator.round_up_to_nearest_page(20), 256);
    assert_eq!(allocator.round_up_to_nearest_page(257), 512);
    assert_eq!(
        allocator.round_up_to_nearest_page(MemUnit::GiB(1024).to_bytes() + 1),
        MemUnit::GiB(1024).to_bytes() + 256
    );
}

#[test]
pub fn mem_units_convert_to_bytes() {
    assert_eq!(MemUnit::B(3).to_bytes(), 3);
    assert_eq!(MemUnit::KiB(3).to_bytes(), 3 * 1024);
    assert_eq!(MemUnit::MiB(3).to_bytes(), 3 * 1024 * 1024);
    assert_eq!(MemUnit::GiB(3).to_bytes(), 3 * 1024 * 1024 * 1024);
}

#[test]
pub fn page_allocator_rounds_requests_but_reports_requested_size() {
    let device = FakeDevice::default();
    let mut pages = PageAllocator::new(device.clone(), MemUnit::KiB(1));
    let a = pages.allocate(request(2, 1500)).unwrap();
    assert_eq!(a.byte_size, 1500);
    assert_eq!(device.log.borrow().allocated, vec![request(2, 2048)]);
    pages.free(&a).unwrap();
    assert_eq!(device.log.borrow().freed[0].byte_size, 2048);
    // a rounded size beyond u64 is refused before the device is asked
    assert_eq!(pages.allocate(request(2, u64::MAX)), Err(AllocatorError::Overflow));
    assert_eq!(device.log.borrow().allocated.len(), 1);
}

#[test]
pub fn page_allocator_passes_device_errors_on() {
    let mut pages = PageAllocator::new(FailingDevice {}, MemUnit::KiB(1));
    assert_eq!(pages.allocate(request(0, 1)), Err(AllocatorError::Device(-2)));
}

#[test]
pub fn size_selector_dispatches_by_size() {
    let small = FakeDevice::default();
    let large = FakeDevice::default();
    let mut selector = SizeSelector::new(small.clone(), MemUnit::KiB(1), large.clone());
    let a = selector.allocate(request(0, 1023)).unwrap();
    let b = selector.allocate(request(0, 1024)).unwrap();
    assert_eq!(small.log.borrow().allocated, vec![request(0, 1023)]);
    assert_eq!(large.log.borrow().allocated, vec![request(0, 1024)]);
    selector.free(&a).unwrap();
    selector.free(&b).unwrap();
    assert_eq!(small.log.borrow().freed, vec![a]);
    assert_eq!(large.log.borrow().freed, vec![b]);
}

#[test]
pub fn forced_offset_moves_allocations() {
    let device = FakeDevice::default();
    let mut forced = ForcedOffsetAllocator::new(device.clone(), MemUnit::B(2));
    let a = forced.allocate(request(1, 50)).unwrap();
    assert_eq!(a.offset, 200);
    assert_eq!(a.byte_size, 50);
    assert_eq!(device.log.borrow().allocated, vec![request(1, 250)]);
    forced.free(&a).unwrap();
    let freed = device.log.borrow().freed[0];
    assert_eq!((freed.offset, freed.byte_size), (0, 250));
    // freeing the null allocation does nothing
    forced.free(&Allocation::null()).unwrap();
    assert_eq!(device.log.borrow().freed.len(), 1);
}

#[test]
pub fn type_index_allocator_dispatches_by_memory_type() {
    let devices = vec![FakeDevice::default(), FakeDevice::default()];
    let types = vec![
        MemoryType { property_flags: 1, heap_index: 0 },
        MemoryType { property_flags: 6, heap_index: 1 },
    ];
    let mut by_type = TypeIndexAllocator::new(&types, |i, _t| devices[i as usize].clone());
    let a = by_type.allocate(request(1, 64)).unwrap();
    assert_eq!(devices[0].log.borrow().allocated.len(), 0);
    assert_eq!(devices[1].log.borrow().allocated, vec![request(1, 64)]);
    by_type.free(&a).unwrap();
    assert_eq!(devices[1].log.borrow().freed, vec![a]);
    assert_eq!(by_type.allocate(request(2, 64)), Err(AllocatorError::UnknownMemoryType));
    assert_eq!(by_type.free(&Allocation::new(3, 0, 1, 7)), Err(AllocatorError::UnknownMemoryType));
}

#[test]
pub fn pool_serves_small_requests_from_shared_blocks() {
    let device = FakeDevice::default();
    let mut pool = PoolAllocator::new(device.clone(), MemUnit::KiB(1));
    assert_eq!(pool.allocate(request(0, 2048)), Err(AllocatorError::RequestTooLarge));
    let a = pool.allocate(request(0, 512)).unwrap();
    let b = pool.allocate(request(0, 512)).unwrap();
    assert_eq!(a.memory, b.memory);
    assert_eq!((a.offset, b.offset), (0, 512));
    assert_eq!(device.log.borrow().allocated, vec![request(0, 1024)]);
    // the block is full: a new one is needed
    let c = pool.allocate(request(0, 1)).unwrap();
    assert_ne!(c.memory, a.memory);
    assert_eq!(pool.blocks().len(), 2);
    // freeing everything from a block gives it back to the device
    pool.free(&a).unwrap();
    assert_eq!(device.log.borrow().freed.len(), 0);
    pool.free(&b).unwrap();
    assert_eq!(device.log.borrow().freed.len(), 1);
    assert_eq!(pool.blocks().len(), 1);
    assert_eq!(pool.free(&a), Err(AllocatorError::UnknownMemory));
    pool.free(&Allocation::null()).unwrap();
}

#[test]
pub fn metrics_allocator_counts_allocations() {
    let mut metrics = MetricsAllocator::new("test".to_string(), FakeDevice::default());
    let a = metrics.allocate(request(1, 100)).unwrap();
    let b = metrics.allocate(request(2, 50)).unwrap();
    let _c = metrics.allocate(request(1, 75)).unwrap();
    metrics.free(&a).unwrap();
    metrics.free(&b).unwrap();
    let total = metrics.total();
    assert_eq!(total.total_allocations, 3);
    assert_eq!(total.current_allocations, 1);
    assert_eq!(total.max_concurrent_allocations, 3);
    assert_eq!(total.mean_allocation_byte_size, 75);
    assert_eq!(total.biggest_allocation, 100);
    assert_eq!(total.smallest_allocation, 50);
    let by_type = metrics.metrics_by_type();
    assert_eq!(by_type.len(), 2);
    assert_eq!(by_type[&1].total_allocations, 2);
    assert_eq!(by_type[&1].current_allocations, 1);
    assert_eq!(by_type[&1].mean_allocation_byte_size, 87);
    assert_eq!(by_type[&2].total_allocations, 1);
    assert_eq!(by_type[&2].current_allocations, 0);
    assert_eq!(metrics.name(), "test");
}

#[test]
pub fn standard_allocator_composes() {
    let device = FakeDevice::default();
    let types = vec![MemoryType { property_flags: 1, heap_index: 0 }, MemoryType { property_flags: 7, heap_index: 0 }];
    let mut standard = build_standard_allocator(device.clone(), &types);
    // small requests come from 1 MiB blocks, rounded to whole KiB
    let a = standard.allocate(request(1, 100)).unwrap();
    let b = standard.allocate(request(1, 3000)).unwrap();
    assert_eq!(a.memory, b.memory);
    assert_eq!(b.offset, 1024);
    assert_eq!(b.byte_size, 3000);
    assert_eq!(device.log.borrow().allocated, vec![request(1, 1024 * 1024)]);
    // medium requests come from 512 MiB blocks
    let _m = standard.allocate(request(0, 1024 * 1024)).unwrap();
    assert_eq!(device.log.borrow().allocated[1], request(0, 512 * 1024 * 1024));
    // large requests go straight to the device
    let _l = standard.allocate(request(0, 300 * 1024 * 1024)).unwrap();
    assert_eq!(device.log.borrow().allocated[2], request(0, 300 * 1024 * 1024));
    standard.free(&a).unwrap();
    standard.free(&b).unwrap();
    assert_eq!(device.log.borrow().freed.len(), 1);
}

#[test]
pub fn pool_blocks_with_an_offset_keep_allocations_inside() {
    let device = FakeDevice::default();
    // every block the pool gets starts 200 bytes into its memory
    let forced = ForcedOffsetAllocator::new(device.clone(), MemUnit::B(2));
    let mut pool = PoolAllocator::new(forced, MemUnit::B(100));
    assert_eq!(pool.new_block_request(request(3, 10)), request(3, 100));
    let a = pool.allocate(request(3, 60)).unwrap();
    let b = pool.allocate(request(3, 40)).unwrap();
    assert_eq!((a.offset, a.byte_size), (200, 60));
    assert_eq!((b.offset, b.byte_size), (260, 40));
    assert_eq!(device.log.borrow().allocated, vec![request(3, 300)]);
    let block = *pool.blocks()[&a.memory].block();
    assert_eq!((block.offset, block.byte_size), (200, 100));
    assert!(b.offset + b.byte_size <= block.offset + block.byte_size);
    // once both are freed the block goes back, moved back to where it began
    pool.free(&a).unwrap();
    pool.free(&b).unwrap();
    assert_eq!(pool.blocks().len(), 0);
    let freed = device.log.borrow().freed[0];
    assert_eq!((freed.offset, freed.byte_size), (0, 300));
}

#[test]
pub fn page_allocator_helpers_round_the_parent_side() {
    let pages = PageAllocator::new(FakeDevice::default(), MemUnit::KiB(1));
    let block = Allocation::new(7, 4096, 2048, 1);
    assert_eq!(pages.reported_allocation(block, 1500), Allocation::new(7, 4096, 1500, 1));
    assert_eq!(pages.aligned_allocation(Allocation::new(7, 4096, 1500, 1)), Some(block));
    assert_eq!(pages.aligned_allocation(Allocation::new(7, 0, u64::MAX, 1)), None);
}
