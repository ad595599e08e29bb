use ash_starter::allocation::{Allocation, MemoryAllocateInfo};
use ash_starter::allocator::DeviceAllocator;
use ash_starter::error::AllocatorError;
use ash_starter::region::Region;
use ash_starter::suballocator::Suballocator;

fn fake_allocation(size: u64) -> Allocation {
    let mut allocation = Allocation::null();
    allocation.byte_size = size;
    allocation
}

#[test]
pub fn test_allocate_region() {
    let allocation = fake_allocation(1024);
    let mut suballocator = Suballocator::new(allocation);

    assert_eq!(*suballocator.free_regions(), vec![Region::new(0, 1024)]);

    let region = suballocator.allocate_region(256);
    assert_eq!(region, Some(Region::new(0, 256)));
    assert_eq!(*suballocator.free_regions(), vec![Region::new(256, 768)]);

    let remaining = suballocator.allocate_region(768);
    assert_eq!(remaining, Some(Region::new(256, 768)));
    assert_eq!(*suballocator.free_regions(), Vec::<Region>::new());
}

#[test]
pub fn test_free_whole_region() {
    let mut sub = Suballocator::new(fake_allocation(1024));

    let region = sub.allocate_region(1024).unwrap();
    assert_eq!(region, Region::new(0, 1024));
    assert_eq!(*sub.free_regions(), Vec::<Region>::new());

    sub.free_region(region).unwrap();
    assert_eq!(*sub.free_regions(), vec![Region::new(0, 1024)]);
}

#[test]
pub fn test_split_region() {
    let mut sub = Suballocator::new(fake_allocation(1024));

    let region = sub.allocate_region(512).unwrap();
    assert_eq!(region, Region::new(0, 512));
    assert_eq!(*sub.free_regions(), vec![Region::new(512, 512)]);

    sub.free_region(region).unwrap();
    assert_eq!(*sub.free_regions(), vec![Region::new(0, 1024)]);
}

#[test]
pub fn test_merge_front_and_back() {
    let mut sub = Suballocator::new(fake_allocation(1024));

    let a = sub.allocate_region(256).unwrap();
    let b = sub.allocate_region(512).unwrap();
    let c = sub.allocate_region(256).unwrap();

    assert_eq!(*sub.free_regions(), Vec::<Region>::new());

    sub.free_region(c).unwrap();
    assert_eq!(*sub.free_regions(), vec![Region::new(768, 256)]);

    sub.free_region(a).unwrap();
    assert_eq!(*sub.free_regions(), vec![Region::new(0, 256), Region::new(768, 256)]);

    sub.free_region(b).unwrap();
    assert_eq!(*sub.free_regions(), vec![Region::new(0, 1024)]);
}

#[test]
pub fn test_merge_front_with_leading() {
    let mut sub = Suballocator::new(fake_allocation(1024));

    let a = sub.allocate_region(256).unwrap();
    let b = sub.allocate_region(256).unwrap();
    let c = sub.allocate_region(256).unwrap();
    let d = sub.allocate_region(256).unwrap();

    assert_eq!(*sub.free_regions(), Vec::<Region>::new());

    sub.free_region(a).unwrap();
    assert_eq!(*sub.free_regions(), vec![Region::new(0, 256)]);

    sub.free_region(d).unwrap();
    assert_eq!(*sub.free_regions(), vec![Region::new(0, 256), Region::new(768, 256)]);

    sub.free_region(c).unwrap();
    assert_eq!(*sub.free_regions(), vec![Region::new(0, 256), Region::new(512, 512)]);

    sub.free_region(b).unwrap();
    assert_eq!(*sub.free_regions(), vec![Region::new(0, 1024)]);
}

#[test]
pub fn test_merge_back_with_trailing() {
    let mut sub = Suballocator::new(fake_allocation(1024));

    let a = sub.allocate_region(256).unwrap();
    let b = sub.allocate_region(256).unwrap();
    let c = sub.allocate_region(256).unwrap();
    let d = sub.allocate_region(256).unwrap();

    assert_eq!(*sub.free_regions(), Vec::<Region>::new());

    sub.free_region(a).unwrap();
    assert_eq!(*sub.free_regions(), vec![Region::new(0, 256)]);

    sub.free_region(d).unwrap();
    assert_eq!(*sub.free_regions(), vec![Region::new(0, 256), Region::new(768, 256)]);

    sub.free_region(b).unwrap();
    assert_eq!(*sub.free_regions(), vec![Region::new(0, 512), Region::new(768, 256)]);

    sub.free_region(c).unwrap();
    assert_eq!(*sub.free_regions(), vec![Region::new(0, 1024)]);
}

#[should_panic]
#[test]
pub fn test_double_free() {
    let mut sub = Suballocator::new(fake_allocation(1024));
    let a = sub.allocate_region(512).unwrap();
    let b = sub.allocate_region(512).unwrap();
    sub.free_region(b).unwrap();
    sub.free_region(a).unwrap();
    sub.free_region(a).unwrap();
}

#[test]
pub fn double_free_is_refused_and_changes_nothing() {
    let mut sub = Suballocator::new(fake_allocation(1024));
    let a = sub.allocate_region(512).unwrap();
    sub.free_region(a).unwrap();
    assert_eq!(sub.free_region(a), Err(AllocatorError::DoubleFree));
    assert_eq!(*sub.free_regions(), vec![Region::new(0, 1024)]);
    // partly free is refused too
    let b = sub.allocate_region(100).unwrap();
    assert_eq!(sub.free_region(Region::new(50, 100)), Err(AllocatorError::DoubleFree));
    assert_eq!(*sub.free_regions(), vec![Region::new(100, 924)]);
    sub.free_region(b).unwrap();
}

#[test]
pub fn freeing_into_the_next_free_region_is_refused() {
    let mut sub = Suballocator::new(fake_allocation(1024));
    let a = sub.allocate_region(256).unwrap();
    let _b = sub.allocate_region(256).unwrap();
    let c = sub.allocate_region(256).unwrap();
    sub.free_region(a).unwrap();
    sub.free_region(c).unwrap();
    assert_eq!(*sub.free_regions(), vec![Region::new(0, 256), Region::new(512, 512)]);
    // starts where the first free region ends, and runs into the second one
    assert_eq!(sub.free_region(Region::new(256, 300)), Err(AllocatorError::DoubleFree));
    assert_eq!(*sub.free_regions(), vec![Region::new(0, 256), Region::new(512, 512)]);
}

#[test]
pub fn first_fit_skips_small_regions() {
    let mut sub = Suballocator::new(fake_allocation(1024));
    let a = sub.allocate_region(100).unwrap();
    let _b = sub.allocate_region(100).unwrap();
    sub.free_region(a).unwrap();
    assert_eq!(*sub.free_regions(), vec![Region::new(0, 100), Region::new(200, 824)]);
    assert_eq!(sub.allocate_region(150), Some(Region::new(200, 150)));
    assert_eq!(*sub.free_regions(), vec![Region::new(0, 100), Region::new(350, 674)]);
    assert_eq!(sub.allocate_region(1000), None);
    assert_eq!(*sub.free_regions(), vec![Region::new(0, 100), Region::new(350, 674)]);
}

#[test]
pub fn allocate_then_free_restores_the_free_list() {
    let mut sub = Suballocator::new(fake_allocation(4096));
    let _x = sub.allocate_region(1000).unwrap();
    let y = sub.allocate_region(500).unwrap();
    sub.free_region(y).unwrap();
    let before = sub.free_regions().clone();
    for size in [1, 7, 1000, 2596, 0] {
        let r = sub.allocate_region(size).unwrap();
        sub.free_region(r).unwrap();
        assert_eq!(*sub.free_regions(), before);
    }
}

#[test]
pub fn suballocator_allocations_and_is_empty() {
    let mut sub = Suballocator::new(Allocation::new(77, 0, 1024, 3));
    assert!(sub.is_empty());
    let info = MemoryAllocateInfo { memory_type_index: 3, allocation_size: 256 };
    let a = sub.allocate(info).unwrap();
    assert_eq!(a, Allocation::new(77, 0, 256, 3));
    assert!(!sub.is_empty());
    let b = sub.allocate(info).unwrap();
    assert_eq!(b.offset, 256);
    sub.free(&a).unwrap();
    sub.free(&b).unwrap();
    assert!(sub.is_empty());
}

#[test]
pub fn suballocator_refuses_other_memory_types_and_large_requests() {
    let mut sub = Suballocator::new(Allocation::new(77, 0, 1024, 3));
    let other = MemoryAllocateInfo { memory_type_index: 4, allocation_size: 16 };
    assert_eq!(sub.allocate(other), Err(AllocatorError::IncompatibleMemoryType));
    let large = MemoryAllocateInfo { memory_type_index: 3, allocation_size: 2048 };
    assert_eq!(sub.allocate(large), Err(AllocatorError::OutOfMemory));
    assert_eq!(*sub.free_regions(), vec![Region::new(0, 1024)]);
}

#[test]
pub fn suballocator_offsets_by_the_block_offset() {
    let mut sub = Suballocator::new(Allocation::new(9, 100, 1000, 1));
    // free regions are offsets within the block, so the block starts free at zero
    assert_eq!(*sub.free_regions(), vec![Region::new(0, 1000)]);
    let a = sub.allocate(MemoryAllocateInfo { memory_type_index: 1, allocation_size: 10 }).unwrap();
    assert_eq!(a.offset, 100);
    let b = sub.allocate(MemoryAllocateInfo { memory_type_index: 1, allocation_size: 990 }).unwrap();
    assert_eq!((b.offset, b.byte_size), (110, 990));
    assert_eq!(*sub.free_regions(), vec![]);
    sub.free(&a).unwrap();
    sub.free(&b).unwrap();
    assert_eq!(*sub.free_regions(), vec![Region::new(0, 1000)]);
    assert!(sub.is_empty());
    // an allocation before the block cannot be freed
    assert_eq!(sub.free(&Allocation::new(9, 50, 10, 1)), Err(AllocatorError::Overflow));
}

struct Recorder {
    freed: Vec<Allocation>,
}

impl DeviceAllocator for Recorder {
    fn allocate(&mut self, _info: MemoryAllocateInfo) -> Result<Allocation, AllocatorError> {
        Err(AllocatorError::OutOfMemory)
    }
    fn free(&mut self, allocation: &Allocation) -> Result<(), AllocatorError> {
        self.freed.push(*allocation);
        Ok(())
    }
}

#[test]
pub fn free_block_returns_the_block_to_its_allocator() {
    let block = Allocation::new(5, 0, 64, 2);
    let mut sub = Suballocator::new(block);
    let mut parent = Recorder { freed: vec![] };
    sub.free_block(&mut parent).unwrap();
    assert_eq!(parent.freed, vec![block]);
    assert_eq!(*sub.block(), Allocation::null());
}

#[test]
pub fn can_allocate_tells_whether_allocate_would_succeed() {
    let mut sub = Suballocator::new(Allocation::new(4, 0, 100, 2));
    let small = MemoryAllocateInfo { memory_type_index: 2, allocation_size: 60 };
    assert!(sub.can_allocate(small));
    assert!(!sub.can_allocate(MemoryAllocateInfo { memory_type_index: 3, allocation_size: 1 }));
    sub.allocate(small).unwrap();
    // nothing was taken by asking
    assert_eq!(*sub.free_regions(), vec![Region::new(60, 40)]);
    assert!(!sub.can_allocate(small));
    assert!(sub.can_allocate(MemoryAllocateInfo { memory_type_index: 2, allocation_size: 40 }));
}
