use ash_starter::allocation::Allocation;
use ash_starter::region::{MergeResult, Region};

#[test]
pub fn start_end() {
    assert_eq!(Region::new(8, 123).start(), 8);
    assert_eq!(Region::new(8, 123).end(), 131);
}

#[test]
pub fn new_region_for_whole_allocation_test() {
    let allocation = dummy_allocation(23, 1234);
    let region = Region::new_whole_region(&allocation);
    assert_eq!(region.offset, 23);
    assert_eq!(region.size, 1234);
}

#[test]
pub fn is_contiguous_test() {
    let a = Region::new(0, 512);
    let b = Region::new(512, 256);
    assert!(a.is_contiguous(&b));
    assert!(!a.is_contiguous(&Region::new(513, 20)));
}

#[test]
pub fn merge_contiguous() {
    let a = Region::new(0, 512);
    let b = Region::new(512, 256);
    assert_eq!(a.merge(&b), MergeResult::Contiguous(Region::new(0, 768)));
    assert_eq!(b.merge(&a), MergeResult::Contiguous(Region::new(0, 768)));
}

#[test]
pub fn merge_non_contiguous() {
    let a = Region::new(0, 256);
    let b = Region::new(512, 256);
    assert_eq!(a.merge(&b), MergeResult::NonContiguous);
    assert_eq!(b.merge(&a), MergeResult::NonContiguous);
}

#[test]
pub fn take_subregion_test() {
    let mut a = Region::new(0, 256);
    let b = a.take_subregion(64);
    assert_eq!(Region::new(0, 64), b);
    assert_eq!(Region::new(64, 192), a);
}

#[test]
pub fn overlapping_regions_share_a_byte() {
    let a = Region::new(100, 50);
    assert!(a.is_overlapping(&Region::new(149, 10)));
    assert!(a.is_overlapping(&Region::new(90, 11)));
    assert!(!a.is_overlapping(&Region::new(150, 10)));
    assert!(!a.is_overlapping(&Region::new(90, 10)));
    // an empty region strictly inside another overlaps it, one at its edge does not
    assert!(a.is_overlapping(&Region::new(120, 0)));
    assert!(!a.is_overlapping(&Region::new(100, 0)));
}

#[test]
pub fn take_whole_subregion_leaves_empty_region() {
    let mut a = Region::new(10, 30);
    let b = a.take_subregion(30);
    assert_eq!(b, Region::new(10, 30));
    assert_eq!(a, Region::new(40, 0));
}

fn dummy_allocation(offset: u64, size: u64) -> Allocation {
    let mut allocation = Allocation::null();
    allocation.offset = offset;
    allocation.byte_size = size;
    allocation
}
