use ash_starter::allocation::Allocation;
use ash_starter::metrics::Metrics;

fn allocation_with_size(size: u64) -> Allocation {
    let mut allocation = Allocation::null();
    allocation.byte_size = size;
    allocation
}

#[test]
fn test_mean_allocation_size() {
    let mut metrics = Metrics::default();
    metrics.measure_alloctaion(&allocation_with_size(100));
    metrics.measure_alloctaion(&allocation_with_size(50));
    metrics.measure_alloctaion(&allocation_with_size(75));

    assert_eq!(metrics.mean_allocation_byte_size, 75);
}

#[test]
fn test_allocation_counters() {
    let mut metrics = Metrics::default();
    metrics.measure_alloctaion(&allocation_with_size(100));
    metrics.measure_alloctaion(&allocation_with_size(50));
    metrics.measure_alloctaion(&allocation_with_size(75));
    metrics.measure_free();

    assert_eq!(metrics.current_allocations, 2);
    assert_eq!(metrics.smallest_allocation, 50);
    assert_eq!(metrics.biggest_allocation, 100);
    assert_eq!(metrics.max_concurrent_allocations, 3);
}

#[test]
fn default_metrics_are_empty() {
    let metrics = Metrics::default();
    assert_eq!(metrics.total_allocations, 0);
    assert_eq!(metrics.current_allocations, 0);
    assert_eq!(metrics.max_concurrent_allocations, 0);
    assert_eq!(metrics.mean_allocation_byte_size, 0);
    assert_eq!(metrics.biggest_allocation, 0);
    assert_eq!(metrics.smallest_allocation, u64::MAX);
}

#[test]
fn mean_is_rounded_down_and_stays_between_extremes() {
    let mut metrics = Metrics::default();
    metrics.add_alloctation(&allocation_with_size(10));
    metrics.add_alloctation(&allocation_with_size(1));
    // (10 + 1) / 2 rounds down
    assert_eq!(metrics.mean_allocation_byte_size, 5);
    metrics.add_alloctation(&allocation_with_size(2));
    // (5 * 2 + 2) / 3
    assert_eq!(metrics.mean_allocation_byte_size, 4);
    assert!(metrics.smallest_allocation <= metrics.mean_allocation_byte_size);
    assert!(metrics.mean_allocation_byte_size <= metrics.biggest_allocation);
    metrics.remove_allocation();
    metrics.remove_allocation();
    assert_eq!(metrics.current_allocations, 1);
    assert_eq!(metrics.max_concurrent_allocations, 3);
}

#[test]
fn counters_that_would_overflow_are_detected() {
    let mut metrics = Metrics::default();
    metrics.measure_alloctaion(&allocation_with_size(u64::MAX));
    assert!(!metrics.can_measure_allocation(1));
    assert!(metrics.can_measure_allocation(0));
}
