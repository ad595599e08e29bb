//! Allocation counters, and an allocator decorator that keeps them.

use crate::allocation::{Allocation, MemoryAllocateInfo};
use crate::allocator::{answered_allocate, answered_free, DeviceAllocator};
use crate::error::AllocatorError;
use std::collections::HashMap;
use vstd::prelude::*;

verus! {

/// Counters describing the allocations made through an allocator.
#[derive(Clone, Copy, Debug, PartialEq, Eq, Structural)]
pub struct Metrics {
    pub total_allocations: u32,
    pub max_concurrent_allocations: u32,
    pub current_allocations: u32,
    pub mean_allocation_byte_size: u64,
    pub biggest_allocation: u64,
    pub smallest_allocation: u64,
}

impl Metrics {
    /// The counters before any allocation.
    pub open spec fn empty() -> Self {
        Metrics {
            total_allocations: 0,
            max_concurrent_allocations: 0,
            current_allocations: 0,
            mean_allocation_byte_size: 0,
            biggest_allocation: 0,
            smallest_allocation: u64::MAX,
        }
    }

    /// One more allocation of `byte_size` bytes can be counted without a
    /// counter leaving its integer type.
    pub open spec fn can_measure(self, byte_size: u64) -> bool {
        &&& self.current_allocations < u32::MAX
        &&& self.total_allocations < u32::MAX
        &&& self.mean_allocation_byte_size * self.total_allocations + byte_size <= u64::MAX
    }

    /// The counters after one more allocation of `byte_size` bytes: the mean
    /// is the weighted average of the old mean and the new size, rounded
    /// down.
    pub open spec fn after_allocation(self, byte_size: u64) -> Self {
        Metrics {
            current_allocations: (self.current_allocations + 1) as u32,
            mean_allocation_byte_size: ((self.mean_allocation_byte_size * self.total_allocations + byte_size)
                / (self.total_allocations + 1)) as u64,
            total_allocations: (self.total_allocations + 1) as u32,
            max_concurrent_allocations: if self.max_concurrent_allocations >= self.current_allocations + 1 {
                self.max_concurrent_allocations
            } else {
                (self.current_allocations + 1) as u32
            },
            biggest_allocation: if self.biggest_allocation >= byte_size {
                self.biggest_allocation
            } else {
                byte_size
            },
            smallest_allocation: if self.smallest_allocation <= byte_size {
                self.smallest_allocation
            } else {
                byte_size
            },
        }
    }

    /// The counters after one allocation is freed.
    pub open spec fn after_free(self) -> Self {
        Metrics { current_allocations: (self.current_allocations - 1) as u32, ..self }
    }

    /// The counters agree with each other: no more live allocations than the
    /// most ever live, no more than were ever made, and, once something was
    /// allocated, the mean lies between the smallest and the biggest.
    pub open spec fn consistent(self) -> bool {
        &&& self.current_allocations <= self.max_concurrent_allocations
        &&& self.max_concurrent_allocations <= self.total_allocations
        &&& self.total_allocations > 0 ==> self.smallest_allocation <= self.mean_allocation_byte_size
            <= self.biggest_allocation
    }

    /// Whether [`Self::measure_alloctaion`] may count an allocation of
    /// `byte_size` bytes.
    pub fn can_measure_allocation(&self, byte_size: u64) -> (b: bool)
        ensures
            b == self.can_measure(byte_size),
    {
        if self.current_allocations == u32::MAX || self.total_allocations == u32::MAX {
            return false;
        }
        match self.mean_allocation_byte_size.checked_mul(self.total_allocations as u64) {
            None => false,
            Some(weighted) => weighted <= u64::MAX - byte_size,
        }
    }

    /// Update counters within the metrics data structure in response to a new
    /// allocation being acquired.
    pub fn measure_alloctaion(&mut self, allocation: &Allocation)
        requires
            old(self).can_measure(allocation.byte_size),
        ensures
            *final(self) == old(self).after_allocation(allocation.byte_size),
            final(self).current_allocations == old(self).current_allocations + 1,
            final(self).total_allocations == old(self).total_allocations + 1,
            final(self).max_concurrent_allocations >= old(self).max_concurrent_allocations,
            final(self).max_concurrent_allocations >= final(self).current_allocations,
            final(self).max_concurrent_allocations == old(self).max_concurrent_allocations
                || final(self).max_concurrent_allocations == final(self).current_allocations,
            final(self).biggest_allocation >= old(self).biggest_allocation,
            final(self).biggest_allocation >= allocation.byte_size,
            final(self).biggest_allocation == old(self).biggest_allocation || final(self).biggest_allocation
                == allocation.byte_size,
            final(self).smallest_allocation <= old(self).smallest_allocation,
            final(self).smallest_allocation <= allocation.byte_size,
            final(self).smallest_allocation == old(self).smallest_allocation || final(self).smallest_allocation
                == allocation.byte_size,
            final(self).mean_allocation_byte_size * final(self).total_allocations
                <= old(self).mean_allocation_byte_size * old(self).total_allocations + allocation.byte_size
                < (final(self).mean_allocation_byte_size + 1) * final(self).total_allocations,
    {
        proof {
            let t = self.total_allocations as int;
            let v = self.mean_allocation_byte_size * self.total_allocations + allocation.byte_size;
            let q = v / (t + 1);
            assert(q * (t + 1) <= v < (q + 1) * (t + 1)) by (nonlinear_arith)
                requires
                    t >= 0,
                    v >= 0,
                    q == v / (t + 1),
            ;
        }
        self.current_allocations = self.current_allocations + 1;

        // weighted average of allocation sizes
        self.mean_allocation_byte_size = ((self.mean_allocation_byte_size * self.total_allocations as u64)
            + allocation.byte_size) / (self.total_allocations + 1) as u64;

        self.total_allocations = self.total_allocations + 1;

        if self.max_concurrent_allocations < self.current_allocations {
            self.max_concurrent_allocations = self.current_allocations;
        }
        if self.biggest_allocation < allocation.byte_size {
            self.biggest_allocation = allocation.byte_size;
        }
        if self.smallest_allocation > allocation.byte_size {
            self.smallest_allocation = allocation.byte_size;
        }
    }

    /// Same as [`Self::measure_alloctaion`].
    pub fn add_alloctation(&mut self, allocation: &Allocation)
        requires
            old(self).can_measure(allocation.byte_size),
        ensures
            *final(self) == old(self).after_allocation(allocation.byte_size),
    {
        self.measure_alloctaion(allocation)
    }

    /// Update counters within the metrics data structure in response to an
    /// allocation being freed.
    pub fn measure_free(&mut self)
        requires
            old(self).current_allocations > 0,
        ensures
            *final(self) == old(self).after_free(),
            final(self).current_allocations == old(self).current_allocations - 1,
            final(self).total_allocations == old(self).total_allocations,
            final(self).max_concurrent_allocations == old(self).max_concurrent_allocations,
    {
        self.current_allocations = self.current_allocations - 1;
    }

    /// Same as [`Self::measure_free`].
    pub fn remove_allocation(&mut self)
        requires
            old(self).current_allocations > 0,
        ensures
            *final(self) == old(self).after_free(),
    {
        self.measure_free()
    }
}

impl Default for Metrics {
    /// Create an empty metrics object with all counters set to zero or their
    /// reasonable defaults.
    fn default() -> (m: Self)
        ensures
            m == Metrics::empty(),
    {
        Metrics {
            total_allocations: 0,
            max_concurrent_allocations: 0,
            current_allocations: 0,
            mean_allocation_byte_size: 0,
            biggest_allocation: 0,
            smallest_allocation: u64::MAX,
        }
    }
}

/// Fresh counters agree with each other.
pub proof fn law_empty_metrics_are_consistent()
    ensures
        Metrics::empty().consistent(),
{
}

/// Counting an allocation keeps the counters in agreement; in particular the
/// running mean stays between the smallest and the biggest allocation.
pub proof fn law_allocation_keeps_metrics_consistent(m: Metrics, byte_size: u64)
    requires
        m.consistent(),
        m.can_measure(byte_size),
    ensures
        m.after_allocation(byte_size).consistent(),
{
    let n = m.after_allocation(byte_size);
    let t = m.total_allocations as int;
    let mean = m.mean_allocation_byte_size as int;
    let b = byte_size as int;
    let q = (mean * t + b) / (t + 1);
    if t > 0 {
        let lo = if mean <= b { mean } else { b };
        let hi = if mean >= b { mean } else { b };
        assert(lo * (t + 1) <= mean * t + b <= hi * (t + 1)) by (nonlinear_arith)
            requires
                lo <= mean,
                lo <= b,
                hi >= mean,
                hi >= b,
                t > 0,
        ;
        assert(lo <= q <= hi) by (nonlinear_arith)
            requires
                lo * (t + 1) <= mean * t + b <= hi * (t + 1),
                q == (mean * t + b) / (t + 1),
                t > 0,
        ;
        assert(n.mean_allocation_byte_size == q);
    } else {
        assert(mean * t == 0) by (nonlinear_arith)
            requires
                t == 0,
        ;
        assert((mean * t + b) / (t + 1) == b) by (nonlinear_arith)
            requires
                t == 0,
        ;
        assert(n.mean_allocation_byte_size == b);
    }
}

/// Counting a free keeps the counters in agreement.
pub proof fn law_free_keeps_metrics_consistent(m: Metrics)
    requires
        m.consistent(),
        m.current_allocations > 0,
    ensures
        m.after_free().consistent(),
{
}

/// The number of allocations live after the first `n` events of a history,
/// where `Some(size)` is an allocation of `size` bytes and `None` a free.
pub open spec fn live_after(events: Seq<Option<u64>>, n: int) -> int
    decreases n,
{
    if n <= 0 {
        0
    } else {
        live_after(events, n - 1) + if events[n - 1] is Some {
            1int
        } else {
            -1int
        }
    }
}

/// The number of allocations among the first `n` events of a history.
pub open spec fn allocations_in(events: Seq<Option<u64>>, n: int) -> int
    decreases n,
{
    if n <= 0 {
        0
    } else {
        allocations_in(events, n - 1) + if events[n - 1] is Some {
            1int
        } else {
            0int
        }
    }
}

/// The counters after counting the first `n` events of a history, starting
/// from fresh counters.
pub open spec fn counted(events: Seq<Option<u64>>, n: int) -> Metrics
    decreases n,
{
    if n <= 0 {
        Metrics::empty()
    } else {
        match events[n - 1] {
            Some(size) => counted(events, n - 1).after_allocation(size),
            None => counted(events, n - 1).after_free(),
        }
    }
}

/// Counting a history of allocations and frees, where no free comes while
/// nothing is live, gives the number of allocations made, the number live at
/// the end, and as the most concurrent allocations the largest number live
/// at any moment of the history.
pub proof fn law_counters_follow_the_history(events: Seq<Option<u64>>)
    requires
        events.len() < u32::MAX,
        forall|k: int| 0 <= k <= events.len() ==> live_after(events, k) >= 0,
    ensures
        counted(events, events.len() as int).total_allocations == allocations_in(events, events.len() as int),
        counted(events, events.len() as int).current_allocations == live_after(events, events.len() as int),
        forall|k: int|
            0 <= k <= events.len() ==> live_after(events, k) <= counted(
                events,
                events.len() as int,
            ).max_concurrent_allocations,
        exists|k: int|
            0 <= k <= events.len() && live_after(events, k) == counted(
                events,
                events.len() as int,
            ).max_concurrent_allocations,
{
    lemma_counted_prefix(events, events.len() as int);
}

proof fn lemma_counted_prefix(events: Seq<Option<u64>>, n: int)
    requires
        0 <= n <= events.len(),
        events.len() < u32::MAX,
        forall|k: int| 0 <= k <= events.len() ==> live_after(events, k) >= 0,
    ensures
        counted(events, n).total_allocations == allocations_in(events, n),
        counted(events, n).current_allocations == live_after(events, n),
        0 <= live_after(events, n) <= allocations_in(events, n) <= n,
        forall|k: int| 0 <= k <= n ==> live_after(events, k) <= counted(events, n).max_concurrent_allocations,
        exists|k: int| 0 <= k <= n && live_after(events, k) == counted(events, n).max_concurrent_allocations,
    decreases n,
{
    if n == 0 {
        assert(live_after(events, 0) == counted(events, 0).max_concurrent_allocations);
    } else {
        lemma_counted_prefix(events, n - 1);
        let before = counted(events, n - 1);
        let k0 = choose|k: int| 0 <= k <= n - 1 && live_after(events, k) == before.max_concurrent_allocations;
        assert(live_after(events, n) >= 0);
        if events[n - 1] is Some {
            let after = counted(events, n);
            if before.max_concurrent_allocations >= before.current_allocations + 1 {
                assert(live_after(events, k0) == after.max_concurrent_allocations);
            } else {
                assert(live_after(events, n) == after.max_concurrent_allocations);
            }
        } else {
            assert(live_after(events, k0) == counted(events, n).max_concurrent_allocations);
        }
    }
}

/// The counters after recording an allocation of `byte_size` bytes; counters
/// that would leave their integer type are left as they are.
pub open spec fn recorded(m: Metrics, byte_size: u64) -> Metrics {
    if m.can_measure(byte_size) {
        m.after_allocation(byte_size)
    } else {
        m
    }
}

/// The counters after recording a free; nothing changes when no allocation
/// is live.
pub open spec fn recorded_free(m: Metrics) -> Metrics {
    if m.current_allocations > 0 {
        m.after_free()
    } else {
        m
    }
}

/// The counters of memory type `t`: fresh counters for a type not seen yet.
pub open spec fn type_metrics(by_type: Map<u32, Metrics>, t: u32) -> Metrics {
    if by_type.contains_key(t) {
        by_type[t]
    } else {
        Metrics::empty()
    }
}

/// The per-type counters after recording an allocation of `byte_size` bytes
/// from memory type `t`.
pub open spec fn recorded_by_type(by_type: Map<u32, Metrics>, t: u32, byte_size: u64) -> Map<u32, Metrics> {
    by_type.insert(t, recorded(type_metrics(by_type, t), byte_size))
}

/// The per-type counters after recording a free from memory type `t`; a type
/// never allocated from is not counted.
pub open spec fn recorded_free_by_type(by_type: Map<u32, Metrics>, t: u32) -> Map<u32, Metrics> {
    if by_type.contains_key(t) {
        by_type.insert(t, recorded_free(by_type[t]))
    } else {
        by_type
    }
}

/// A device allocator decorator which records the number of allocations and
/// other metrics, in total and per memory type.
pub struct MetricsAllocator<A: DeviceAllocator> {
    allocator: A,
    name: String,
    by_type: HashMap<u32, Metrics>,
    total: Metrics,
    request_log: Ghost<Seq<MemoryAllocateInfo>>,
    free_log: Ghost<Seq<Allocation>>,
    allocate_answer_log: Ghost<Seq<Result<Allocation, AllocatorError>>>,
    free_answer_log: Ghost<Seq<Result<(), AllocatorError>>>,
}

impl<A: DeviceAllocator> MetricsAllocator<A> {
    pub closed spec fn inner(self) -> A {
        self.allocator
    }

    pub closed spec fn total_spec(self) -> Metrics {
        self.total
    }

    pub closed spec fn by_type_spec(self) -> Map<u32, Metrics> {
        self.by_type@
    }

    pub closed spec fn name_spec(self) -> Seq<char> {
        self.name@
    }

    /// Decorate an existing allocator with support for metrics.
    pub fn new(name: String, allocator: A) -> (m: Self)
        ensures
            m.inner() == allocator,
            m.name_spec() == name@,
            m.total_spec() == Metrics::empty(),
            m.by_type_spec() == Map::<u32, Metrics>::empty(),
    {
        MetricsAllocator {
            name,
            allocator,
            by_type: HashMap::new(),
            total: Metrics::default(),
            request_log: Ghost(Seq::empty()),
            allocate_answer_log: Ghost(Seq::empty()),
            free_answer_log: Ghost(Seq::empty()),
            free_log: Ghost(Seq::empty()),
        }
    }

    /// The allocator's name, used as the report's title.
    pub fn name(&self) -> (n: &String)
        ensures
            n@ == self.name_spec(),
    {
        &self.name
    }

    /// The counters over all memory types.
    pub fn total(&self) -> (m: Metrics)
        ensures
            m == self.total_spec(),
    {
        self.total
    }

    /// The counters of each memory type that was allocated from.
    pub fn metrics_by_type(&self) -> (m: &HashMap<u32, Metrics>)
        ensures
            m@ == self.by_type_spec(),
    {
        &self.by_type
    }

    /// Count a new allocation, in total and for its memory type.
    fn record_allocation(&mut self, allocation: &Allocation)
        ensures
            final(self).inner() == old(self).inner(),
            final(self).name_spec() == old(self).name_spec(),
            final(self).request_log == old(self).request_log,
            final(self).free_log == old(self).free_log,
            final(self).allocate_answer_log == old(self).allocate_answer_log,
            final(self).free_answer_log == old(self).free_answer_log,
            final(self).total_spec() == recorded(old(self).total_spec(), allocation.byte_size),
            final(self).by_type_spec() == recorded_by_type(
                old(self).by_type_spec(),
                allocation.memory_type_index,
                allocation.byte_size,
            ),
    {
        broadcast use vstd::std_specs::hash::group_hash_axioms;

        if self.total.can_measure_allocation(allocation.byte_size) {
            self.total.measure_alloctaion(allocation);
        }
        let mut entry = match self.by_type.get(&allocation.memory_type_index) {
            Some(m) => *m,
            None => Metrics::default(),
        };
        if entry.can_measure_allocation(allocation.byte_size) {
            entry.measure_alloctaion(allocation);
        }
        self.by_type.insert(allocation.memory_type_index, entry);
    }

    /// Count a freed allocation, in total and for its memory type. Freeing
    /// the null allocation, or an allocation when no allocation is live, is
    /// not counted.
    fn record_free(&mut self, allocation: &Allocation)
        ensures
            final(self).inner() == old(self).inner(),
            final(self).name_spec() == old(self).name_spec(),
            final(self).request_log == old(self).request_log,
            final(self).free_log == old(self).free_log,
            final(self).allocate_answer_log == old(self).allocate_answer_log,
            final(self).free_answer_log == old(self).free_answer_log,
            allocation.memory == 0 ==> final(self).total_spec() == old(self).total_spec()
                && final(self).by_type_spec() == old(self).by_type_spec(),
            allocation.memory != 0 ==> final(self).total_spec() == recorded_free(old(self).total_spec()),
            allocation.memory != 0 ==> final(self).by_type_spec() == recorded_free_by_type(
                old(self).by_type_spec(),
                allocation.memory_type_index,
            ),
    {
        broadcast use vstd::std_specs::hash::group_hash_axioms;

        if allocation.is_null() {
            return;
        }
        if self.total.current_allocations > 0 {
            self.total.measure_free();
        }
        let found = match self.by_type.get(&allocation.memory_type_index) {
            Some(m) => Some(*m),
            None => None,
        };
        if let Some(m) = found {
            let mut entry = m;
            if entry.current_allocations > 0 {
                entry.measure_free();
            }
            self.by_type.insert(allocation.memory_type_index, entry);
        }
    }
}

impl<A: DeviceAllocator> DeviceAllocator for MetricsAllocator<A> {
    open spec fn keeps_call_record(&self) -> bool {
        true
    }

    closed spec fn requests(&self) -> Seq<MemoryAllocateInfo> {
        self.request_log@
    }

    closed spec fn frees(&self) -> Seq<Allocation> {
        self.free_log@
    }

    closed spec fn allocate_answers(&self) -> Seq<Result<Allocation, AllocatorError>> {
        self.allocate_answer_log@
    }

    closed spec fn free_answers(&self) -> Seq<Result<(), AllocatorError>> {
        self.free_answer_log@
    }

    /// Allocate with the decorated allocator and count the allocation when it
    /// succeeds.
    fn allocate(&mut self, allocate_info: MemoryAllocateInfo) -> (res: Result<Allocation, AllocatorError>)
        ensures
            final(self).name_spec() == old(self).name_spec(),
            res is Err ==> final(self).total_spec() == old(self).total_spec()
                && final(self).by_type_spec() == old(self).by_type_spec(),
            res matches Ok(a) ==> final(self).total_spec() == recorded(old(self).total_spec(), a.byte_size),
            res matches Ok(a) ==> final(self).by_type_spec() == recorded_by_type(
                old(self).by_type_spec(),
                a.memory_type_index,
                a.byte_size,
            ),
            answered_allocate(old(self).inner(), final(self).inner(), allocate_info, res),
    {
        self.request_log = Ghost(self.request_log@.push(allocate_info));
        let res = self.allocator.allocate(allocate_info);
        if let Ok(allocation) = res {
            self.record_allocation(&allocation);
        }
        self.allocate_answer_log = Ghost(self.allocate_answer_log@.push(res));
        res
    }

    /// Count the free, then free with the decorated allocator.
    fn free(&mut self, allocation: &Allocation) -> (res: Result<(), AllocatorError>)
        ensures
            final(self).name_spec() == old(self).name_spec(),
            allocation.memory != 0 ==> final(self).total_spec() == recorded_free(old(self).total_spec()),
            allocation.memory == 0 ==> final(self).total_spec() == old(self).total_spec()
                && final(self).by_type_spec() == old(self).by_type_spec(),
            allocation.memory != 0 ==> final(self).by_type_spec() == recorded_free_by_type(
                old(self).by_type_spec(),
                allocation.memory_type_index,
            ),
            answered_free(old(self).inner(), final(self).inner(), *allocation, res),
    {
        self.free_log = Ghost(self.free_log@.push(*allocation));
        self.record_free(allocation);
        let res = self.allocator.free(allocation);
        self.free_answer_log = Ghost(self.free_answer_log@.push(res));
        res
    }
}

} // verus!
