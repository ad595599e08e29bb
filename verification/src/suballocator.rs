//! Divide one block of device memory into many non-overlapping pieces.

use crate::allocation::{Allocation, MemoryAllocateInfo};
use crate::allocator::{answered_free, DeviceAllocator};
use crate::error::AllocatorError;
use crate::region::{MergeResult, Region};
use vstd::prelude::*;

verus! {

/// A free list is well formed when every region's end fits in a `u64` and the
/// regions are sorted by offset with a gap of at least one byte between
/// neighbours (so no two free regions overlap or touch).
pub open spec fn free_list_wf(s: Seq<Region>) -> bool {
    &&& forall|i: int| 0 <= i < s.len() ==> (#[trigger] s[i]).fits()
    &&& forall|i: int, j: int| 0 <= i < j < s.len() ==> (#[trigger] s[i]).end_int() < (#[trigger] s[j]).offset
}

/// Freeing `r` would hand back bytes that are already free: `r` overlaps a
/// free region, or equals one.
pub open spec fn conflicts(s: Seq<Region>, r: Region) -> bool {
    exists|i: int| 0 <= i < s.len() && (s[i] == r || (#[trigger] s[i]).overlaps(r))
}

/// The byte offsets covered by a list of regions.
pub open spec fn covered(s: Seq<Region>) -> Set<int>
    decreases s.len(),
{
    if s.len() == 0 {
        Set::empty()
    } else {
        s[0].bytes().union(covered(s.skip(1)))
    }
}

/// The free list after `r` is returned to it: `r` is merged with the first
/// free region it touches (and, when the merged region then touches the next
/// free region, with that one too); otherwise it is inserted before the first
/// free region that starts after it ends.
pub open spec fn insert_free(s: Seq<Region>, r: Region) -> Seq<Region>
    decreases s.len(),
{
    if s.len() == 0 {
        seq![r]
    } else if r.touches(s[0]) {
        let m = r.union_with(s[0]);
        if s.len() > 1 && m.end_int() == s[1].offset {
            seq![m.union_with(s[1])] + s.skip(2)
        } else {
            seq![m] + s.skip(1)
        }
    } else if r.end_int() < s[0].offset {
        seq![r] + s
    } else {
        seq![s[0]] + insert_free(s.skip(1), r)
    }
}

/// `i` is the first free region large enough for a request of `size` bytes.
pub open spec fn first_fit_at(s: Seq<Region>, size: u64, i: int) -> bool {
    &&& 0 <= i < s.len()
    &&& size <= s[i].size
    &&& forall|j: int| 0 <= j < i ==> (#[trigger] s[j]).size < size
}

/// The free list after `size` bytes are taken from the front of free region
/// `i`: the region disappears when it is used up, else it shrinks.
pub open spec fn take_front(s: Seq<Region>, size: u64, i: int) -> Seq<Region> {
    if s[i].size == size {
        s.remove(i)
    } else {
        s.update(i, Region { offset: (s[i].offset + size) as u64, size: (s[i].size - size) as u64 })
    }
}

/// A suballocator can divvy up a single allocation into multiple
/// non-overlapping allocations.
pub struct Suballocator {
    block: Allocation,
    free_regions: Vec<Region>,
    request_log: Ghost<Seq<MemoryAllocateInfo>>,
    free_log: Ghost<Seq<Allocation>>,
    allocate_answer_log: Ghost<Seq<Result<Allocation, AllocatorError>>>,
    free_answer_log: Ghost<Seq<Result<(), AllocatorError>>>,
}

impl View for Suballocator {
    type V = Seq<Region>;

    /// The free regions, in order.
    closed spec fn view(&self) -> Seq<Region> {
        self.free_regions@
    }
}

impl Suballocator {
    #[verifier::type_invariant]
    spec fn inv(self) -> bool {
        free_list_wf(self.free_regions@)
    }

    /// The block of memory this suballocator divides.
    pub closed spec fn block_spec(self) -> Allocation {
        self.block
    }

    /// Start managing the given block: its whole range is free. Free regions
    /// are offsets within the block, so the one free region starts at zero.
    pub fn new(allocation: Allocation) -> (s: Self)
        ensures
            s@ == seq![Region { offset: 0, size: allocation.byte_size }],
            s.block_spec() == allocation,
    {
        let mut free_regions: Vec<Region> = Vec::new();
        free_regions.push(Region::new(0, allocation.byte_size));
        Suballocator {
            free_regions,
            block: allocation,
            request_log: Ghost(Seq::empty()),
            allocate_answer_log: Ghost(Seq::empty()),
            free_answer_log: Ghost(Seq::empty()),
            free_log: Ghost(Seq::empty()),
        }
    }

    /// The free regions, in order.
    pub fn free_regions(&self) -> (r: &Vec<Region>)
        ensures
            r@ == self@,
            free_list_wf(r@),
    {
        proof {
            use_type_invariant(self);
        }
        &self.free_regions
    }

    /// The block of memory this suballocator divides.
    pub fn block(&self) -> (b: &Allocation)
        ensures
            *b == self.block_spec(),
    {
        &self.block
    }

    /// Find and take a region with the requested size from the free regions.
    ///
    /// If no region is large enough, or no regions are remaining, then None is
    /// returned.
    pub fn allocate_region(&mut self, size: u64) -> (r: Option<Region>)
        ensures
            final(self).block_spec() == old(self).block_spec(),
            final(self).requests() == old(self).requests(),
            final(self).frees() == old(self).frees(),
            final(self).allocate_answers() == old(self).allocate_answers(),
            final(self).free_answers() == old(self).free_answers(),
            free_list_wf(final(self)@),
            match r {
                None => final(self)@ == old(self)@ && forall|j: int|
                    0 <= j < old(self)@.len() ==> (#[trigger] old(self)@[j]).size < size,
                Some(region) => exists|i: int|
                    first_fit_at(old(self)@, size, i) && region == (Region {
                        offset: old(self)@[i].offset,
                        size,
                    }) && final(self)@ == take_front(old(self)@, size, i),
            },
    {
        proof {
            use_type_invariant(&*self);
        }
        let mut regions: Vec<Region> = Vec::new();
        std::mem::swap(&mut regions, &mut self.free_regions);
        let ghost before = regions@;
        let r = take_first_fit(&mut regions, size);
        self.free_regions = regions;
        assert(before == old(self)@);
        r
    }

    /// Free a subregion back into the set of free regions.
    /// Regions are automatically joined to minimize fragmentation.
    ///
    /// Freeing a region that overlaps (or equals) a free region is refused as
    /// a double free, and the free regions are left as they were.
    pub fn free_region(&mut self, region: Region) -> (res: Result<(), AllocatorError>)
        requires
            region.fits(),
        ensures
            final(self).block_spec() == old(self).block_spec(),
            final(self).requests() == old(self).requests(),
            final(self).frees() == old(self).frees(),
            final(self).allocate_answers() == old(self).allocate_answers(),
            final(self).free_answers() == old(self).free_answers(),
            free_list_wf(final(self)@),
            res is Err <==> conflicts(old(self)@, region),
            res is Err ==> res == Err::<(), AllocatorError>(AllocatorError::DoubleFree) && final(self)@ == old(self)@,
            res is Ok ==> final(self)@ == insert_free(old(self)@, region),
    {
        proof {
            use_type_invariant(&*self);
        }
        let mut regions: Vec<Region> = Vec::new();
        std::mem::swap(&mut regions, &mut self.free_regions);
        let ghost before = regions@;
        let res = return_region(&mut regions, region);
        self.free_regions = regions;
        assert(before == old(self)@);
        res
    }

    /// The whole block is free again: one free region, starting at offset
    /// zero, as large as the block.
    pub open spec fn is_empty_spec(self) -> bool {
        &&& self@.len() == 1
        &&& self@[0].offset == 0
        &&& self@[0].size == self.block_spec().byte_size
    }

    /// Returns true when the whole block is free again: a single free region
    /// at offset zero spanning the block.
    pub fn is_empty(&self) -> (b: bool)
        ensures
            b == self.is_empty_spec(),
    {
        self.free_regions.len() == 1 && self.free_regions[0].offset == 0 && self.free_regions[0].size
            == self.block.byte_size
    }

    /// Give the whole block back to the allocator it came from. On success
    /// the suballocator's block becomes the null allocation.
    pub fn free_block<A: DeviceAllocator>(&mut self, allocator: &mut A) -> (res: Result<(), AllocatorError>)
        ensures
            final(self)@ == old(self)@,
            res is Ok ==> final(self).block_spec() == Allocation::null_spec(),
            res is Err ==> final(self).block_spec() == old(self).block_spec(),
            final(self).requests() == old(self).requests(),
            final(self).frees() == old(self).frees(),
            final(self).allocate_answers() == old(self).allocate_answers(),
            final(self).free_answers() == old(self).free_answers(),
            answered_free(*old(allocator), *final(allocator), old(self).block_spec(), res),
    {
        proof {
            use_type_invariant(&*self);
        }
        allocator.free(&self.block)?;
        self.block = Allocation::null();
        Ok(())
    }
}

/// First-fit search over a free list, see [`Suballocator::allocate_region`].
fn take_first_fit(regions: &mut Vec<Region>, size: u64) -> (r: Option<Region>)
    requires
        free_list_wf(old(regions)@),
    ensures
        free_list_wf(final(regions)@),
        match r {
            None => final(regions)@ == old(regions)@ && forall|j: int|
                0 <= j < old(regions)@.len() ==> (#[trigger] old(regions)@[j]).size < size,
            Some(region) => exists|i: int|
                first_fit_at(old(regions)@, size, i) && region == (Region {
                    offset: old(regions)@[i].offset,
                    size,
                }) && final(regions)@ == take_front(old(regions)@, size, i),
        },
{
    let n = regions.len();
    let mut i: usize = 0;
    while i < n
        invariant
            regions@ == old(regions)@,
            n == regions@.len(),
            i <= n,
            free_list_wf(regions@),
            forall|j: int| 0 <= j < i ==> (#[trigger] regions@[j]).size < size,
        decreases n - i,
    {
        let current = regions[i];
        if size == current.size {
            let removed = regions.remove(i);
            proof {
                assert(first_fit_at(old(regions)@, size, i as int));
                let s = old(regions)@;
                let t = regions@;
                assert forall|a: int, b: int| 0 <= a < b < t.len() implies (#[trigger] t[a]).end_int()
                    < (#[trigger] t[b]).offset by {
                    let a2 = if a < i { a } else { a + 1 };
                    let b2 = if b < i { b } else { b + 1 };
                    assert(t[a] == s[a2]);
                    assert(t[b] == s[b2]);
                }
                assert forall|a: int| 0 <= a < t.len() implies (#[trigger] t[a]).fits() by {
                    let a2 = if a < i { a } else { a + 1 };
                    assert(t[a] == s[a2]);
                }
            }
            return Some(removed);
        } else if size < current.size {
            let mut shrunk = current;
            let taken = shrunk.take_subregion(size);
            regions.set(i, shrunk);
            proof {
                assert(first_fit_at(old(regions)@, size, i as int));
                let s = old(regions)@;
                let t = regions@;
                assert forall|a: int, b: int| 0 <= a < b < t.len() implies (#[trigger] t[a]).end_int()
                    < (#[trigger] t[b]).offset by {
                    assert(s[a].end_int() < s[b].offset);
                }
                assert forall|a: int| 0 <= a < t.len() implies (#[trigger] t[a]).fits() by {
                    assert(s[a].fits());
                }
            }
            return Some(taken);
        }
        i = i + 1;
    }
    None
}

} // verus!

verus! {

/// Put `region` back into a free list, see [`Suballocator::free_region`].
fn return_region(regions: &mut Vec<Region>, region: Region) -> (res: Result<(), AllocatorError>)
    requires
        free_list_wf(old(regions)@),
        region.fits(),
    ensures
        free_list_wf(final(regions)@),
        res is Err <==> conflicts(old(regions)@, region),
        res is Err ==> res == Err::<(), AllocatorError>(AllocatorError::DoubleFree) && final(regions)@ == old(regions)@,
        res is Ok ==> final(regions)@ == insert_free(old(regions)@, region),
{
    let ghost s = regions@;
    let n = regions.len();
    let mut i: usize = 0;
    while i < n
        invariant
            regions@ == s,
            s == old(regions)@,
            n == s.len(),
            i <= n,
            free_list_wf(s),
            region.fits(),
            forall|j: int| 0 <= j < i ==> (#[trigger] s[j]).end_int() < region.offset,
        decreases n - i,
    {
        let current = regions[i];
        if current == region || current.is_overlapping(&region) {
            assert(s[i as int] == region || s[i as int].overlaps(region));
            return Err(AllocatorError::DoubleFree);
        }
        if let MergeResult::Contiguous(merged) = region.merge(&current) {
            proof {
                lemma_insert_free_skip(s, region, i as int);
            }
            let mut to_insert = merged;
            if i + 1 < n {
                let next = regions[i + 1];
                if let MergeResult::Contiguous(merged_next) = to_insert.merge(&next) {
                    to_insert = merged_next;
                    regions.remove(i + 1);
                } else if region.is_overlapping(&next) {
                    assert(s[i + 1].overlaps(region));
                    return Err(AllocatorError::DoubleFree);
                }
            }
            regions.set(i, to_insert);
            proof {
                assert(!conflicts(s, region)) by {
                    assert forall|j: int| 0 <= j < s.len() implies !(s[j] == region || (#[trigger] s[j]).overlaps(region)) by {
                        if j < i {
                        } else if j == i {
                        } else {
                            assert(s[i as int].end_int() < s[j].offset);
                            if j > i + 1 {
                                assert(s[i + 1].end_int() < s[j].offset);
                            }
                        }
                    }
                }
                let t = s.skip(i as int);
                assert(t[0] == s[i as int]);
                if i + 1 < n {
                    assert(t[1] == s[i + 1]);
                    assert(s.take(i as int) + insert_free(t, region) =~= regions@);
                } else {
                    assert(s.take(i as int) + insert_free(t, region) =~= regions@);
                }
                lemma_insert_free_wf(s, region);
            }
            return Ok(());
        }
        if region.end() < current.start() {
            regions.insert(i, region);
            proof {
                lemma_insert_free_skip(s, region, i as int);
                let t = s.skip(i as int);
                assert(t[0] == s[i as int]);
                assert(!conflicts(s, region)) by {
                    assert forall|j: int| 0 <= j < s.len() implies !(s[j] == region || (#[trigger] s[j]).overlaps(region)) by {
                        if j > i {
                            assert(s[i as int].end_int() < s[j].offset);
                        }
                    }
                }
                assert(s.take(i as int) + insert_free(t, region) =~= regions@);
                lemma_insert_free_wf(s, region);
            }
            return Ok(());
        }
        i = i + 1;
    }
    regions.push(region);
    proof {
        lemma_insert_free_skip(s, region, n as int);
        assert(s.skip(n as int) =~= Seq::<Region>::empty());
        assert(s.take(n as int) + insert_free(s.skip(n as int), region) =~= regions@);
        lemma_insert_free_wf(s, region);
    }
    Ok(())
}

/// Regions that end before `r` starts are kept unchanged, in front of where
/// `r` goes.
proof fn lemma_insert_free_skip(s: Seq<Region>, r: Region, i: int)
    requires
        0 <= i <= s.len(),
        forall|j: int| 0 <= j < i ==> (#[trigger] s[j]).end_int() < r.offset,
    ensures
        insert_free(s, r) == s.take(i) + insert_free(s.skip(i), r),
    decreases i,
{
    if i == 0 {
        assert(s.skip(0) =~= s);
        assert(s.take(0) + insert_free(s, r) =~= insert_free(s, r));
    } else {
        let t = s.skip(1);
        assert forall|j: int| 0 <= j < i - 1 implies (#[trigger] t[j]).end_int() < r.offset by {
            assert(t[j] == s[j + 1]);
        }
        lemma_insert_free_skip(t, r, i - 1);
        assert(s[0].end_int() < r.offset);
        assert(t.skip(i - 1) =~= s.skip(i));
        assert(seq![s[0]] + t.take(i - 1) =~= s.take(i));
        assert(insert_free(s, r) == seq![s[0]] + insert_free(t, r));
        assert(seq![s[0]] + (t.take(i - 1) + insert_free(t.skip(i - 1), r)) =~= s.take(i) + insert_free(s.skip(i), r));
    }
}

/// Returning a region that does not conflict with the free list keeps the
/// list well formed; the first region then starts at the lower of the two
/// starts.
proof fn lemma_insert_free_wf(s: Seq<Region>, r: Region)
    requires
        free_list_wf(s),
        !conflicts(s, r),
        r.fits(),
    ensures
        free_list_wf(insert_free(s, r)),
        insert_free(s, r).len() > 0,
        insert_free(s, r)[0].offset == (if s.len() > 0 && s[0].offset < r.offset { s[0].offset } else { r.offset }),
    decreases s.len(),
{
    if s.len() == 0 {
        return;
    }
    let s0 = s[0];
    assert(s0.fits());
    assert(!(s0 == r || s0.overlaps(r)));
    if r.touches(s0) {
        let m = r.union_with(s0);
        assert(m.fits());
        assert(m.offset == (if s0.offset < r.offset { s0.offset } else { r.offset }));
        if s.len() > 1 && m.end_int() == s[1].offset {
            let s1 = s[1];
            let m2 = m.union_with(s1);
            assert(s1.fits());
            assert(s0.end_int() < s1.offset);
            assert(m2.offset == m.offset);
            assert(m2.end_int() == s1.end_int());
            let u = insert_free(s, r);
            assert(u == seq![m2] + s.skip(2));
            assert forall|a: int, b: int| 0 <= a < b < u.len() implies (#[trigger] u[a]).end_int()
                < (#[trigger] u[b]).offset by {
                if a == 0 {
                    assert(u[b] == s[b + 1]);
                    assert(s[1].end_int() < s[b + 1].offset);
                } else {
                    assert(u[a] == s[a + 1]);
                    assert(u[b] == s[b + 1]);
                }
            }
            assert forall|a: int| 0 <= a < u.len() implies (#[trigger] u[a]).fits() by {
                if a > 0 {
                    assert(u[a] == s[a + 1]);
                }
            }
        } else {
            let u = insert_free(s, r);
            assert(u == seq![m] + s.skip(1));
            if s.len() > 1 {
                let s1 = s[1];
                assert(s0.end_int() < s1.offset);
                assert(!(s1 == r || s1.overlaps(r)));
                assert(m.end_int() < s1.offset);
            }
            assert forall|a: int, b: int| 0 <= a < b < u.len() implies (#[trigger] u[a]).end_int()
                < (#[trigger] u[b]).offset by {
                assert(u[b] == s[b]);
                if a == 0 {
                    if b > 1 {
                        assert(s[1].end_int() < s[b].offset);
                    }
                } else {
                    assert(u[a] == s[a]);
                }
            }
            assert forall|a: int| 0 <= a < u.len() implies (#[trigger] u[a]).fits() by {
                if a > 0 {
                    assert(u[a] == s[a]);
                }
            }
        }
    } else if r.end_int() < s0.offset {
        let u = insert_free(s, r);
        assert(u == seq![r] + s);
        assert forall|a: int, b: int| 0 <= a < b < u.len() implies (#[trigger] u[a]).end_int()
            < (#[trigger] u[b]).offset by {
            assert(u[b] == s[b - 1]);
            if a == 0 {
                if b > 1 {
                    assert(s[0].end_int() < s[b - 1].offset);
                }
            } else {
                assert(u[a] == s[a - 1]);
            }
        }
        assert forall|a: int| 0 <= a < u.len() implies (#[trigger] u[a]).fits() by {
            if a > 0 {
                assert(u[a] == s[a - 1]);
            }
        }
    } else {
        assert(s0.end_int() < r.offset);
        let t = s.skip(1);
        assert forall|a: int, b: int| 0 <= a < b < t.len() implies (#[trigger] t[a]).end_int()
            < (#[trigger] t[b]).offset by {
            assert(t[a] == s[a + 1]);
            assert(t[b] == s[b + 1]);
        }
        assert forall|a: int| 0 <= a < t.len() implies (#[trigger] t[a]).fits() by {
            assert(t[a] == s[a + 1]);
        }
        assert(!conflicts(t, r)) by {
            assert forall|a: int| 0 <= a < t.len() implies !(t[a] == r || (#[trigger] t[a]).overlaps(r)) by {
                assert(t[a] == s[a + 1]);
            }
        }
        lemma_insert_free_wf(t, r);
        let v = insert_free(t, r);
        if t.len() > 0 {
            assert(s0.end_int() < s[1].offset);
        }
        assert(v[0].offset > s0.end_int());
        let u = insert_free(s, r);
        assert(u == seq![s0] + v);
        assert forall|a: int, b: int| 0 <= a < b < u.len() implies (#[trigger] u[a]).end_int()
            < (#[trigger] u[b]).offset by {
            assert(u[b] == v[b - 1]);
            if a == 0 {
                if b > 1 {
                    assert(v[0].end_int() < v[b - 1].offset);
                }
            } else {
                assert(u[a] == v[a - 1]);
            }
        }
        assert forall|a: int| 0 <= a < u.len() implies (#[trigger] u[a]).fits() by {
            if a > 0 {
                assert(u[a] == v[a - 1]);
            }
        }
    }
}

} // verus!

verus! {

/// A byte is covered by a list of regions exactly when some region of the
/// list holds it.
pub proof fn lemma_covered_contains(s: Seq<Region>, x: int)
    ensures
        covered(s).contains(x) <==> exists|k: int| 0 <= k < s.len() && (#[trigger] s[k]).bytes().contains(x),
    decreases s.len(),
{
    if s.len() > 0 {
        let t = s.skip(1);
        lemma_covered_contains(t, x);
        if covered(s).contains(x) {
            if !s[0].bytes().contains(x) {
                let k = choose|k: int| 0 <= k < t.len() && (#[trigger] t[k]).bytes().contains(x);
                assert(t[k] == s[k + 1]);
            }
        }
        if exists|k: int| 0 <= k < s.len() && (#[trigger] s[k]).bytes().contains(x) {
            let k = choose|k: int| 0 <= k < s.len() && (#[trigger] s[k]).bytes().contains(x);
            if k > 0 {
                assert(t[k - 1] == s[k]);
            }
        }
    }
}

/// The bytes covered by a region put in front of a list.
proof fn lemma_covered_cons(r: Region, t: Seq<Region>)
    ensures
        covered(seq![r] + t) == r.bytes().union(covered(t)),
{
    let u = seq![r] + t;
    assert(u.skip(1) =~= t);
    assert(u[0] == r);
}

/// Returning a region to the free list makes exactly its bytes free again,
/// on top of those that were free already.
pub proof fn law_free_region_adds_its_bytes(s: Seq<Region>, r: Region)
    requires
        free_list_wf(s),
        !conflicts(s, r),
        r.fits(),
    ensures
        covered(insert_free(s, r)) == covered(s).union(r.bytes()),
    decreases s.len(),
{
    if s.len() == 0 {
        lemma_covered_cons(r, s);
        assert(seq![r] + s =~= seq![r]);
        assert(covered(insert_free(s, r)) =~= covered(s).union(r.bytes()));
        return;
    }
    let s0 = s[0];
    assert(s0.fits());
    assert(!(s0 == r || s0.overlaps(r)));
    let t = s.skip(1);
    assert(covered(s) == s0.bytes().union(covered(t)));
    if r.touches(s0) {
        let m = r.union_with(s0);
        assert(m.bytes() =~= r.bytes().union(s0.bytes()));
        if s.len() > 1 && m.end_int() == s[1].offset {
            let s1 = s[1];
            assert(s1.fits());
            let m2 = m.union_with(s1);
            assert(m2.bytes() =~= m.bytes().union(s1.bytes()));
            assert(t.skip(1) =~= s.skip(2));
            assert(covered(t) == s1.bytes().union(covered(s.skip(2))));
            lemma_covered_cons(m2, s.skip(2));
            assert(covered(insert_free(s, r)) =~= covered(s).union(r.bytes()));
        } else {
            lemma_covered_cons(m, t);
            assert(covered(insert_free(s, r)) =~= covered(s).union(r.bytes()));
        }
    } else if r.end_int() < s0.offset {
        lemma_covered_cons(r, s);
        assert(covered(insert_free(s, r)) =~= covered(s).union(r.bytes()));
    } else {
        assert forall|a: int, b: int| 0 <= a < b < t.len() implies (#[trigger] t[a]).end_int()
            < (#[trigger] t[b]).offset by {
            assert(t[a] == s[a + 1]);
            assert(t[b] == s[b + 1]);
        }
        assert forall|a: int| 0 <= a < t.len() implies (#[trigger] t[a]).fits() by {
            assert(t[a] == s[a + 1]);
        }
        assert(!conflicts(t, r)) by {
            assert forall|a: int| 0 <= a < t.len() implies !(t[a] == r || (#[trigger] t[a]).overlaps(r)) by {
                assert(t[a] == s[a + 1]);
            }
        }
        law_free_region_adds_its_bytes(t, r);
        lemma_covered_cons(s0, insert_free(t, r));
        assert(covered(insert_free(s, r)) =~= covered(s).union(r.bytes()));
    }
}

/// The region that `allocate_region` hands out was free, and afterwards
/// exactly its bytes are no longer free.
pub proof fn law_allocate_region_takes_its_bytes(s: Seq<Region>, size: u64, i: int)
    requires
        free_list_wf(s),
        first_fit_at(s, size, i),
    ensures
        (Region { offset: s[i].offset, size }).bytes().subset_of(covered(s)),
        covered(take_front(s, size, i)) == covered(s).difference((Region { offset: s[i].offset, size }).bytes()),
{
    let r = Region { offset: s[i].offset, size };
    let u = take_front(s, size, i);
    assert forall|x: int| r.bytes().contains(x) implies covered(s).contains(x) by {
        lemma_covered_contains(s, x);
        assert(s[i].bytes().contains(x));
    }
    assert forall|x: int| covered(u).contains(x) <==> covered(s).difference(r.bytes()).contains(x) by {
        lemma_covered_contains(s, x);
        lemma_covered_contains(u, x);
        if covered(u).contains(x) {
            let k = choose|k: int| 0 <= k < u.len() && (#[trigger] u[k]).bytes().contains(x);
            if s[i].size == size {
                let k2 = if k < i { k } else { k + 1 };
                assert(u[k] == s[k2]);
                if r.bytes().contains(x) {
                    if k2 < i {
                        assert(s[k2].end_int() < s[i].offset);
                    } else {
                        assert(s[i].end_int() < s[k2].offset);
                    }
                }
            } else {
                if k != i {
                    assert(u[k] == s[k]);
                    if r.bytes().contains(x) {
                        if k < i {
                            assert(s[k].end_int() < s[i].offset);
                        } else {
                            assert(s[i].end_int() < s[k].offset);
                        }
                    }
                }
                assert(s[k].bytes().contains(x));
            }
        }
        if covered(s).difference(r.bytes()).contains(x) {
            let k = choose|k: int| 0 <= k < s.len() && (#[trigger] s[k]).bytes().contains(x);
            if s[i].size == size {
                assert(k != i);
                let k2 = if k < i { k } else { k - 1 };
                assert(u[k2] == s[k]);
            } else {
                assert(u[k].bytes().contains(x));
            }
        }
    }
    assert(covered(u) =~= covered(s).difference(r.bytes()));
}

/// Freeing the region that `allocate_region` just handed out is accepted and
/// gives back exactly the free list from before the allocation.
pub proof fn law_free_region_undoes_allocate_region(s: Seq<Region>, size: u64, i: int)
    requires
        free_list_wf(s),
        first_fit_at(s, size, i),
    ensures
        (Region { offset: s[i].offset, size }).fits(),
        !conflicts(take_front(s, size, i), Region { offset: s[i].offset, size }),
        insert_free(take_front(s, size, i), Region { offset: s[i].offset, size }) == s,
{
    let r = Region { offset: s[i].offset, size };
    let u = take_front(s, size, i);
    assert(s[i].fits());
    assert forall|j: int| 0 <= j < i implies (#[trigger] u[j]).end_int() < r.offset by {
        assert(u[j] == s[j]);
        assert(s[j].end_int() < s[i].offset);
    }
    assert(!conflicts(u, r)) by {
        assert forall|j: int| 0 <= j < u.len() implies !(u[j] == r || (#[trigger] u[j]).overlaps(r)) by {
            if j < i {
                assert(u[j] == s[j]);
                assert(s[j].end_int() < s[i].offset);
            } else if s[i].size == size {
                assert(u[j] == s[j + 1]);
                assert(s[i].end_int() < s[j + 1].offset);
            } else if j > i {
                assert(u[j] == s[j]);
                assert(s[i].end_int() < s[j].offset);
            }
        }
    }
    lemma_insert_free_skip(u, r, i);
    let t = u.skip(i);
    if s[i].size == size {
        if i + 1 < s.len() {
            assert(t[0] == s[i + 1]);
            assert(s[i].end_int() < s[i + 1].offset);
            assert(t =~= s.skip(i + 1));
        } else {
            assert(t.len() == 0);
        }
        assert(u.take(i) + insert_free(t, r) =~= s);
    } else {
        assert(t[0] == u[i]);
        if i + 1 < s.len() {
            assert(t[1] == s[i + 1]);
            assert(s[i].end_int() < s[i + 1].offset);
        }
        assert(r.union_with(u[i]) == s[i]);
        assert(u.take(i) + insert_free(t, r) =~= s);
    }
}

/// Once a non-empty region has been returned to the free list, returning it
/// a second time is recognised as a double free.
pub proof fn law_second_free_is_refused(s: Seq<Region>, r: Region)
    requires
        free_list_wf(s),
        !conflicts(s, r),
        r.fits(),
        r.size > 0,
    ensures
        conflicts(insert_free(s, r), r),
{
    let u = insert_free(s, r);
    law_free_region_adds_its_bytes(s, r);
    assert(r.bytes().contains(r.offset as int));
    lemma_covered_contains(u, r.offset as int);
    let k = choose|k: int| 0 <= k < u.len() && (#[trigger] u[k]).bytes().contains(r.offset as int);
    assert(u[k].overlaps(r));
}

} // verus!

verus! {

/// The suballocator can serve the request: the memory type is the block's,
/// some free region is large enough, and the first such region's offset plus
/// the block's offset fits in a `u64`.
pub open spec fn can_serve(sub: Suballocator, allocate_info: MemoryAllocateInfo) -> bool {
    &&& allocate_info.memory_type_index == sub.block_spec().memory_type_index
    &&& exists|i: int|
        first_fit_at(sub@, allocate_info.allocation_size, i) && sub@[i].offset + sub.block_spec().offset
            <= u64::MAX
}

/// At most one free region is the first one large enough.
proof fn lemma_first_fit_unique(s: Seq<Region>, size: u64, i: int, k: int)
    requires
        first_fit_at(s, size, i),
        first_fit_at(s, size, k),
    ensures
        i == k,
{
    if i < k {
        assert(s[i].size < size);
    } else if k < i {
        assert(s[k].size < size);
    }
}

impl Suballocator {
    /// Whether [`DeviceAllocator::allocate`] would serve the request from
    /// this block; nothing is taken.
    pub fn can_allocate(&self, allocate_info: MemoryAllocateInfo) -> (b: bool)
        ensures
            b == can_serve(*self, allocate_info),
    {
        if self.block.memory_type_index != allocate_info.memory_type_index {
            return false;
        }
        let size = allocate_info.allocation_size;
        let n = self.free_regions.len();
        let mut i: usize = 0;
        while i < n
            invariant
                n == self@.len(),
                i <= n,
                size == allocate_info.allocation_size,
                self.block.memory_type_index == allocate_info.memory_type_index,
                forall|j: int| 0 <= j < i ==> (#[trigger] self@[j]).size < size,
            decreases n - i,
        {
            if size <= self.free_regions[i].size {
                let fits = self.free_regions[i].offset <= u64::MAX - self.block.offset;
                proof {
                    assert(first_fit_at(self@, size, i as int));
                    assert forall|k: int| first_fit_at(self@, size, k) implies k == i by {
                        lemma_first_fit_unique(self@, size, i as int, k);
                    }
                }
                return fits;
            }
            i = i + 1;
        }
        false
    }

    /// Whether [`DeviceAllocator::free`] takes the allocation back: it does
    /// not start before the block, and its end, taken relative to the block,
    /// fits in a `u64`.
    pub fn accepts_allocation(&self, allocation: &Allocation) -> (b: bool)
        ensures
            b == (allocation.offset >= self.block_spec().offset && (allocation.offset - self.block_spec().offset)
                + allocation.byte_size <= u64::MAX),
    {
        allocation.offset >= self.block.offset && allocation.offset - self.block.offset <= u64::MAX
            - allocation.byte_size
    }

    /// The work of [`DeviceAllocator::allocate`], without recording the call.
    fn carve(&mut self, allocate_info: MemoryAllocateInfo) -> (res: Result<Allocation, AllocatorError>)
        ensures
            final(self).requests() == old(self).requests(),
            final(self).frees() == old(self).frees(),
            final(self).allocate_answers() == old(self).allocate_answers(),
            final(self).free_answers() == old(self).free_answers(),
            final(self).block_spec() == old(self).block_spec(),
            allocate_info.memory_type_index != old(self).block_spec().memory_type_index ==> res == Err::<
                Allocation,
                AllocatorError,
            >(AllocatorError::IncompatibleMemoryType),
            res is Err ==> final(self)@ == old(self)@,
            res is Ok <==> can_serve(*old(self), allocate_info),
            res == Err::<Allocation, AllocatorError>(AllocatorError::OutOfMemory) <==> (
            allocate_info.memory_type_index == old(self).block_spec().memory_type_index && forall|j: int|
                0 <= j < old(self)@.len() ==> (#[trigger] old(self)@[j]).size < allocate_info.allocation_size),
            res matches Ok(a) ==> exists|i: int|
                first_fit_at(old(self)@, allocate_info.allocation_size, i) && final(self)@ == take_front(
                    old(self)@,
                    allocate_info.allocation_size,
                    i,
                ) && a == (Allocation {
                    memory: old(self).block_spec().memory,
                    offset: (old(self)@[i].offset + old(self).block_spec().offset) as u64,
                    byte_size: allocate_info.allocation_size,
                    memory_type_index: allocate_info.memory_type_index,
                }),
    {
        proof {
            use_type_invariant(&*self);
        }
        if self.block.memory_type_index != allocate_info.memory_type_index {
            return Err(AllocatorError::IncompatibleMemoryType);
        }
        let ghost before = self@;
        match self.allocate_region(allocate_info.allocation_size) {
            None => Err(AllocatorError::OutOfMemory),
            Some(region) => {
                match region.offset.checked_add(self.block.offset) {
                    Some(offset) => Ok(
                        Allocation {
                            memory_type_index: self.block.memory_type_index,
                            memory: self.block.memory,
                            offset,
                            byte_size: region.size,
                        },
                    ),
                    None => {
                        proof {
                            let i = choose|i: int|
                                first_fit_at(before, allocate_info.allocation_size, i) && region == (Region {
                                    offset: before[i].offset,
                                    size: allocate_info.allocation_size,
                                }) && self@ == take_front(before, allocate_info.allocation_size, i);
                            law_free_region_undoes_allocate_region(before, allocate_info.allocation_size, i);
                            assert forall|k: int| first_fit_at(before, allocate_info.allocation_size, k) implies !(
                            before[k].offset + self.block.offset <= u64::MAX) by {
                                lemma_first_fit_unique(before, allocate_info.allocation_size, i, k);
                            }
                        }
                        let restored = self.free_region(region);
                        assert(restored is Ok);
                        Err(AllocatorError::Overflow)
                    },
                }
            },
        }
    }


    /// The work of [`DeviceAllocator::free`], without recording the call.
    fn give_back(&mut self, allocation: &Allocation) -> (res: Result<(), AllocatorError>)
        ensures
            final(self).requests() == old(self).requests(),
            final(self).frees() == old(self).frees(),
            final(self).allocate_answers() == old(self).allocate_answers(),
            final(self).free_answers() == old(self).free_answers(),
            final(self).block_spec() == old(self).block_spec(),
            ({
                let r = Region {
                    offset: (allocation.offset - old(self).block_spec().offset) as u64,
                    size: allocation.byte_size,
                };
                if allocation.offset < old(self).block_spec().offset || !r.fits() {
                    res == Err::<(), AllocatorError>(AllocatorError::Overflow) && final(self)@ == old(self)@
                } else {
                    &&& res is Ok
                    &&& conflicts(old(self)@, r) ==> final(self)@ == old(self)@
                    &&& !conflicts(old(self)@, r) ==> final(self)@ == insert_free(old(self)@, r)
                }
            }),
    {
        if allocation.offset < self.block.offset {
            return Err(AllocatorError::Overflow);
        }
        let relative = allocation.offset - self.block.offset;
        if relative > u64::MAX - allocation.byte_size {
            return Err(AllocatorError::Overflow);
        }
        let _ = self.free_region(Region::new(relative, allocation.byte_size));
        Ok(())
    }
}

impl DeviceAllocator for Suballocator {
    open spec fn keeps_call_record(&self) -> bool {
        true
    }

    closed spec fn requests(&self) -> Seq<MemoryAllocateInfo> {
        self.request_log@
    }

    closed spec fn frees(&self) -> Seq<Allocation> {
        self.free_log@
    }

    closed spec fn allocate_answers(&self) -> Seq<Result<Allocation, AllocatorError>> {
        self.allocate_answer_log@
    }

    closed spec fn free_answers(&self) -> Seq<Result<(), AllocatorError>> {
        self.free_answer_log@
    }

    /// Carve the request out of the block with a first-fit search.
    ///
    /// The returned allocation shares the block's memory; its offset is the
    /// free region's offset plus the block's offset. A request for another
    /// memory type, or one no free region can hold, is refused and nothing
    /// changes; so is one whose offset would leave the range of a `u64`.
    fn allocate(&mut self, allocate_info: MemoryAllocateInfo) -> (res: Result<Allocation, AllocatorError>)
        ensures
            final(self).block_spec() == old(self).block_spec(),
            allocate_info.memory_type_index != old(self).block_spec().memory_type_index ==> res == Err::<
                Allocation,
                AllocatorError,
            >(AllocatorError::IncompatibleMemoryType),
            res is Err ==> final(self)@ == old(self)@,
            res is Ok <==> can_serve(*old(self), allocate_info),
            res == Err::<Allocation, AllocatorError>(AllocatorError::OutOfMemory) <==> (
            allocate_info.memory_type_index == old(self).block_spec().memory_type_index && forall|j: int|
                0 <= j < old(self)@.len() ==> (#[trigger] old(self)@[j]).size < allocate_info.allocation_size),
            res matches Ok(a) ==> exists|i: int|
                first_fit_at(old(self)@, allocate_info.allocation_size, i) && final(self)@ == take_front(
                    old(self)@,
                    allocate_info.allocation_size,
                    i,
                ) && a == (Allocation {
                    memory: old(self).block_spec().memory,
                    offset: (old(self)@[i].offset + old(self).block_spec().offset) as u64,
                    byte_size: allocate_info.allocation_size,
                    memory_type_index: allocate_info.memory_type_index,
                }),
    {
        let res = self.carve(allocate_info);
        proof {
            use_type_invariant(&*self);
        }
        self.request_log = Ghost(self.request_log@.push(allocate_info));
        self.allocate_answer_log = Ghost(self.allocate_answer_log@.push(res));
        assert(self.keeps_call_record());
        assert(self.requests() == old(self).requests().push(allocate_info));
        assert(self.allocate_answers() == old(self).allocate_answers().push(res));
        assert(self.frees() == old(self).frees());
        assert(self.free_answers() == old(self).free_answers());
        res
    }

    /// Return the allocation's range, taken relative to the block's offset,
    /// to the free regions. An allocation that starts before the block, or
    /// whose end would leave the range of a `u64`, is refused; a range that
    /// is already free is ignored.
    fn free(&mut self, allocation: &Allocation) -> (res: Result<(), AllocatorError>)
        ensures
            final(self).block_spec() == old(self).block_spec(),
            ({
                let r = Region {
                    offset: (allocation.offset - old(self).block_spec().offset) as u64,
                    size: allocation.byte_size,
                };
                if allocation.offset < old(self).block_spec().offset || !r.fits() {
                    res == Err::<(), AllocatorError>(AllocatorError::Overflow) && final(self)@ == old(self)@
                } else {
                    &&& res is Ok
                    &&& conflicts(old(self)@, r) ==> final(self)@ == old(self)@
                    &&& !conflicts(old(self)@, r) ==> final(self)@ == insert_free(old(self)@, r)
                }
            }),
    {
        let res = self.give_back(allocation);
        proof {
            use_type_invariant(&*self);
        }
        self.free_log = Ghost(self.free_log@.push(*allocation));
        self.free_answer_log = Ghost(self.free_answer_log@.push(res));
        res
    }
}

} // verus!

verus! {

/// The regions handed out and still in use share no byte with each other nor
/// with the free regions.
pub open spec fn live_regions_disjoint(free: Seq<Region>, live: Seq<Region>) -> bool {
    &&& forall|i: int, j: int| 0 <= i < j < live.len() ==> (#[trigger] live[i]).bytes().disjoint((#[trigger] live[j]).bytes())
    &&& forall|i: int| 0 <= i < live.len() ==> (#[trigger] live[i]).bytes().disjoint(covered(free))
}

/// Handing out a region keeps the regions in use apart: the new region shares
/// no byte with any region already in use, nor with what stays free.
pub proof fn law_allocated_regions_stay_disjoint(free: Seq<Region>, live: Seq<Region>, size: u64, i: int)
    requires
        free_list_wf(free),
        first_fit_at(free, size, i),
        live_regions_disjoint(free, live),
    ensures
        live_regions_disjoint(take_front(free, size, i), live.push(Region { offset: free[i].offset, size })),
{
    let r = Region { offset: free[i].offset, size };
    let after = take_front(free, size, i);
    let l2 = live.push(r);
    law_allocate_region_takes_its_bytes(free, size, i);
    assert forall|a: int, b: int| 0 <= a < b < l2.len() implies (#[trigger] l2[a]).bytes().disjoint(
        (#[trigger] l2[b]).bytes(),
    ) by {
        assert(l2[a] == live[a]);
        if b == live.len() {
            assert(l2[b] == r);
            assert forall|x: int| live[a].bytes().contains(x) implies !r.bytes().contains(x) by {
                if r.bytes().contains(x) {
                    assert(covered(free).contains(x));
                }
            }
        } else {
            assert(l2[b] == live[b]);
        }
    }
    assert forall|a: int| 0 <= a < l2.len() implies (#[trigger] l2[a]).bytes().disjoint(covered(after)) by {
        if a < live.len() {
            assert(l2[a] == live[a]);
        } else {
            assert(l2[a] == r);
        }
    }
}

/// Returning a region in use (that the free list accepts) keeps the
/// remaining regions in use apart from each other and from the free regions.
pub proof fn law_freed_regions_stay_disjoint(free: Seq<Region>, live: Seq<Region>, k: int)
    requires
        free_list_wf(free),
        0 <= k < live.len(),
        live[k].fits(),
        !conflicts(free, live[k]),
        live_regions_disjoint(free, live),
    ensures
        live_regions_disjoint(insert_free(free, live[k]), live.remove(k)),
{
    let r = live[k];
    let l2 = live.remove(k);
    law_free_region_adds_its_bytes(free, r);
    assert forall|a: int, b: int| 0 <= a < b < l2.len() implies (#[trigger] l2[a]).bytes().disjoint(
        (#[trigger] l2[b]).bytes(),
    ) by {
        let a2 = if a < k { a } else { a + 1 };
        let b2 = if b < k { b } else { b + 1 };
        assert(l2[a] == live[a2]);
        assert(l2[b] == live[b2]);
    }
    assert forall|a: int| 0 <= a < l2.len() implies (#[trigger] l2[a]).bytes().disjoint(
        covered(insert_free(free, r)),
    ) by {
        let a2 = if a < k { a } else { a + 1 };
        assert(l2[a] == live[a2]);
        if a2 < k {
            assert(live[a2].bytes().disjoint(live[k].bytes()));
        } else {
            assert(live[k].bytes().disjoint(live[a2].bytes()));
        }
    }
}

} // verus!

verus! {

/// Every free region lies within a block of `block_size` bytes.
pub open spec fn within_block(free: Seq<Region>, block_size: u64) -> bool {
    forall|i: int| 0 <= i < free.len() ==> (#[trigger] free[i]).end_int() <= block_size
}

/// A new suballocator's free list lies within its block.
pub proof fn law_new_free_list_is_within_block(block_size: u64)
    ensures
        within_block(seq![Region { offset: 0, size: block_size }], block_size),
{
}

/// While the free regions lie within the block, what an allocation takes
/// lies within the block too, and so does what stays free.
pub proof fn law_allocation_lies_within_block(free: Seq<Region>, block_size: u64, size: u64, i: int)
    requires
        within_block(free, block_size),
        first_fit_at(free, size, i),
    ensures
        free[i].offset + size <= block_size,
        within_block(take_front(free, size, i), block_size),
{
    let u = take_front(free, size, i);
    assert forall|j: int| 0 <= j < u.len() implies (#[trigger] u[j]).end_int() <= block_size by {
        if free[i].size == size {
            if j >= i {
                assert(u[j] == free[j + 1]);
            }
        } else if j != i {
            assert(u[j] == free[j]);
        }
    }
}

/// Giving back a region that lies within the block keeps the free regions
/// within the block.
pub proof fn law_free_stays_within_block(free: Seq<Region>, block_size: u64, r: Region)
    requires
        within_block(free, block_size),
        r.end_int() <= block_size,
    ensures
        within_block(insert_free(free, r), block_size),
    decreases free.len(),
{
    let u = insert_free(free, r);
    if free.len() == 0 {
    } else if r.touches(free[0]) {
        let m = r.union_with(free[0]);
        assert(m.end_int() <= block_size);
        if free.len() > 1 && m.end_int() == free[1].offset {
            let m2 = m.union_with(free[1]);
            assert(m2.end_int() <= block_size);
            assert forall|j: int| 0 <= j < u.len() implies (#[trigger] u[j]).end_int() <= block_size by {
                if j > 0 {
                    assert(u[j] == free[j + 1]);
                }
            }
        } else {
            assert forall|j: int| 0 <= j < u.len() implies (#[trigger] u[j]).end_int() <= block_size by {
                if j > 0 {
                    assert(u[j] == free[j]);
                }
            }
        }
    } else if r.end_int() < free[0].offset {
        assert forall|j: int| 0 <= j < u.len() implies (#[trigger] u[j]).end_int() <= block_size by {
            if j > 0 {
                assert(u[j] == free[j - 1]);
            }
        }
    } else {
        let t = free.skip(1);
        law_free_stays_within_block(t, block_size, r);
        let v = insert_free(t, r);
        assert forall|j: int| 0 <= j < u.len() implies (#[trigger] u[j]).end_int() <= block_size by {
            if j > 0 {
                assert(u[j] == v[j - 1]);
            }
        }
    }
}

/// An allocation a suballocator hands out, while its free regions lie within
/// its block, lies inside the block's range of memory, and the free regions
/// left still lie within the block.
pub proof fn law_suballocation_lies_in_block(sub: Suballocator, size: u64, i: int)
    requires
        within_block(sub@, sub.block_spec().byte_size),
        first_fit_at(sub@, size, i),
    ensures
        sub.block_spec().offset <= sub@[i].offset + sub.block_spec().offset,
        sub@[i].offset + sub.block_spec().offset + size <= sub.block_spec().offset + sub.block_spec().byte_size,
        within_block(take_front(sub@, size, i), sub.block_spec().byte_size),
{
    law_allocation_lies_within_block(sub@, sub.block_spec().byte_size, size, i);
}

/// Freeing an allocation that lies inside the block's range of memory keeps
/// the free regions within the block.
pub proof fn law_freeing_inside_block_stays_within(sub: Suballocator, allocation: Allocation)
    requires
        within_block(sub@, sub.block_spec().byte_size),
        sub.block_spec().offset <= allocation.offset,
        allocation.offset + allocation.byte_size <= sub.block_spec().offset + sub.block_spec().byte_size,
    ensures
        within_block(
            insert_free(
                sub@,
                Region { offset: (allocation.offset - sub.block_spec().offset) as u64, size: allocation.byte_size },
            ),
            sub.block_spec().byte_size,
        ),
{
    law_free_stays_within_block(
        sub@,
        sub.block_spec().byte_size,
        Region { offset: (allocation.offset - sub.block_spec().offset) as u64, size: allocation.byte_size },
    );
}

} // verus!
