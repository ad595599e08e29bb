//! Sizes of data written into CPU-visible buffers.

use vstd::prelude::*;

verus! {

/// The number of entries in the first `n` arrays.
pub open spec fn entry_count(lengths: Seq<usize>, n: int) -> int
    decreases n,
{
    if n <= 0 {
        0
    } else {
        entry_count(lengths, n - 1) + lengths[n - 1]
    }
}

proof fn lemma_entry_count_grows(lengths: Seq<usize>, a: int, b: int)
    requires
        0 <= a <= b <= lengths.len(),
    ensures
        entry_count(lengths, a) <= entry_count(lengths, b),
    decreases b - a,
{
    if a < b {
        lemma_entry_count_grows(lengths, a, b - 1);
    }
}

/// The bytes needed to write several arrays one after the other into a
/// buffer: all their entries, `entry_size` bytes each.
pub fn total_byte_size(array_lengths: &Vec<usize>, entry_size: usize) -> (total: usize)
    requires
        entry_count(array_lengths@, array_lengths.len() as int) * entry_size <= usize::MAX,
    ensures
        total == entry_count(array_lengths@, array_lengths.len() as int) * entry_size,
{
    if entry_size == 0 {
        proof {
            let total = entry_count(array_lengths@, array_lengths.len() as int);
            assert(total * entry_size == 0) by (nonlinear_arith)
                requires
                    entry_size == 0,
            ;
        }
        return 0;
    }
    let n = array_lengths.len();
    let mut count: usize = 0;
    let mut i: usize = 0;
    while i < n
        invariant
            n == array_lengths@.len(),
            i <= n,
            count == entry_count(array_lengths@, i as int),
            entry_count(array_lengths@, n as int) * entry_size <= usize::MAX,
            entry_size > 0,
        decreases n - i,
    {
        proof {
            lemma_entry_count_grows(array_lengths@, i + 1, n as int);
            let c = entry_count(array_lengths@, i + 1);
            let total = entry_count(array_lengths@, n as int);
            assert(c <= c * entry_size <= total * entry_size) by (nonlinear_arith)
                requires
                    0 <= c <= total,
                    entry_size > 0,
            ;
        }
        count = count + array_lengths[i];
        i = i + 1;
    }
    count * entry_size
}

} // verus!
