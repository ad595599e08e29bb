//! Bookkeeping for reusing command buffers between frames.

use vstd::prelude::*;

verus! {

/// Tracks which command buffers (by raw handle) a pool has allocated and
/// which of them are available until the next reset.
///
/// The available buffers are always the first ones allocated, in allocation
/// order, so a buffer is never handed out twice between two resets.
pub struct CommandBufferCache {
    allocated: Vec<u64>,
    available: Vec<u64>,
}

impl CommandBufferCache {
    /// Every buffer allocated through the cache, in allocation order.
    pub closed spec fn allocated_spec(self) -> Seq<u64> {
        self.allocated@
    }

    /// The buffers that can be handed out before the next reset.
    pub closed spec fn available_spec(self) -> Seq<u64> {
        self.available@
    }

    /// The available buffers are the first allocated ones.
    #[verifier::type_invariant]
    spec fn wf(self) -> bool {
        self.available@.len() <= self.allocated@.len() && self.available@ == self.allocated@.take(
            self.available@.len() as int,
        )
    }

    /// The cache's buffers are its available and allocated buffers when the
    /// available ones are the first allocated ones.
    fn from_parts(allocated: Vec<u64>, available: Vec<u64>) -> (c: Self)
        requires
            available@.len() <= allocated@.len(),
            available@ == allocated@.take(available@.len() as int),
        ensures
            c.allocated_spec() == allocated@,
            c.available_spec() == available@,
    {
        CommandBufferCache { allocated, available }
    }

    /// A cache with no buffers.
    pub fn new() -> (c: Self)
        ensures
            c.allocated_spec() == Seq::<u64>::empty(),
            c.available_spec() == Seq::<u64>::empty(),
    {
        let allocated: Vec<u64> = Vec::new();
        let available: Vec<u64> = Vec::new();
        assert(available@ =~= allocated@.take(0));
        Self::from_parts(allocated, available)
    }

    /// Request a command buffer: the most recently allocated one that has not
    /// been handed out since the last reset, or `None` when the caller has to
    /// allocate a new one (and record it with [`Self::record_allocated`]).
    pub fn request_command_buffer(&mut self) -> (b: Option<u64>)
        ensures
            final(self).allocated_spec() == old(self).allocated_spec(),
            old(self).available_spec().len() == 0 ==> b is None && final(self).available_spec()
                == old(self).available_spec(),
            old(self).available_spec().len() > 0 ==> b == Some(
                old(self).allocated_spec()[old(self).available_spec().len() - 1],
            ) && final(self).available_spec() == old(self).available_spec().drop_last(),
    {
        proof {
            use_type_invariant(&*self);
        }
        let mut taken = Self::new();
        std::mem::swap(&mut taken, self);
        let CommandBufferCache { allocated, mut available } = taken;
        let b = available.pop();
        proof {
            if old(self).available_spec().len() > 0 {
                let n = old(self).available_spec().len() as int;
                assert(old(self).available_spec()[n - 1] == old(self).allocated_spec().take(n)[n - 1]);
                assert(available@ =~= allocated@.take(n - 1));
            }
        }
        *self = Self::from_parts(allocated, available);
        b
    }

    /// Record a command buffer that was just allocated for the caller; it is
    /// in use until the next reset.
    pub fn record_allocated(&mut self, buffer: u64) -> (b: u64)
        ensures
            b == buffer,
            final(self).allocated_spec() == old(self).allocated_spec().push(buffer),
            final(self).available_spec() == old(self).available_spec(),
    {
        proof {
            use_type_invariant(&*self);
        }
        let mut taken = Self::new();
        std::mem::swap(&mut taken, self);
        let CommandBufferCache { mut allocated, available } = taken;
        allocated.push(buffer);
        proof {
            let n = available@.len() as int;
            assert(allocated@.take(n) =~= old(self).allocated@.take(n));
        }
        *self = Self::from_parts(allocated, available);
        buffer
    }

    /// Mark every allocated buffer as available again. The caller resets the
    /// pool itself first, once the GPU is done with the buffers.
    pub fn reset(&mut self)
        ensures
            final(self).allocated_spec() == old(self).allocated_spec(),
            final(self).available_spec() == old(self).allocated_spec(),
    {
        let n = self.allocated.len();
        let mut available: Vec<u64> = Vec::new();
        let mut i: usize = 0;
        while i < n
            invariant
                n == self.allocated@.len(),
                i <= n,
                available@ == self.allocated@.take(i as int),
            decreases n - i,
        {
            available.push(self.allocated[i]);
            assert(available@ =~= self.allocated@.take(i + 1));
            i = i + 1;
        }
        assert(self.allocated@.take(n as int) =~= self.allocated@);
        self.available = available;
    }

    /// Every buffer allocated through the cache, in allocation order.
    pub fn allocated(&self) -> (v: &Vec<u64>)
        ensures
            v@ == self.allocated_spec(),
    {
        &self.allocated
    }

    /// Forget all buffers, once the caller has freed them.
    pub fn clear(&mut self)
        ensures
            final(self).allocated_spec() == Seq::<u64>::empty(),
            final(self).available_spec() == Seq::<u64>::empty(),
    {
        *self = Self::new();
    }
}

} // verus!
