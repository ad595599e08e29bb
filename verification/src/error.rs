//! Errors reported by the device memory allocators.

use vstd::prelude::*;

verus! {

/// Why an allocator could not allocate or free memory.
#[derive(Clone, Copy, Debug, PartialEq, Eq, Structural)]
pub enum AllocatorError {
    /// The request names a different memory type than the block being
    /// suballocated.
    IncompatibleMemoryType,
    /// No free region is large enough for the request.
    OutOfMemory,
    /// The request is larger than the blocks a pool hands out.
    RequestTooLarge,
    /// The allocation being freed was not made by this allocator.
    UnknownMemory,
    /// The memory type index names no memory type of the device.
    UnknownMemoryType,
    /// The region being freed is already (partly) free.
    DoubleFree,
    /// An offset or size computation would leave the range of a `u64`.
    Overflow,
    /// The device reported an error, with its Vulkan result code.
    Device(i32),
}

} // verus!
