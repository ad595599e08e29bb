//! A single allocated piece of device memory.

use ash::vk::Handle;
use vstd::prelude::*;

verus! {

/// The raw handle of a Vulkan `VkDeviceMemory` object that refers to no memory.
///
/// Trusted: calls `ash::vk::DeviceMemory::null` and reads its raw value with
/// `Handle::as_raw`; in ash's source `null()` is the handle built from `0`
/// and `as_raw` returns that number unchanged.
#[verifier::external_body]
fn null_device_memory() -> (handle: u64)
    ensures
        handle == 0,
{
    ash::vk::DeviceMemory::null().as_raw()
}

/// A single allocated piece of device memory: the memory object, identified
/// by its raw Vulkan handle, and the byte range inside it.
#[derive(Clone, Copy, Debug, PartialEq, Eq, Structural)]
pub struct Allocation {
    /// Raw handle of the device memory object this allocation lives in.
    pub memory: u64,
    /// Byte offset of the allocation inside the memory object.
    pub offset: u64,
    /// Size of the allocation in bytes.
    pub byte_size: u64,
    /// Index of the memory type the memory was allocated from.
    pub memory_type_index: u32,
}

impl Allocation {
    /// Build an allocation from its parts.
    pub fn new(memory: u64, offset: u64, byte_size: u64, memory_type_index: u32) -> (a: Self)
        ensures
            a.memory == memory,
            a.offset == offset,
            a.byte_size == byte_size,
            a.memory_type_index == memory_type_index,
    {
        Allocation { memory, offset, byte_size, memory_type_index }
    }

    /// The null allocation: no memory, no range.
    pub open spec fn null_spec() -> Self {
        Allocation { memory: 0, offset: 0, byte_size: 0, memory_type_index: 0 }
    }

    /// Create a null allocation which has a size of zero and a null memory
    /// handle.
    pub fn null() -> (a: Self)
        ensures
            a == Self::null_spec(),
    {
        Allocation { memory: null_device_memory(), offset: 0, byte_size: 0, memory_type_index: 0 }
    }

    /// Returns true when the memory handle is null.
    pub fn is_null(&self) -> (b: bool)
        ensures
            b == (self.memory == 0),
    {
        self.memory == null_device_memory()
    }
}

/// A request for device memory: how many bytes, from which memory type.
#[derive(Clone, Copy, Debug, PartialEq, Eq, Structural)]
pub struct MemoryAllocateInfo {
    /// Index of the memory type to allocate from.
    pub memory_type_index: u32,
    /// Number of bytes requested.
    pub allocation_size: u64,
}

} // verus!
