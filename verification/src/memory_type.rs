//! Memory types of a device, and picking one for an allocation.

use ash::vk;
use vstd::prelude::*;

verus! {

/// One memory type of a physical device: the properties of its memory
/// (`VkMemoryPropertyFlags` bits) and the heap it comes from.
#[derive(Clone, Copy, Debug, PartialEq, Eq, Structural)]
pub struct MemoryType {
    pub property_flags: u32,
    pub heap_index: u32,
}

/// Whether memory property flags hold every required flag.
///
/// Trusted: calls `ash::vk::MemoryPropertyFlags::contains`, which ash's
/// source defines as `self & other == other` on the raw bits.
#[verifier::external_body]
fn property_flags_contain(flags: u32, required: u32) -> (b: bool)
    ensures
        b == (flags & required == required),
{
    vk::MemoryPropertyFlags::from_raw(flags).contains(vk::MemoryPropertyFlags::from_raw(required))
}

/// Memory type `i` is allowed by the resource's type bits and has every
/// required property.
pub open spec fn memory_type_suits(
    memory_types: Seq<MemoryType>,
    memory_type_bits: u32,
    required: u32,
    i: int,
) -> bool {
    &&& 0 <= i < memory_types.len()
    &&& memory_type_bits & (1u32 << (i as u32)) != 0
    &&& memory_types[i].property_flags & required == required
}

/// Pick the first memory type that the resource allows (bit `i` of
/// `memory_type_bits`) and that has all of the required properties.
pub fn find_memory_type_index(memory_types: &Vec<MemoryType>, memory_type_bits: u32, property_flags: u32) -> (r:
    Option<u32>)
    requires
        memory_types.len() <= 32,
    ensures
        r is None ==> forall|i: int| !memory_type_suits(memory_types@, memory_type_bits, property_flags, i),
        r matches Some(i) ==> memory_type_suits(memory_types@, memory_type_bits, property_flags, i as int)
            && forall|j: int| 0 <= j < i ==> !memory_type_suits(memory_types@, memory_type_bits, property_flags, j),
{
    let n = memory_types.len();
    let mut i: usize = 0;
    while i < n
        invariant
            n == memory_types@.len(),
            n <= 32,
            i <= n,
            forall|j: int| 0 <= j < i ==> !memory_type_suits(memory_types@, memory_type_bits, property_flags, j),
        decreases n - i,
    {
        let type_supported = memory_type_bits & (1u32 << (i as u32)) != 0;
        let properties_supported = property_flags_contain(memory_types[i].property_flags, property_flags);
        if type_supported && properties_supported {
            return Some(i as u32);
        }
        i = i + 1;
    }
    None
}

} // verus!
