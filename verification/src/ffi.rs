//! Preparing data for calls into Vulkan.

use vstd::prelude::*;

verus! {

/// The little-endian `u32` made of four bytes.
pub open spec fn le_word(b0: u8, b1: u8, b2: u8, b3: u8) -> int {
    b0 + b1 * 0x100 + b2 * 0x1_0000 + b3 * 0x100_0000
}

/// Copy a byte slice into a properly-aligned u32 array, reading each group of
/// four bytes as a little-endian word.
///
/// This helps load SPIR-V, which Vulkan expects as u32 words, from raw
/// bytes. The byte count must be a multiple of four.
pub fn copy_to_u32(bytes: &[u8]) -> (words: Vec<u32>)
    requires
        bytes@.len() % 4 == 0,
    ensures
        words@.len() * 4 == bytes@.len(),
        forall|i: int|
            0 <= i < words@.len() ==> words@[i] == le_word(
                #[trigger] bytes@[4 * i],
                bytes@[4 * i + 1],
                bytes@[4 * i + 2],
                bytes@[4 * i + 3],
            ),
{
    let n = bytes.len();
    let mut buffer: Vec<u32> = Vec::new();
    let mut offset: usize = 0;
    while offset < n
        invariant
            n == bytes@.len(),
            n % 4 == 0,
            offset % 4 == 0,
            offset <= n,
            buffer@.len() * 4 == offset,
            forall|i: int|
                0 <= i < buffer@.len() ==> buffer@[i] == le_word(
                    #[trigger] bytes@[4 * i],
                    bytes@[4 * i + 1],
                    bytes@[4 * i + 2],
                    bytes@[4 * i + 3],
                ),
        decreases n - offset,
    {
        let word: u32 = bytes[offset] as u32 + bytes[offset + 1] as u32 * 0x100 + bytes[offset + 2] as u32
            * 0x1_0000 + bytes[offset + 3] as u32 * 0x100_0000;
        buffer.push(word);
        offset = offset + 4;
    }
    buffer
}

/// The bytes of a fixed-size, NUL-terminated name, as Vulkan's properties
/// structs hold them: everything before the first NUL byte, or all of the
/// bytes when there is none.
pub fn name_bytes(raw: &[u8]) -> (name: Vec<u8>)
    ensures
        name@.len() <= raw@.len(),
        name@ == raw@.take(name@.len() as int),
        forall|j: int| 0 <= j < name@.len() ==> #[trigger] name@[j] != 0,
        name@.len() == raw@.len() || raw@[name@.len() as int] == 0,
{
    let n = raw.len();
    let mut name: Vec<u8> = Vec::new();
    let mut i: usize = 0;
    while i < n && raw[i] != 0
        invariant
            n == raw@.len(),
            i <= n,
            name@ == raw@.take(i as int),
            forall|j: int| 0 <= j < i ==> #[trigger] raw@[j] != 0,
        decreases n - i,
    {
        name.push(raw[i]);
        i = i + 1;
        proof {
            assert(name@ =~= raw@.take(i as int));
        }
    }
    name
}

} // verus!
