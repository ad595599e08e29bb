//! Units of measurement for memory.

use vstd::prelude::*;

verus! {

/// Bytes in one kibibyte; each unit is this many times the one below it.
pub const BASE: u64 = 1024;

/// Units of measurement for memory.
#[derive(Clone, Copy, Debug, PartialEq, Eq, Structural)]
pub enum MemUnit {
    /// Bytes
    B(u64),
    /// Kibibytes (Bytes*1024)
    KiB(u64),
    /// Mebibytes (Kibibytes*1024)
    MiB(u64),
    /// Gibibytes (Mebibytes*1024)
    GiB(u64),
}

impl MemUnit {
    /// The number of bytes the amount stands for.
    pub open spec fn bytes(self) -> int {
        match self {
            MemUnit::B(bytes) => bytes as int,
            MemUnit::KiB(kibs) => kibs * 1024,
            MemUnit::MiB(mibs) => mibs * (1024 * 1024),
            MemUnit::GiB(gibs) => gibs * (1024 * 1024 * 1024),
        }
    }

    /// Compute the raw byte-count for the given memory unit.
    pub fn to_bytes(&self) -> (b: u64)
        requires
            self.bytes() <= u64::MAX,
        ensures
            b == self.bytes(),
    {
        match self {
            MemUnit::B(bytes) => *bytes,
            MemUnit::KiB(kibs) => *kibs * BASE,
            MemUnit::MiB(mibs) => *mibs * (BASE * BASE),
            MemUnit::GiB(gibs) => *gibs * (BASE * BASE * BASE),
        }
    }
}

} // verus!
