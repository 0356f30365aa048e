//! Vendor-configuration table entries that describe the firmware
//! implementation itself.

use vstd::prelude::*;

verus! {

/// Flags describing memory protection, stored as a raw bit mask.
#[derive(Clone, Copy, Debug, PartialEq, Eq, Structural)]
pub struct MemoryProtectionAttribute {
    /// The raw flag bits.
    pub bits: usize,
}

impl MemoryProtectionAttribute {
    /// Flags from a raw bit mask.
    pub fn from_bits(bits: usize) -> (r: MemoryProtectionAttribute)
        ensures
            r.bits == bits,
    {
        MemoryProtectionAttribute { bits }
    }

    /// The "pages containing data are marked non-executable" flag.
    pub fn non_executable_data() -> (r: MemoryProtectionAttribute)
        ensures
            r.bits == 1usize,
    {
        MemoryProtectionAttribute { bits: 1 }
    }
}

/// Additional information about the firmware implementation.
#[derive(Clone, Copy, Debug, PartialEq, Eq, Structural)]
pub struct PropertiesTable {
    /// Version of the table; the only valid version is 0x10000.
    pub version: u32,
    /// Length of the table in bytes; the initial version's length is 16.
    pub length: u32,
    /// Memory protection flags.
    pub memory_protection: MemoryProtectionAttribute,
}

} // verus!
