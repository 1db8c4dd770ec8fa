//! Generic page mapping flags and physical memory region flags.

use vstd::prelude::*;

verus! {

/// Flags that indicate the permissions and attributes of a mapped memory
/// region: a set of bits, each one of the associated constants.
#[derive(Clone, Copy, Debug, PartialEq, Eq, Structural)]
pub struct MappingFlags {
    /// The set bits.
    pub bits: usize,
}

impl MappingFlags {
    /// The memory is readable.
    pub const READ: usize = 0b1;
    /// The memory is writable.
    pub const WRITE: usize = 0b10;
    /// The memory is executable.
    pub const EXECUTE: usize = 0b100;
    /// The memory is user accessible.
    pub const USER: usize = 0b1000;
    /// The memory is device memory.
    pub const DEVICE: usize = 0b10000;
    /// The memory is uncached.
    pub const UNCACHED: usize = 0b100000;
    /// All defined bits.
    pub const ALL: usize = 0b11_1111;

    /// No flag set.
    pub fn empty() -> (r: Self)
        ensures
            r.bits == 0,
    {
        MappingFlags { bits: 0 }
    }

    /// The flags of `bits`, with undefined bits dropped.
    pub fn from_bits_truncate(bits: usize) -> (r: Self)
        ensures
            r.bits == bits & Self::ALL,
    {
        MappingFlags { bits: bits & Self::ALL }
    }

    /// The raw bits.
    pub fn bits(self) -> (r: usize)
        ensures
            r == self.bits,
    {
        self.bits
    }

    /// Every bit of `other` is set here.
    pub fn contains(self, other: usize) -> (r: bool)
        ensures
            r == (self.bits & other == other),
    {
        self.bits & other == other
    }

    /// Sets the bits of `other`.
    pub fn insert(&mut self, other: usize)
        ensures
            final(self).bits == old(self).bits | other,
    {
        self.bits = self.bits | other;
    }
}

/// The flags of a physical memory region: a set of bits, each one of the
/// associated constants.
#[derive(Clone, Copy, Debug, PartialEq, Eq, Structural)]
pub struct MemRegionFlags {
    /// The set bits.
    pub bits: usize,
}

impl MemRegionFlags {
    /// Reserved memory, do not use for allocation.
    pub const RESERVED: usize = 0b1;
    /// Readable.
    pub const READ: usize = 0b10;
    /// Writable.
    pub const WRITE: usize = 0b100;
    /// Executable.
    pub const EXECUTE: usize = 0b1000;
    /// Device memory. (e.g., MMIO regions)
    pub const DEVICE: usize = 0b10000;
    /// Uncachable memory. (e.g., framebuffer)
    pub const UNCACHED: usize = 0b100000;
    /// Free memory for allocation.
    pub const FREE: usize = 0b1000000;

    /// The flags made of exactly `bits`.
    pub fn from_bits(bits: usize) -> (r: Self)
        ensures
            r.bits == bits,
    {
        MemRegionFlags { bits }
    }

    /// Every bit of `other` is set here.
    pub fn contains(self, other: usize) -> (r: bool)
        ensures
            r == (self.bits & other == other),
    {
        self.bits & other == other
    }
}

} // verus!
