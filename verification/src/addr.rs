//! Physical and virtual addresses.
//!
//! The two address spaces are kept as disjoint semantic types: a physical
//! address never becomes usable as a virtual one except by adding the
//! kernel's fixed physical-memory offset, and that conversion is the only
//! bridge between them.

use vstd::prelude::*;

verus! {

/// An address in the physical address space, as the hardware sees memory.
#[derive(Clone, Copy, Debug, PartialEq, Eq, Structural)]
pub struct PhysicalAddress(pub u64);

/// An address in the kernel's virtual address space.
#[derive(Clone, Copy, Debug, PartialEq, Eq, Structural)]
pub struct VirtualAddress(pub u64);

/// The largest multiple of the page size that is at most `a`.
pub open spec fn spec_align_down_4k(a: u64) -> u64 {
    ((a / 4096) * 4096) as u64
}

/// Rounds a physical address down to the base of the frame containing it.
pub fn align_down_4k(a: u64) -> (r: u64)
    ensures
        r == spec_align_down_4k(a),
        r <= a,
        r % 4096 == 0,
{
    proof {
        assert((a / 4096) * 4096 <= a) by (nonlinear_arith);
        assert(((a / 4096) * 4096) % 4096 == 0) by (nonlinear_arith);
    }
    (a / 4096) * 4096
}

impl PhysicalAddress {
    /// The base address of the frame this address lies in.
    pub fn frame_base(self) -> (r: PhysicalAddress)
        ensures
            r.0 == spec_align_down_4k(self.0),
    {
        PhysicalAddress(align_down_4k(self.0))
    }

    /// Converts this physical address to the virtual address at which the
    /// bootloader has mapped it, by adding the fixed physical-memory offset.
    ///
    /// The precondition is the machine limit that the sum not wrap; the
    /// bootloader's offset mapping keeps all mapped physical memory below
    /// that bound.
    pub fn to_virtual(self, physical_memory_offset: u64) -> (r: VirtualAddress)
        requires
            physical_memory_offset + self.0 <= u64::MAX,
        ensures
            r.0 == physical_memory_offset + self.0,
    {
        VirtualAddress(physical_memory_offset + self.0)
    }
}

impl VirtualAddress {
    /// Recovers the physical address that this offset-mapped virtual address
    /// refers to, by subtracting the fixed physical-memory offset.
    pub fn to_physical(self, physical_memory_offset: u64) -> (r: PhysicalAddress)
        requires
            physical_memory_offset <= self.0,
        ensures
            r.0 == self.0 - physical_memory_offset,
    {
        PhysicalAddress(self.0 - physical_memory_offset)
    }
}

/// Offset consistency: converting a physical address through the fixed
/// physical-memory offset and back recovers exactly the same physical
/// address, so every physical-to-virtual conversion in one kernel instance
/// addresses the intended physical byte.
pub proof fn lemma_offset_round_trip(p: u64, physical_memory_offset: u64)
    requires
        physical_memory_offset + p <= u64::MAX,
    ensures
        (physical_memory_offset + p) - physical_memory_offset == p,
{
}

} // verus!
