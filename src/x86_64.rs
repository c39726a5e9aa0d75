//! Values of the x86-64 architecture that the kernel builds: canonical
//! addresses, the descriptor table pointer, and the interrupt flag.

use vstd::prelude::*;

verus! {

/// Bit of RFLAGS that enables interrupts.
pub const INTERRUPT_FLAG: u64 = 0x200;

/// Interrupts are enabled under flags register value `rflags`.
pub fn interrupts_enabled(rflags: u64) -> (r: bool)
    ensures
        r == (rflags & INTERRUPT_FLAG != 0),
{
    rflags & INTERRUPT_FLAG != 0
}

/// A canonical address: bits 47 to 63 are all equal, so it lies in the
/// lower half (up to 0x0000_7FFF_FFFF_FFFF) or the upper half (from
/// 0xFFFF_8000_0000_0000).
pub open spec fn is_canonical(addr: u64) -> bool {
    addr >> 47u64 == 0 || addr >> 47u64 == 0x1FFFF
}

/// A canonical virtual address.
#[derive(Clone, Copy, PartialEq, Eq, Structural, Debug)]
pub struct CanonicalAddress {
    pub addr: u64,
}

impl CanonicalAddress {
    pub fn new(addr: u64) -> (r: Self)
        requires
            is_canonical(addr),
        ensures
            r.addr == addr,
    {
        CanonicalAddress { addr }
    }

    /// Wraps `addr` without checking it.
    pub fn new_unsafe(addr: u64) -> (r: Self)
        ensures
            r.addr == addr,
    {
        CanonicalAddress { addr }
    }
}

/// The operand of the instruction that loads a descriptor table.
#[derive(Clone, Copy, PartialEq, Eq, Structural, Debug)]
pub struct DescriptorTablePointer {
    pub limit: u16,
    pub base: CanonicalAddress,
}

} // verus!
