//! Plain-value helpers of the kernel library.

use vstd::prelude::*;

verus! {

/// Mask of the offset of an address inside its 4 KiB page.
pub const PAGE_OFFSET_MASK: u64 = 0xFFF;

/// The physical address of kernel address `addr`, given the physical start
/// of the frame that its page maps to.
pub fn kernel_to_physical_address(addr: u64, frame_start: u64) -> (r: u64)
    requires
        frame_start + (addr & 0xFFF) <= u64::MAX,
    ensures
        r == frame_start + (addr & 0xFFF),
{
    let offset = addr & PAGE_OFFSET_MASK;
    frame_start + offset
}

/// The kernel address of physical address `addr`: the kernel maps physical
/// memory at its own address.
pub fn physical_to_kernel_address(addr: u64) -> (r: u64)
    ensures
        r == addr,
{
    addr
}

/// A value that the hardware may read or change behind the program's back.
pub struct Volatile<T: Copy> {
    data: T,
}

impl<T: Copy> Volatile<T> {
    pub closed spec fn value(self) -> T {
        self.data
    }

    pub fn new(data: T) -> (r: Self)
        ensures
            r.value() == data,
    {
        Volatile { data }
    }

    pub fn read(&self) -> (r: T)
        ensures
            r == self.value(),
    {
        self.data
    }

    pub fn write(&mut self, data: T)
        ensures
            final(self).value() == data,
    {
        self.data = data;
    }
}

} // verus!
