//! x86-64 paging structures: page table entries and their flag bits.

use vstd::prelude::*;

verus! {

/// Number of entries in one page table.
pub const PTE_COUNT: usize = 512;
/// Bits of an entry that hold the physical address.
pub const ADDR_MASK: u64 = 0x000f_ffff_ffff_f000;

/// Flag bits of a page table entry.
#[derive(Clone, Copy, PartialEq, Eq, Structural, Debug)]
pub enum Flag {
    Present,
    Writable,
    UserAccessible,
    WriteThrough,
    NoCache,
    Accessed,
    Dirty,
    HugePage,
    Global,
}

/// The bit of the flag.
pub open spec fn flag_bits(v: Flag) -> u64 {
    match v {
        Flag::Present => 0x1,
        Flag::Writable => 0x2,
        Flag::UserAccessible => 0x4,
        Flag::WriteThrough => 0x8,
        Flag::NoCache => 0x10,
        Flag::Accessed => 0x20,
        Flag::Dirty => 0x40,
        Flag::HugePage => 0x80,
        Flag::Global => 0x100,
    }
}

impl Flag {
    /// The bit of the flag.
    pub fn bits(&self) -> (r: u64)
        ensures
            r == flag_bits(*self),
    {
        match self {
            Flag::Present => 0x1,
            Flag::Writable => 0x2,
            Flag::UserAccessible => 0x4,
            Flag::WriteThrough => 0x8,
            Flag::NoCache => 0x10,
            Flag::Accessed => 0x20,
            Flag::Dirty => 0x40,
            Flag::HugePage => 0x80,
            Flag::Global => 0x100,
        }
    }
}

/// One page table entry.
#[derive(Clone, Copy, PartialEq, Eq, Structural, Debug)]
pub struct PageTableEntry {
    pub raw: u64,
}

impl PageTableEntry {
    pub fn new() -> (r: Self)
        ensures
            r.raw == 0,
    {
        PageTableEntry { raw: 0 }
    }

    pub fn zero_out(&mut self)
        ensures
            final(self).raw == 0,
    {
        self.raw = 0;
    }

    pub fn get_flag(&self, flag: Flag) -> (r: bool)
        ensures
            r == (self.raw & flag_bits(flag) != 0),
    {
        self.raw & flag.bits() != 0
    }

    pub fn clear_flag(&mut self, flag: Flag)
        ensures
            final(self).raw == old(self).raw & !flag_bits(flag),
    {
        self.raw = self.raw & !flag.bits();
    }

    pub fn set_flag(&mut self, flag: Flag)
        ensures
            final(self).raw == old(self).raw | flag_bits(flag),
    {
        self.raw = self.raw | flag.bits();
    }

    /// The physical address the entry points to.
    pub fn addr(&self) -> (r: u64)
        ensures
            r == self.raw & ADDR_MASK,
    {
        self.raw & ADDR_MASK
    }
}

/// A page table: `PTE_COUNT` entries.
pub struct PageTable {
    entries: Vec<PageTableEntry>,
}

impl PageTable {
    pub closed spec fn entries(&self) -> Seq<PageTableEntry> {
        self.entries@
    }

    /// A table of zeroed entries.
    pub fn new() -> (r: Self)
        ensures
            r.entries().len() == PTE_COUNT,
            forall|i: int| 0 <= i < PTE_COUNT ==> #[trigger] r.entries()[i].raw == 0,
    {
        let mut entries: Vec<PageTableEntry> = Vec::new();
        let mut i: usize = 0;
        while i < PTE_COUNT
            invariant
                i <= PTE_COUNT,
                entries@.len() == i,
                forall|k: int| 0 <= k < i ==> #[trigger] entries@[k].raw == 0,
            decreases PTE_COUNT - i,
        {
            entries.push(PageTableEntry::new());
            i = i + 1;
        }
        PageTable { entries }
    }

    /// Zeroes every entry.
    pub fn zero_out(&mut self)
        requires
            old(self).entries().len() == PTE_COUNT,
        ensures
            final(self).entries().len() == PTE_COUNT,
            forall|i: int| 0 <= i < final(self).entries().len() ==> #[trigger] final(self).entries()[i].raw == 0,
    {
        let n = self.entries.len();
        let mut i: usize = 0;
        while i < n
            invariant
                i <= n,
                n == self.entries@.len(),
                forall|k: int| 0 <= k < i ==> #[trigger] self.entries@[k].raw == 0,
            decreases n - i,
        {
            let mut e = self.entries[i];
            e.zero_out();
            self.entries.set(i, e);
            i = i + 1;
        }
    }

    /// The entries, in order.
    pub fn iter(&self) -> (r: &[PageTableEntry])
        ensures
            r@ == self.entries(),
    {
        self.entries.as_slice()
    }

    /// Replaces entry `i`.
    pub fn iter_mut(&mut self, i: usize, entry: PageTableEntry)
        requires
            i < old(self).entries().len(),
        ensures
            final(self).entries().len() == old(self).entries().len(),
            final(self).entries() == old(self).entries().update(i as int, entry),
    {
        self.entries.set(i, entry);
    }
}

} // verus!
