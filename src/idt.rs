//! The interrupt descriptor table: entries and their option bits.

use vstd::prelude::*;
use crate::x86_64::CanonicalAddress;

verus! {

/// Number of entries of the table.
pub const IDT_ENTRIES: usize = 256;

/// Rings that may invoke a gate.
#[derive(Clone, Copy, PartialEq, Eq, Structural, Debug)]
pub enum PrivilegeLevel {
    Kernel,
    User,
}

/// The value this variant stands for.
pub open spec fn privilege_level_value(v: PrivilegeLevel) -> u16 {
    match v {
        PrivilegeLevel::Kernel => 0,
        PrivilegeLevel::User => 3,
    }
}

impl PrivilegeLevel {
    /// The value this variant stands for.
    pub fn value(&self) -> (r: u16)
        ensures
            r == privilege_level_value(*self),
    {
        match self {
            PrivilegeLevel::Kernel => 0,
            PrivilegeLevel::User => 3,
        }
    }
}

/// The option bits of a gate.
#[derive(Clone, Copy, PartialEq, Eq, Structural, Debug)]
pub struct EntryOptions {
    pub bits: u16,
}

impl EntryOptions {
    /// Options with the must-be-one bits set and the entry not present.
    pub fn minimal() -> (r: Self)
        ensures
            r.bits == 0x0E00,
    {
        EntryOptions { bits: 0x0E00 }
    }

    pub fn set_present(&mut self, present: bool)
        ensures
            present ==> final(self).bits == old(self).bits | 0x8000,
            !present ==> final(self).bits == old(self).bits & 0x7FFF,
    {
        if present {
            self.bits = self.bits | 0x8000;
        } else {
            self.bits = self.bits & 0x7FFF;
        }
    }

    /// Chooses the entry's kind: with `disable` an interrupt entry (bit 8
    /// clear), which masks interrupts while the handler runs; without it a
    /// trap entry (bit 8 set). The other bits stay.
    pub fn disable_interrupts_when_invoked(&mut self, disable: bool)
        ensures
            disable ==> final(self).bits == old(self).bits & !0x100u16,
            !disable ==> final(self).bits == old(self).bits | 0x100u16,
    {
        if disable {
            self.bits = self.bits & !0x100u16;
        } else {
            self.bits = self.bits | 0x100u16;
        }
    }

    /// Sets the two privilege-level bits, 13 and 14, to `privilege_level`,
    /// keeping the others.
    pub fn set_privilege_level(&mut self, privilege_level: PrivilegeLevel)
        ensures
            final(self).bits == (old(self).bits & !0x6000u16) | (privilege_level_value(privilege_level) << 13u16),
            (final(self).bits >> 13u16) & 3 == privilege_level_value(privilege_level),
            final(self).bits & !0x6000u16 == old(self).bits & !0x6000u16,
    {
        let level = privilege_level.value();
        let old_bits = self.bits;
        assert(level <= 3);
        assert(((old_bits & !0x6000u16) | (level << 13u16)) >> 13u16 & 3 == level
            && ((old_bits & !0x6000u16) | (level << 13u16)) & !0x6000u16 == old_bits & !0x6000u16) by (bit_vector)
            requires
                level <= 3,
        ;
        self.bits = (old_bits & !0x6000u16) | (level << 13u16);
    }
}

/// One gate of the table.
#[derive(Clone, Copy, PartialEq, Eq, Structural, Debug)]
pub struct Entry {
    pub pointer_low: u16,
    pub gdt_selector: u16,
    pub options: EntryOptions,
    pub pointer_middle: u16,
    pub pointer_high: u32,
    pub zero: u32,
}

impl Entry {
    /// A gate with no handler and minimal options.
    pub fn default() -> (r: Self)
        ensures
            r.pointer_low == 0 && r.gdt_selector == 0 && r.pointer_middle == 0 && r.pointer_high == 0 && r.zero == 0,
            r.options.bits == 0x0E00,
    {
        Entry {
            pointer_low: 0,
            gdt_selector: 0,
            options: EntryOptions::minimal(),
            pointer_middle: 0,
            pointer_high: 0,
            zero: 0,
        }
    }

    /// Points the entry at `handler_addr` in code segment `selector` and
    /// marks it present.
    pub fn set_handler_addr(&mut self, handler_addr: u64, selector: u16)
        ensures
            final(self).pointer_low == handler_addr as u16,
            final(self).pointer_middle == (handler_addr >> 16u64) as u16,
            final(self).pointer_high == (handler_addr >> 32u64) as u32,
            final(self).gdt_selector == selector,
            final(self).options.bits == old(self).options.bits | 0x8000,
            final(self).zero == old(self).zero,
    {
        self.pointer_low = handler_addr as u16;
        self.pointer_middle = (handler_addr >> 16u64) as u16;
        self.pointer_high = (handler_addr >> 32u64) as u32;
        self.gdt_selector = selector;
        self.options.set_present(true);
    }
}

/// A gate with no handler and minimal options.
pub open spec fn default_entry() -> Entry {
    Entry {
        pointer_low: 0,
        gdt_selector: 0,
        options: EntryOptions { bits: 0x0E00 },
        pointer_middle: 0,
        pointer_high: 0,
        zero: 0,
    }
}

/// The interrupt descriptor table: the 32 exception gates, then the gates
/// of the user interrupts.
pub struct DescriptorTable {
    entries: Vec<Entry>,
}

impl DescriptorTable {
    pub closed spec fn entries(&self) -> Seq<Entry> {
        self.entries@
    }

    /// A table of default gates.
    pub fn default() -> (r: Self)
        ensures
            r.entries().len() == IDT_ENTRIES,
            forall|i: int| 0 <= i < IDT_ENTRIES ==> #[trigger] r.entries()[i] == default_entry(),
    {
        let mut entries: Vec<Entry> = Vec::new();
        let mut i: usize = 0;
        while i < IDT_ENTRIES
            invariant
                i <= IDT_ENTRIES,
                entries@.len() == i,
                forall|k: int| 0 <= k < i ==> #[trigger] entries@[k] == default_entry(),
            decreases IDT_ENTRIES - i,
        {
            entries.push(Entry::default());
            i = i + 1;
        }
        DescriptorTable { entries }
    }
}

/// What the processor pushes when it takes an interrupt.
#[derive(Clone, Copy, PartialEq, Eq, Structural, Debug)]
pub struct StackFrameInfo {
    pub rip: CanonicalAddress,
    pub cs: u64,
    pub rflags: u64,
    pub rsp: CanonicalAddress,
    pub ss: u64,
}

/// The interrupt stack frame handed to a handler.
#[derive(Clone, Copy, PartialEq, Eq, Structural, Debug)]
pub struct StackFrame {
    pub info: StackFrameInfo,
}

/// The error code of a page fault.
#[derive(Clone, Copy, PartialEq, Eq, Structural, Debug)]
pub struct PageFaultErrorCode {
    pub code: u64,
}

impl PageFaultErrorCode {
    /// The fault was a protection violation on a present page.
    pub fn present(&self) -> (r: bool)
        ensures
            r == (self.code & 1 != 0),
    {
        self.code & 1 != 0
    }

    /// The access was a write.
    pub fn write(&self) -> (r: bool)
        ensures
            r == (self.code & 2 != 0),
    {
        self.code & 2 != 0
    }

    /// The access came from user mode.
    pub fn user(&self) -> (r: bool)
        ensures
            r == (self.code & 4 != 0),
    {
        self.code & 4 != 0
    }

    /// A reserved bit of an entry was set.
    pub fn reserved(&self) -> (r: bool)
        ensures
            r == (self.code & 8 != 0),
    {
        self.code & 8 != 0
    }

    /// The access was an instruction fetch.
    pub fn instruction_fetch(&self) -> (r: bool)
        ensures
            r == (self.code & 16 != 0),
    {
        self.code & 16 != 0
    }
}

} // verus!
