//! PCI configuration space: register offsets and bus enumeration state.

use vstd::prelude::*;

verus! {

/// Registers of a device's configuration header.
#[derive(Clone, Copy, PartialEq, Eq, Structural, Debug)]
pub enum Register {
    VendorId,
    DeviceId,
    Command,
    Status,
    RevisionId,
    ProgIF,
    Subclass,
    ClassCode,
    CacheLineSize,
    LatencyTimer,
    HeaderType,
    BIST,
    GDBaseAddress0,
    GDBaseAddress1,
    GDBaseAddress2,
    GDBaseAddress3,
    GDBaseAddress4,
    GDBaseAddress5,
    CardBusCISPointer,
    SubsystemVendorID,
    SubsystemID,
    ExpansionROMBaseAddr,
    CapabilitiesPointer,
    InterruptLine,
    InterruptPIN,
    MinGrant,
    MaxLatency,
}

/// The register's byte offset.
pub open spec fn register_offset(v: Register) -> u8 {
    match v {
        Register::VendorId => 0x0,
        Register::DeviceId => 0x2,
        Register::Command => 0x4,
        Register::Status => 0x6,
        Register::RevisionId => 0x8,
        Register::ProgIF => 0x9,
        Register::Subclass => 0xA,
        Register::ClassCode => 0xB,
        Register::CacheLineSize => 0xC,
        Register::LatencyTimer => 0xD,
        Register::HeaderType => 0xE,
        Register::BIST => 0xF,
        Register::GDBaseAddress0 => 0x10,
        Register::GDBaseAddress1 => 0x14,
        Register::GDBaseAddress2 => 0x18,
        Register::GDBaseAddress3 => 0x1C,
        Register::GDBaseAddress4 => 0x20,
        Register::GDBaseAddress5 => 0x24,
        Register::CardBusCISPointer => 0x28,
        Register::SubsystemVendorID => 0x2C,
        Register::SubsystemID => 0x2E,
        Register::ExpansionROMBaseAddr => 0x30,
        Register::CapabilitiesPointer => 0x34,
        Register::InterruptLine => 0x3C,
        Register::InterruptPIN => 0x3D,
        Register::MinGrant => 0x3E,
        Register::MaxLatency => 0x3F,
    }
}

impl Register {
    /// The register's byte offset.
    pub fn offset(&self) -> (r: u8)
        ensures
            r == register_offset(*self),
    {
        match self {
            Register::VendorId => 0x0,
            Register::DeviceId => 0x2,
            Register::Command => 0x4,
            Register::Status => 0x6,
            Register::RevisionId => 0x8,
            Register::ProgIF => 0x9,
            Register::Subclass => 0xA,
            Register::ClassCode => 0xB,
            Register::CacheLineSize => 0xC,
            Register::LatencyTimer => 0xD,
            Register::HeaderType => 0xE,
            Register::BIST => 0xF,
            Register::GDBaseAddress0 => 0x10,
            Register::GDBaseAddress1 => 0x14,
            Register::GDBaseAddress2 => 0x18,
            Register::GDBaseAddress3 => 0x1C,
            Register::GDBaseAddress4 => 0x20,
            Register::GDBaseAddress5 => 0x24,
            Register::CardBusCISPointer => 0x28,
            Register::SubsystemVendorID => 0x2C,
            Register::SubsystemID => 0x2E,
            Register::ExpansionROMBaseAddr => 0x30,
            Register::CapabilitiesPointer => 0x34,
            Register::InterruptLine => 0x3C,
            Register::InterruptPIN => 0x3D,
            Register::MinGrant => 0x3E,
            Register::MaxLatency => 0x3F,
        }
    }
}

/// Buses that enumeration visits.
pub const MAX_BUSES: u32 = 0x8;
/// Slots on a bus.
pub const MAX_SLOTS: u32 = 32;
/// Functions of a device.
pub const MAX_FUNCS: u32 = 8;
/// The bit of the command register that disables interrupts.
pub const INTERRUPT_DISABLE: u16 = 0x400;

/// The value written to the configuration address port to reach register
/// `offset` of function `func_number` of device `slot` on `bus`: the enable
/// bit, then bus, slot, function, and the register's dword offset.
pub fn pci_address(bus: u32, slot: u32, func_number: u32, offset: Register) -> (r: u32)
    requires
        bus < 256,
        slot < 32,
        func_number < 8,
    ensures
        r == 0x8000_0000u32 | (bus << 16u32) | (slot << 11u32) | (func_number << 8u32) | ((
        register_offset(offset) as u32) & 0xFC),
{
    let offset_u32 = offset.offset() as u32;
    0x8000_0000u32 | (bus << 16u32) | (slot << 11u32) | (func_number << 8u32) | (offset_u32 & 0xFC)
}

/// The 16-bit register at `offset` inside the dword read from its
/// configuration address.
pub fn select_word(dword: u32, offset: Register) -> (r: u16)
    ensures
        register_offset(offset) & 2 != 0 ==> r == (dword >> 16u32) as u16,
        register_offset(offset) & 2 == 0 ==> r == (dword & 0xFFFF) as u16,
{
    if offset.offset() & 2 != 0 {
        (dword >> 16u32) as u16
    } else {
        (dword & 0xFFFF) as u16
    }
}

/// The byte at `offset` inside the 16-bit word that holds it.
pub fn select_byte(word: u16, offset: Register) -> (r: u8)
    ensures
        register_offset(offset) & 1 != 0 ==> r == (word >> 8u16) as u8,
        register_offset(offset) & 1 == 0 ==> r == (word & 0xFF) as u8,
{
    if offset.offset() & 1 != 0 {
        (word >> 8u16) as u8
    } else {
        (word & 0xFF) as u8
    }
}

/// The state of PCI bus enumeration.
pub struct PCIState {}

impl PCIState {
    pub fn new() -> (r: Self) {
        PCIState {}
    }

    /// The command register with interrupts enabled.
    pub fn enable_interrupts(&self, command: u16) -> (r: u16)
        ensures
            r == command & !INTERRUPT_DISABLE,
    {
        command & !INTERRUPT_DISABLE
    }

    /// One step of enumeration from (`bus`, `slot`, `func`), where `lthbc`
    /// is the dword at the cache line size register of the current
    /// function: function 0 of a device that is absent or has one function
    /// moves on to the next slot, any other to the next function; either
    /// wraps into the next slot or bus.
    pub fn next_addr(&self, bus: u32, slot: u32, func: u32, lthbc: u32) -> (r: (u32, u32, u32))
        requires
            bus < MAX_BUSES,
            slot < MAX_SLOTS,
            func < MAX_FUNCS,
        ensures
            ({
                let whole_device = func == 0 && (lthbc == u32::MAX || lthbc & 0x80_0000 == 0);
                &&& whole_device && slot + 1 < MAX_SLOTS ==> r == (bus, (slot + 1) as u32, func)
                &&& whole_device && slot + 1 >= MAX_SLOTS ==> r == ((bus + 1) as u32, 0u32, func)
                &&& !whole_device && func + 1 < MAX_FUNCS ==> r == (bus, slot, (func + 1) as u32)
                &&& !whole_device && func + 1 >= MAX_FUNCS && slot + 1 < MAX_SLOTS ==> r == (bus, (slot + 1) as u32, 0u32)
                &&& !whole_device && func + 1 >= MAX_FUNCS && slot + 1 >= MAX_SLOTS ==> r == (bus, MAX_SLOTS, 0u32)
            }),
    {
        if func == 0 && (lthbc == u32::MAX || (lthbc & 0x80_0000 == 0)) {
            if slot + 1 >= MAX_SLOTS {
                (bus + 1, 0, func)
            } else {
                (bus, slot + 1, func)
            }
        } else if func + 1 >= MAX_FUNCS {
            (bus, slot + 1, 0)
        } else {
            (bus, slot, func + 1)
        }
    }
}

} // verus!
