//! The IDE controller: its registers, commands and the decisions it takes
//! before talking to the ports.

use vstd::prelude::*;

verus! {

/// The control byte bit that selects the high-order bytes of 48-bit LBA.
pub const HIGH_ORDER_BYTE: u8 = 0x80;

/// Where a register lives.
#[derive(Clone, Copy, PartialEq, Eq, Structural, Debug)]
pub enum RegisterType {
    HighLevel,
    LowLevel,
    DeviceControlOrStatus,
    BusMasterIDE,
}

/// ATA commands.
#[derive(Clone, Copy, PartialEq, Eq, Structural, Debug)]
pub enum Command {
    ReadPIO,
    ReadPIOExt,
    ReadDMA,
    ReadDMAExt,
    WritePIO,
    WritePIOExt,
    WriteDMA,
    WriteDMAExt,
    CacheFlush,
    CacheFlushExt,
    Packet,
    IdentifyPacket,
    Identify,
    ReadFPDMAQueued,
    WriteFPDMAQueued,
    SetFeatures,
}

/// The command byte.
pub open spec fn command_code(v: Command) -> u8 {
    match v {
        Command::ReadPIO => 0x20,
        Command::ReadPIOExt => 0x24,
        Command::ReadDMA => 0xC8,
        Command::ReadDMAExt => 0x25,
        Command::WritePIO => 0x30,
        Command::WritePIOExt => 0x34,
        Command::WriteDMA => 0xCA,
        Command::WriteDMAExt => 0x35,
        Command::CacheFlush => 0xE7,
        Command::CacheFlushExt => 0xEA,
        Command::Packet => 0xA0,
        Command::IdentifyPacket => 0xA1,
        Command::Identify => 0xEC,
        Command::ReadFPDMAQueued => 0x60,
        Command::WriteFPDMAQueued => 0x61,
        Command::SetFeatures => 0xEF,
    }
}

impl Command {
    /// The command byte.
    pub fn code(&self) -> (r: u8)
        ensures
            r == command_code(*self),
    {
        match self {
            Command::ReadPIO => 0x20,
            Command::ReadPIOExt => 0x24,
            Command::ReadDMA => 0xC8,
            Command::ReadDMAExt => 0x25,
            Command::WritePIO => 0x30,
            Command::WritePIOExt => 0x34,
            Command::WriteDMA => 0xCA,
            Command::WriteDMAExt => 0x35,
            Command::CacheFlush => 0xE7,
            Command::CacheFlushExt => 0xEA,
            Command::Packet => 0xA0,
            Command::IdentifyPacket => 0xA1,
            Command::Identify => 0xEC,
            Command::ReadFPDMAQueued => 0x60,
            Command::WriteFPDMAQueued => 0x61,
            Command::SetFeatures => 0xEF,
        }
    }
}

/// Registers of a channel, by their index.
#[derive(Clone, Copy, PartialEq, Eq, Structural, Debug)]
pub enum Register {
    Data,
    ErrorOrFeatures,
    SecCount0,
    LBA0,
    LBA1,
    LBA2,
    HDDevSel,
    CommandOrStatus,
    SecCount1,
    LBA3,
    LBA4,
    LBA5,
    Control,
    DevAddress,
}

/// The register's index.
pub open spec fn register_index(v: Register) -> u8 {
    match v {
        Register::Data => 0x00,
        Register::ErrorOrFeatures => 0x01,
        Register::SecCount0 => 0x02,
        Register::LBA0 => 0x03,
        Register::LBA1 => 0x04,
        Register::LBA2 => 0x05,
        Register::HDDevSel => 0x06,
        Register::CommandOrStatus => 0x07,
        Register::SecCount1 => 0x08,
        Register::LBA3 => 0x09,
        Register::LBA4 => 0x0A,
        Register::LBA5 => 0x0B,
        Register::Control => 0x0C,
        Register::DevAddress => 0x0D,
    }
}

impl Register {
    /// The register's index.
    pub fn index(&self) -> (r: u8)
        ensures
            r == register_index(*self),
    {
        match self {
            Register::Data => 0x00,
            Register::ErrorOrFeatures => 0x01,
            Register::SecCount0 => 0x02,
            Register::LBA0 => 0x03,
            Register::LBA1 => 0x04,
            Register::LBA2 => 0x05,
            Register::HDDevSel => 0x06,
            Register::CommandOrStatus => 0x07,
            Register::SecCount1 => 0x08,
            Register::LBA3 => 0x09,
            Register::LBA4 => 0x0A,
            Register::LBA5 => 0x0B,
            Register::Control => 0x0C,
            Register::DevAddress => 0x0D,
        }
    }
}

/// The two channels of a controller.
#[derive(Clone, Copy, PartialEq, Eq, Structural, Debug)]
pub enum ChannelType {
    Primary,
    Secondary,
}

/// The channel's index.
pub open spec fn channel_type_index(v: ChannelType) -> u8 {
    match v {
        ChannelType::Primary => 0x0,
        ChannelType::Secondary => 0x1,
    }
}

impl ChannelType {
    /// The channel's index.
    pub fn index(&self) -> (r: u8)
        ensures
            r == channel_type_index(*self),
    {
        match self {
            ChannelType::Primary => 0x0,
            ChannelType::Secondary => 0x1,
        }
    }
}

/// Offsets of a channel's bus master registers.
#[derive(Clone, Copy, PartialEq, Eq, Structural, Debug)]
pub enum PRDChannelType {
    Primary,
    Secondary,
}

/// The offset of the channel's registers.
pub open spec fn p_r_d_channel_type_offset(v: PRDChannelType) -> u8 {
    match v {
        PRDChannelType::Primary => 0x0,
        PRDChannelType::Secondary => 0x8,
    }
}

impl PRDChannelType {
    /// The offset of the channel's registers.
    pub fn offset(&self) -> (r: u8)
        ensures
            r == p_r_d_channel_type_offset(*self),
    {
        match self {
            PRDChannelType::Primary => 0x0,
            PRDChannelType::Secondary => 0x8,
        }
    }
}

/// The register type of a register index: 0 to 7 low-level, 8 to 11
/// high-level, 12 and 13 device control or status, beyond that bus master.
pub open spec fn register_type_of(i: u8) -> RegisterType {
    if i < 0x08 {
        RegisterType::LowLevel
    } else if i <= 0x0B {
        RegisterType::HighLevel
    } else if i < 0x0E {
        RegisterType::DeviceControlOrStatus
    } else {
        RegisterType::BusMasterIDE
    }
}

impl Register {
    pub fn to_register_type(&self) -> (r: RegisterType)
        ensures
            r == register_type_of(register_index(*self)),
    {
        let u8_reg = self.index();
        if u8_reg < 0x08 {
            RegisterType::LowLevel
        } else if u8_reg >= 0x08 && u8_reg <= 0x0B {
            RegisterType::HighLevel
        } else if u8_reg < 0x0E {
            RegisterType::DeviceControlOrStatus
        } else {
            RegisterType::BusMasterIDE
        }
    }
}

/// The ports of one channel.
#[derive(Clone, Copy, PartialEq, Eq, Structural, Debug)]
pub struct ChannelRegister {
    pub io_base: u16,
    pub control: u16,
    pub bus_master_ide: u16,
    pub no_interrupts: bool,
}

/// An IDE controller on the PCI bus.
pub struct IDEController {
    pub channel_registers: [ChannelRegister; 2],
    pub bus: u8,
    pub slot: u8,
}

impl IDEController {
    /// Reading into the buffer is not supported: nothing happens.
    pub fn read_buffer(&mut self, channel: ChannelType, reg: Register, count: u32)
        ensures
            final(self).bus == old(self).bus,
            final(self).slot == old(self).slot,
            final(self).channel_registers@ == old(self).channel_registers@,
    {
    }

    /// DMA reads are not supported: nothing happens.
    pub fn read_drive_dma(channel: ChannelType) {
    }

    /// The byte to write to the control register of `channel_type` to select
    /// the high-order bytes, keeping its interrupt setting.
    pub fn enable_hob(&self, channel_type: ChannelType) -> (r: u8)
        ensures
            r == HIGH_ORDER_BYTE | (if self.channel_registers@[channel_type_index(channel_type) as int].no_interrupts {
                1u8
            } else {
                0u8
            }),
    {
        let channel = self.channel_registers[channel_type.index() as usize];
        let bit: u8 = if channel.no_interrupts { 1 } else { 0 };
        HIGH_ORDER_BYTE | bit
    }

    /// Leaving high-order mode is not supported: nothing happens.
    pub fn disable_hob(&mut self, channel_type: ChannelType)
        ensures
            final(self).bus == old(self).bus,
            final(self).slot == old(self).slot,
            final(self).channel_registers@ == old(self).channel_registers@,
    {
    }
}

/// A physical region descriptor table for bus-master DMA.
pub struct PRDT {
    pub prdt_location: u64,
    pub entry_count: u16,
    pub bus_master_register: u16,
}

impl PRDT {
    /// Setting up a table is not supported: always `Err`.
    pub fn init(entry_count: u16, bus_master_register: u16, channel: PRDChannelType) -> (r: Result<Self, ()>)
        ensures
            r is Err,
    {
        Err(())
    }
}

} // verus!
