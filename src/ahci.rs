//! Descriptors of the AHCI disk controller: register blocks, DMA
//! structures and the masks of their bits.

use vstd::prelude::*;
use crate::util::Volatile;
use crate::ide_controller::{Command as AtaCommand, command_code};

verus! {

/// The command value written into the first word of a command FIS.
pub const CFIS_COMMAND: u32 = 0x8027;

/// Frame information structure types.
#[derive(Clone, Copy, PartialEq, Eq, Structural, Debug)]
pub enum FISType {
    RegHostToDevice,
    RegDeviceToHost,
    DmaActivate,
    DmaSetup,
    Data,
    Bist,
    PioSetup,
    SetDeviceBits,
}

/// The value this variant stands for.
pub open spec fn f_i_s_type_value(v: FISType) -> u8 {
    match v {
        FISType::RegHostToDevice => 0x27,
        FISType::RegDeviceToHost => 0x34,
        FISType::DmaActivate => 0x39,
        FISType::DmaSetup => 0x41,
        FISType::Data => 0x46,
        FISType::Bist => 0x58,
        FISType::PioSetup => 0x5F,
        FISType::SetDeviceBits => 0xA1,
    }
}

impl FISType {
    /// The value this variant stands for.
    pub fn value(&self) -> (r: u8)
        ensures
            r == f_i_s_type_value(*self),
    {
        match self {
            FISType::RegHostToDevice => 0x27,
            FISType::RegDeviceToHost => 0x34,
            FISType::DmaActivate => 0x39,
            FISType::DmaSetup => 0x41,
            FISType::Data => 0x46,
            FISType::Bist => 0x58,
            FISType::PioSetup => 0x5F,
            FISType::SetDeviceBits => 0xA1,
        }
    }
}

/// Bits of a port's command and status register.
#[derive(Clone, Copy, PartialEq, Eq, Structural, Debug)]
pub enum PortCommandMasks {
    InterfaceMask,
    InterfaceActive,
    InterfaceIdle,
    CommandRunning,
    RFISRunning,
    RFISEnable,
    RFISClear,
    PowerUp,
    Start,
}

/// The value this variant stands for.
pub open spec fn port_command_masks_value(v: PortCommandMasks) -> u32 {
    match v {
        PortCommandMasks::InterfaceMask => 0xF000_0000,
        PortCommandMasks::InterfaceActive => 0x1000_0000,
        PortCommandMasks::InterfaceIdle => 0x0,
        PortCommandMasks::CommandRunning => 0x8000,
        PortCommandMasks::RFISRunning => 0x4000,
        PortCommandMasks::RFISEnable => 0x10,
        PortCommandMasks::RFISClear => 0x8,
        PortCommandMasks::PowerUp => 0x6,
        PortCommandMasks::Start => 0x1,
    }
}

impl PortCommandMasks {
    /// The value this variant stands for.
    pub fn value(&self) -> (r: u32)
        ensures
            r == port_command_masks_value(*self),
    {
        match self {
            PortCommandMasks::InterfaceMask => 0xF000_0000,
            PortCommandMasks::InterfaceActive => 0x1000_0000,
            PortCommandMasks::InterfaceIdle => 0x0,
            PortCommandMasks::CommandRunning => 0x8000,
            PortCommandMasks::RFISRunning => 0x4000,
            PortCommandMasks::RFISEnable => 0x10,
            PortCommandMasks::RFISClear => 0x8,
            PortCommandMasks::PowerUp => 0x6,
            PortCommandMasks::Start => 0x1,
        }
    }
}

/// Bits of the received task file status.
#[derive(Clone, Copy, PartialEq, Eq, Structural, Debug)]
pub enum RStatusMasks {
    Busy,
    DataReq,
    Error,
}

/// The value this variant stands for.
pub open spec fn r_status_masks_value(v: RStatusMasks) -> u32 {
    match v {
        RStatusMasks::Busy => 0x80,
        RStatusMasks::DataReq => 0x8,
        RStatusMasks::Error => 0x1,
    }
}

impl RStatusMasks {
    /// The value this variant stands for.
    pub fn value(&self) -> (r: u32)
        ensures
            r == r_status_masks_value(*self),
    {
        match self {
            RStatusMasks::Busy => 0x80,
            RStatusMasks::DataReq => 0x8,
            RStatusMasks::Error => 0x1,
        }
    }
}

/// Bits of a port's interrupt status.
#[derive(Clone, Copy, PartialEq, Eq, Structural, Debug)]
pub enum InterruptMasks {
    DeviceToHost,
    NCQComplete,
    ErrorMask,
    FatalErrorMask,
}

/// The value this variant stands for.
pub open spec fn interrupt_masks_value(v: InterruptMasks) -> u32 {
    match v {
        InterruptMasks::DeviceToHost => 0x1,
        InterruptMasks::NCQComplete => 0x8,
        InterruptMasks::ErrorMask => 0x7D80_0010,
        InterruptMasks::FatalErrorMask => 0x7800_0000,
    }
}

impl InterruptMasks {
    /// The value this variant stands for.
    pub fn value(&self) -> (r: u32)
        ensures
            r == interrupt_masks_value(*self),
    {
        match self {
            InterruptMasks::DeviceToHost => 0x1,
            InterruptMasks::NCQComplete => 0x8,
            InterruptMasks::ErrorMask => 0x7D80_0010,
            InterruptMasks::FatalErrorMask => 0x7800_0000,
        }
    }
}

/// Bits of the global HBA control register.
#[derive(Clone, Copy, PartialEq, Eq, Structural, Debug)]
pub enum GHCMasks {
    InterruptEnable,
    AHCIEnable,
}

/// The value this variant stands for.
pub open spec fn g_h_c_masks_value(v: GHCMasks) -> u32 {
    match v {
        GHCMasks::InterruptEnable => 0x2,
        GHCMasks::AHCIEnable => 0x8000_0000,
    }
}

impl GHCMasks {
    /// The value this variant stands for.
    pub fn value(&self) -> (r: u32)
        ensures
            r == g_h_c_masks_value(*self),
    {
        match self {
            GHCMasks::InterruptEnable => 0x2,
            GHCMasks::AHCIEnable => 0x8000_0000,
        }
    }
}

/// Flags of a command header.
#[derive(Clone, Copy, PartialEq, Eq, Structural, Debug)]
pub enum CHFlag {
    Clear,
    Write,
}

/// The value this variant stands for.
pub open spec fn c_h_flag_value(v: CHFlag) -> u32 {
    match v {
        CHFlag::Clear => 0x400,
        CHFlag::Write => 0x40,
    }
}

impl CHFlag {
    /// The value this variant stands for.
    pub fn value(&self) -> (r: u32)
        ensures
            r == c_h_flag_value(*self),
    {
        match self {
            CHFlag::Clear => 0x400,
            CHFlag::Write => 0x40,
        }
    }
}

/// Errors of a disk transfer.
#[derive(Clone, Copy, PartialEq, Eq, Structural, Debug)]
pub enum IOError {
    TryAgain,
    BadData,
}

/// The value this variant stands for.
pub open spec fn i_o_error_value(v: IOError) -> u8 {
    match v {
        IOError::TryAgain => 12,
        IOError::BadData => 13,
    }
}

impl IOError {
    /// The value this variant stands for.
    pub fn value(&self) -> (r: u8)
        ensures
            r == i_o_error_value(*self),
    {
        match self {
            IOError::TryAgain => 12,
            IOError::BadData => 13,
        }
    }
}

/// Queued transfer commands.
#[derive(Clone, Copy, PartialEq, Eq, Structural, Debug)]
pub enum Command {
    Read,
    Write,
}

/// The value this variant stands for.
pub open spec fn command_value(v: Command) -> u32 {
    match v {
        Command::Read => 0x60,
        Command::Write => 0x61,
    }
}

impl Command {
    /// The value this variant stands for.
    pub fn value(&self) -> (r: u32)
        ensures
            r == command_value(*self),
    {
        match self {
            Command::Read => 0x60,
            Command::Write => 0x61,
        }
    }
}

/// Bytes in one sector.
pub const SECTOR_SIZE: u32 = 512;

/// The four command words of a queued (NCQ) transfer in slot `slot`: the
/// command and the low byte of the sector count; the low 24 bits of the
/// sector, the forced-unit-access bit and the LBA-mode bit; the next 24
/// bits of the sector and the high byte of the count; the slot as tag and
/// the priority.
pub open spec fn ncq_words(slot: u32, command: Command, sector: u64, fua: bool, priority: u32, nsectors: u32) -> Seq<u32> {
    seq![
        CFIS_COMMAND | (command_value(command) << 16u32) | ((nsectors & 0xFF) << 24u32),
        ((sector as u32) & 0xFF_FFFF) | ((if fua { 1u32 } else { 0u32 }) << 31u32) | 0x4000_0000,
        ((sector >> 24u64) as u32) | ((nsectors & 0xFF00) << 16u32),
        (slot << 3u32) | (priority << 14u32),
    ]
}

/// The command words of a queued transfer of `nsectors` sectors.
pub fn ncq_fis(slot: u32, command: Command, sector: u64, fua: bool, priority: u32, nsectors: u32) -> (r: [u32; 4])
    requires
        slot < 32,
        priority < 4,
    ensures
        r@ == ncq_words(slot, command, sector, fua, priority, nsectors),
{
    let f: u32 = if fua { 1 } else { 0 };
    let r = [
        CFIS_COMMAND | (command.value() << 16u32) | ((nsectors & 0xFF) << 24u32),
        ((sector as u32) & 0xFF_FFFF) | (f << 31u32) | 0x4000_0000,
        ((sector >> 24u64) as u32) | ((nsectors & 0xFF00) << 16u32),
        (slot << 3u32) | (priority << 14u32),
    ];
    assert(r@ =~= ncq_words(slot, command, sector, fua, priority, nsectors));
    r
}

/// The command words of a non-queued command: the command and the low byte
/// of the features, the high byte of the features, and the sector count,
/// which a set-features command takes from `count` unless `count` is all
/// ones.
pub fn meta_fis(command: AtaCommand, features: u32, count: u32, nsectors: u32) -> (r: [u32; 4])
    ensures
        r@ == seq![
            CFIS_COMMAND | ((command_code(command) as u32) << 16u32) | (features << 24u32),
            0u32,
            (features & 0xFF00) << 16u32,
            if command == AtaCommand::SetFeatures && count != u32::MAX { count } else { nsectors },
        ],
{
    let mut num_sectors = nsectors;
    if command == AtaCommand::SetFeatures && count != u32::MAX {
        num_sectors = count;
    }
    let r = [
        CFIS_COMMAND | ((command.code() as u32) << 16u32) | (features << 24u32),
        0,
        (features & 0xFF00) << 16u32,
        num_sectors,
    ];
    assert(r@ =~= seq![
        CFIS_COMMAND | ((command_code(command) as u32) << 16u32) | (features << 24u32),
        0u32,
        (features & 0xFF00) << 16u32,
        if command == AtaCommand::SetFeatures && count != u32::MAX { count } else { nsectors },
    ]);
    r
}

/// A port's SATA status shows a device: detection state 3, or an
/// interface power management state of 2, 6 or 8.
pub fn sstatus_active(sstatus: u32) -> (r: bool)
    ensures
        r == ((sstatus & 0x03) == 3 || ((1u32 << ((sstatus & 0xF00) >> 8u32)) & 0x144) != 0),
{
    assert((sstatus & 0xF00) >> 8u32 < 16) by (bit_vector);
    (sstatus & 0x03) == 3 || ((1u32 << ((sstatus & 0xF00) >> 8u32)) & 0x144) != 0
}

/// The slots whose commands completed: outstanding, and no longer marked
/// active by the device.
pub fn completed_slots(outstanding: u16, ncq_active: u32) -> (r: u16)
    ensures
        r == outstanding & !(ncq_active as u16),
{
    outstanding & !(ncq_active as u16)
}

/// The registers of one port.
pub struct PortRegisters {
    pub cmdlist_addr: Volatile<u64>,
    pub rfis_base_addr: Volatile<u64>,
    pub interrupt_status: Volatile<u32>,
    pub interrupt_enable: Volatile<u32>,
    pub command_and_status: Volatile<u32>,
    pub reserved2: u32,
    pub tfd: Volatile<u32>,
    pub sig: Volatile<u32>,
    pub sstatus: Volatile<u32>,
    pub scontrol: Volatile<u32>,
    pub serror: Volatile<u32>,
    pub ncq_active: Volatile<u32>,
    pub command_mask: Volatile<u32>,
    pub sata_notification: Volatile<u32>,
    pub fis_switch_control: Volatile<u32>,
    pub device_sleep: Volatile<u32>,
    pub vendor_specific: [u32; 14],
}

/// The controller's global registers.
pub struct Registers {
    pub capabilities: Volatile<u32>,
    pub global_hba_control: Volatile<u32>,
    pub interrupt_status: Volatile<u32>,
    pub port_mask: Volatile<u32>,
    pub ahci_version: Volatile<u32>,
    pub ccc_control: Volatile<u32>,
    pub ccc_port_mask: Volatile<u32>,
    pub em_loc: Volatile<u32>,
    pub em_control: Volatile<u32>,
    pub cap2: Volatile<u32>,
    pub bohc: Volatile<u32>,
    pub reserved: [u32; 53],
}

/// One physical region descriptor of a command table.
pub struct PRD {
    pub address: u64,
    pub reserved: u32,
    pub data_byte_count: u32,
}

/// A command table: the command FIS and its region descriptors.
pub struct CommandTable {
    pub cfis: [u32; 16],
    pub acmd: [u32; 4],
    pub reserved: [u32; 12],
    pub prdt: [PRD; 16],
}

/// One slot of a port's command list.
pub struct CommandHeader {
    pub flags: u16,
    pub num_buffers: u16,
    pub buffer_byte_pos: u32,
    pub command_table_address: u64,
    pub reserved: [u64; 2],
}

/// The area where the controller posts received FISes.
pub struct RFISState {
    pub rfis: [Volatile<u32>; 64],
}

/// Everything a port shares with the controller for DMA.
pub struct DMAState {
    pub ch: [CommandHeader; 32],
    pub rfis: RFISState,
    pub ct: [CommandTable; 32],
}

} // verus!
