use pan_kernel::acpi::{Rsdp, SdtAddr};
use pan_kernel::circular_buffer::CircularBuffer;
use pan_kernel::ext2::{ErrorHandling, Ext2Fs, FsState, Superblock};
use pan_kernel::ahci::{completed_slots, meta_fis, ncq_fis, sstatus_active, Command as AhciCommand, IOError};
use pan_kernel::ide_controller::Command as AtaCommand;
use pan_kernel::idt::{DescriptorTable, Entry, EntryOptions, PageFaultErrorCode, PrivilegeLevel};
use pan_kernel::ide_controller::{Register, RegisterType, PRDChannelType, PRDT};
use pan_kernel::keyboard::{Command, ExtendedKeyCode, KeyCode, Keyboard, LEDState, ScanCodeSet, SpecialKey};
use pan_kernel::pagetable::{Flag, PageTable, PageTableEntry};
use pan_kernel::pic::{Pic, PicPair};
use pan_kernel::framebuffer::{FrameBufferInfo, FrameBufferWriter, PixelFormat as FbPixelFormat, BACKSPACE};
use pan_kernel::ps2_controller::{PollStep, Ps2Controller};
use pan_kernel::pci::{pci_address, select_byte, select_word, PCIState, Register as PciRegister};
use pan_kernel::util::{kernel_to_physical_address, physical_to_kernel_address};
use pan_kernel::vga_console::{Color, ColorCode, ConsoleWriter, BUFFER_WIDTH};
use pan_kernel::x86_64::{interrupts_enabled, CanonicalAddress};

#[test]
fn scan_codes_decode() {
    assert_eq!(KeyCode::from_byte(0x1E), Some(KeyCode::AsciiDown(b'a')));
    assert_eq!(KeyCode::from_byte(0x39), Some(KeyCode::AsciiDown(b' ')));
    assert_eq!(KeyCode::from_byte(0x01), Some(KeyCode::SpecialDown(SpecialKey::Esc)));
    assert_eq!(KeyCode::from_byte(0x81), Some(KeyCode::SpecialUp(SpecialKey::Esc)));
    assert_eq!(KeyCode::from_byte(0xAA), Some(KeyCode::SpecialUp(SpecialKey::LeftShift)));
    assert_eq!(KeyCode::from_byte(0x00), None);
    assert_eq!(KeyCode::from_byte(0x9E), None);
    assert_eq!(KeyCode::from_extended_byte(0x48), Some(KeyCode::ExtendedDown(ExtendedKeyCode::CursorUp)));
    assert_eq!(KeyCode::from_extended_byte(0x00), None);
    assert_eq!(SpecialKey::try_from(0x3B), Ok(SpecialKey::F1));
    assert_eq!(SpecialKey::try_from(0x1E), Err(()));
}

#[test]
fn keyboard_queues() {
    let mut k = Keyboard::new();
    assert_eq!(k.push_key(0x10), Ok(()));
    assert_eq!(k.push_key(0x11), Ok(()));
    assert_eq!(k.push_key(0x00), Err(()));
    assert_eq!(k.pop_key(), Some(KeyCode::AsciiDown(b'w')));
    assert_eq!(k.pop_key(), Some(KeyCode::AsciiDown(b'q')));
    assert_eq!(k.pop_key(), None);
    let mut leds = LEDState::new();
    leds.enable_caps_lock();
    leds.enable_scroll_lock();
    assert_eq!(leds.bits, 0b101);
    assert_eq!(k.enqueue_command(Command::SetLEDs(leds)), Some(vec![0xED, 0b101]));
    assert_eq!(k.send_next_command(), None);
    assert_eq!(Command::GetSetScanCodeSet(ScanCodeSet::Two).bytes(), vec![0xF0, 2]);
    assert_eq!(Command::Echo.code(), 0xEE);
}

#[test]
fn circular_buffer_drops_oldest() {
    let mut b: CircularBuffer<2, u32> = CircularBuffer::new();
    assert!(b.empty());
    b.push_back(1);
    b.push_back(2);
    b.push_back(3);
    assert_eq!(b.pop_back(), Some(3));
    assert_eq!(b.pop_back(), Some(2));
    assert_eq!(b.pop_back(), None);
}

#[test]
fn page_table_flags() {
    let mut e = PageTableEntry::new();
    e.set_flag(Flag::Present);
    e.set_flag(Flag::Writable);
    assert!(e.get_flag(Flag::Present));
    assert!(!e.get_flag(Flag::Dirty));
    e.clear_flag(Flag::Present);
    assert_eq!(e.raw, 2);
    e.raw = 0x8000_0000_1234_5067;
    assert_eq!(e.addr(), 0x0000_0000_1234_5000);
    e.zero_out();
    assert_eq!(e.raw, 0);
    let mut t = PageTable::new();
    assert_eq!(t.iter().len(), 512);
    t.iter_mut(3, e);
    t.zero_out();
    assert!(t.iter().iter().all(|x| x.raw == 0));
}

#[test]
fn entry_options_bits() {
    let mut o = EntryOptions::minimal();
    assert_eq!(o.bits, 0x0E00);
    o.set_present(true);
    assert_eq!(o.bits, 0x8E00);
    o.set_present(false);
    assert_eq!(o.bits, 0x0E00);
    let mut p = EntryOptions::minimal();
    p.set_privilege_level(PrivilegeLevel::User);
    assert_eq!(p.bits, 0x6E00);
    p.set_privilege_level(PrivilegeLevel::Kernel);
    assert_eq!(p.bits, 0x0E00);
    let mut q = EntryOptions::minimal();
    q.disable_interrupts_when_invoked(false);
    assert_eq!(q.bits, 0x0F00);
    q.disable_interrupts_when_invoked(true);
    assert_eq!(q.bits, 0x0E00);
    let mut e = Entry::default();
    e.set_handler_addr(0x1234_5678_9ABC_DEF0, 8);
    assert_eq!(e.pointer_low, 0xDEF0);
    assert_eq!(e.pointer_middle, 0x9ABC);
    assert_eq!(e.pointer_high, 0x1234_5678);
    assert_eq!(e.options.bits, 0x8E00);
    let code = PageFaultErrorCode { code: 0b10011 };
    assert!(code.present() && code.write() && !code.user() && !code.reserved() && code.instruction_fetch());
    let _t = DescriptorTable::default();
}

#[test]
fn pic_ranges() {
    let pair = PicPair::new(0x20, 0x28);
    assert!(pair.base_pic.handles_interrupt(0x20));
    assert!(pair.base_pic.handles_interrupt(0x21));
    assert!(pair.base_pic.handles_interrupt(0x27));
    assert!(!pair.base_pic.handles_interrupt(0x28));
    assert!(!pair.base_pic.handles_interrupt(0x1F));
    assert!(!Pic { offset: 0x28 }.handles_interrupt(0x21));
    assert!(Pic { offset: 0xF8 }.handles_interrupt(0xFF));
    assert_eq!(pair.end_of_interrupt(0x28), vec![0xA0, 0x20]);
    assert_eq!(pair.end_of_interrupt(0x2F), vec![0xA0, 0x20]);
    assert_eq!(pair.end_of_interrupt(0x21), vec![0x20]);
}

fn rsdp(revision: u8) -> Rsdp {
    Rsdp {
        signature: *b"RSD PTR ",
        checksum: 0,
        oemid: *b"BOCHS ",
        revision,
        rsdt_address: 0x7FE_14D2,
        length: 36,
        xsdt_address: 0x7FE_1000,
        extended_checksum: 0,
        reserved: [0; 3],
    }
}

#[test]
fn rsdp_checks() {
    let mut r = rsdp(0);
    assert!(r.validate_signature());
    // the checksum makes the first 20 bytes sum to zero
    let s: u8 = b"RSD PTR BOCHS ".iter().chain(0x7FE_14D2u32.to_le_bytes().iter()).fold(0u8, |a, &x| a.wrapping_add(x));
    r.checksum = 0u8.wrapping_sub(s);
    assert!(r.validate_checksum());
    assert_eq!(r.get_sdt_addr(), Some(SdtAddr::Rsdt(0x7FE_14D2)));
    r.checksum = s;
    assert!(!r.validate_checksum());
    assert_eq!(r.get_sdt_addr(), None);
    let mut r2 = rsdp(2);
    let s1: u8 = b"RSD PTR BOCHS ".iter().chain([2u8].iter()).chain(0x7FE_14D2u32.to_le_bytes().iter()).fold(0u8, |a, &x| a.wrapping_add(x));
    r2.checksum = 0u8.wrapping_sub(s1);
    assert_eq!(r2.get_sdt_addr(), None);
    let s2: u8 = 36u32.to_le_bytes().iter().chain(0x7FE_1000u64.to_le_bytes().iter()).fold(0u8, |a, &x| a.wrapping_add(x));
    r2.extended_checksum = 0u8.wrapping_sub(s2);
    assert_eq!(r2.get_sdt_addr(), Some(SdtAddr::Xsdt(0x7FE_1000)));
    let mut bad = rsdp(0);
    bad.signature[0] = b'X';
    assert!(!bad.validate_signature());
    let mut tiny = Rsdp {
        signature: [0; 8],
        checksum: 0xFF,
        oemid: [0; 6],
        revision: 0,
        rsdt_address: 0,
        length: 0,
        xsdt_address: 0,
        extended_checksum: 0,
        reserved: [0; 3],
    };
    tiny.signature[0] = 1;
    assert!(tiny.validate_checksum());
}

#[test]
fn misc_values() {
    assert_eq!(ColorCode::new(Color::White, Color::Blue).code, 0x1F);
    assert!(interrupts_enabled(0x202));
    assert!(!interrupts_enabled(0x002));
    assert_eq!(CanonicalAddress::new(0x7FFF_FFFF_F000).addr, 0x7FFF_FFFF_F000);
    assert_eq!(CanonicalAddress::new(0xFFFF_8000_0000_0000).addr, 0xFFFF_8000_0000_0000);
    assert_eq!(kernel_to_physical_address(0xFFFF_8000_0000_1234, 0x20_0000), 0x20_0234);
    assert_eq!(physical_to_kernel_address(0x1000), 0x1000);
    assert_eq!(Register::LBA3.to_register_type(), RegisterType::HighLevel);
    assert_eq!(Register::Data.to_register_type(), RegisterType::LowLevel);
    assert_eq!(Register::Control.to_register_type(), RegisterType::DeviceControlOrStatus);
    assert!(PRDT::init(1, 0, PRDChannelType::Primary).is_err());
}

fn superblock(magic: u16) -> Superblock {
    Superblock {
        inodes_count: 0, blocks_count: 0, r_blocks_count: 0, free_blocks_count: 0, free_inodes_count: 0,
        first_data_block: 0, log_block_size: 0, log_frag_size: 0, blocks_per_group: 0, frags_per_group: 0,
        inodes_per_group: 0, last_mount_time: 0, last_written_time: 0, mnt_count: 0, max_mnt_count: 0,
        magic, state: FsState::Clean, errors: ErrorHandling::Ignore, minor_rev_level: 0, lastcheck: 0,
        checkinterval: 0, creator_os: 0, rev_level: 0, def_resuid: 0, def_resgid: 0, first_ino: 0,
        inode_size: 0, block_group_nr: 0, feature_compat: 0, feature_incompat: 0, feature_ro_compat: 0,
    }
}

#[test]
fn ext2_magic() {
    assert!(superblock(0xEF53).has_signature());
    assert!(Ext2Fs::new(superblock(0xEF53)).is_ok());
    assert!(matches!(Ext2Fs::new(superblock(0x1234)), Err(IOError::BadData)));
}

#[test]
fn console_writes_wraps_and_scrolls() {
    let mut w = ConsoleWriter::new();
    w.write_ascii_string(b"hi\nx");
    assert_eq!(w.char_at(0).ascii_char, b'h');
    assert_eq!(w.char_at(1).ascii_char, b'i');
    assert_eq!(w.char_at(BUFFER_WIDTH).ascii_char, b'x');
    assert_eq!(w.cursor(), (1, 1));
    w.write_ascii_char(0x08);
    assert_eq!(w.char_at(BUFFER_WIDTH).ascii_char, b' ');
    assert_eq!(w.cursor(), (1, 0));
    w.write_ascii_char(0x08);
    assert_eq!(w.cursor(), (0, 79));
    assert_eq!(w.move_cursor(), (79, 0));
    for _ in 0..30 {
        w.write_ascii_char(b'\n');
    }
    assert_eq!(w.cursor(), (24, 0));
    assert_eq!(w.char_at(0).ascii_char, b' ');
    w.change_color(Color::Red, Color::Black);
    w.write_ascii_char(b'z');
    assert_eq!(w.char_at(24 * BUFFER_WIDTH).color_code.code, 0x04);
    let mut line = Vec::new();
    line.resize(81, b'a');
    w.write_ascii_string(&line);
    assert_eq!(w.cursor(), (24, 2));
    assert_eq!(w.char_at(23 * BUFFER_WIDTH).ascii_char, b'z');
}

#[test]
fn pic_initialization_sequence() {
    let pair = PicPair::new(0x20, 0x28);
    let w = pair.initialize(0xAB, 0xCD);
    assert_eq!(w.len(), 10);
    assert_eq!(w[0], (0x20, 0x11));
    assert_eq!(w[2], (0x21, 0x20));
    assert_eq!(w[3], (0xA1, 0x28));
    assert_eq!(w[8], (0x21, 0xAB));
    assert_eq!(w[9], (0xA1, 0xCD));
}

#[test]
fn ext2_inode_offsets() {
    let mut sb = superblock(0xEF53);
    sb.inode_size = 128;
    sb.log_block_size = 0;
    sb.inodes_per_group = 8;
    sb.first_data_block = 1;
    let fs = Ext2Fs::new(sb).ok().unwrap();
    assert_eq!(fs.inode_offset(1), 3072);
    assert_eq!(fs.inode_offset(10), 3072 + 8 * 128 + 128);
}

#[test]
fn pci_configuration_values() {
    use_pci();
}

fn use_pci() {
    assert_eq!(pci_address(0, 1, 0, PciRegister::VendorId), 0x8000_0800);
    assert_eq!(pci_address(2, 3, 1, PciRegister::Status), 0x8002_1904);
    assert_eq!(select_word(0x1234_5678, PciRegister::Status), 0x1234);
    assert_eq!(select_word(0x1234_5678, PciRegister::VendorId), 0x5678);
    assert_eq!(select_byte(0xABCD, PciRegister::ProgIF), 0xAB);
    assert_eq!(select_byte(0xABCD, PciRegister::RevisionId), 0xCD);
    let s = PCIState::new();
    assert_eq!(s.next_addr(0, 0, 0, u32::MAX), (0, 1, 0));
    assert_eq!(s.next_addr(0, 31, 0, u32::MAX), (1, 0, 0));
    assert_eq!(s.next_addr(0, 0, 0, 0x80_0000), (0, 0, 1));
    assert_eq!(s.next_addr(0, 0, 7, 0), (0, 1, 0));
    assert_eq!(s.enable_interrupts(0x0407), 0x0007);
}

#[test]
fn ps2_polling_decisions() {
    use_ps2();
}

fn use_ps2() {
    let c = Ps2Controller::new();
    assert_eq!(c.nonblocking_read(0, 0b01), PollStep::Proceed);
    assert_eq!(c.nonblocking_read(0, 0b00), PollStep::Wait);
    assert_eq!(c.nonblocking_read(3, 0b00), PollStep::TimedOut);
    assert_eq!(c.nonblocking_read(3, 0b01), PollStep::TimedOut);
    assert_eq!(c.nonblocking_write(0, 0b00), PollStep::Wait);
    assert_eq!(c.nonblocking_write(3, 0b00), PollStep::TimedOut);
}

#[test]
fn ahci_command_words() {
    assert_eq!(ncq_fis(1, AhciCommand::Read, 0x1_2345_6789, true, 0, 8), [0x0860_8027, 0xC045_6789, 0x123, 8]);
    assert_eq!(ncq_fis(2, AhciCommand::Write, 0, false, 2, 0x1FF), [0xFF61_8027, 0x4000_0000, 0x0100_0000, 0x8010]);
    assert_eq!(meta_fis(AtaCommand::Identify, 0, u32::MAX, 1), [0x00EC_8027, 0, 0, 1]);
    assert_eq!(meta_fis(AtaCommand::SetFeatures, 0x0203, 5, 1), [0x03EF_8027, 0, 0x0200_0000, 5]);
    assert!(sstatus_active(0x113));
    assert!(sstatus_active(0x200));
    assert!(!sstatus_active(0x100));
    assert_eq!(completed_slots(0b1011, 0b0010), 0b1001);
}

fn small_screen(format: FbPixelFormat) -> FrameBufferWriter {
    let info = FrameBufferInfo {
        byte_len: 64 * 48 * 4,
        width: 64,
        height: 48,
        pixel_format: format,
        bytes_per_pixel: 4,
        stride: 64,
    };
    FrameBufferWriter::new(vec![0u8; 64 * 48 * 4], info)
}

#[test]
fn framebuffer_draws_glyphs() {
    let mut w = small_screen(FbPixelFormat::Bgr);
    assert_eq!(w.position(), (1, 1));
    w.write_char('A');
    assert_eq!(w.position(), (12, 1));
    let lit = (0..64 * 48 * 4).filter(|&i| w.byte_at(i) != 0).count();
    assert!(lit > 0);
    // a pixel's fourth byte stays 0 in a colour format
    assert!((0..64 * 48).all(|p| w.byte_at(p * 4 + 3) == 0));
    w.write_char('\u{3000}');
    assert_eq!(w.position(), (12, 1));
    w.write_str(&['B', 'C', 'D', 'E']);
    assert_eq!(w.position(), (56, 1));
    // the sixth glyph on the line would cross the right edge
    w.write_char('F');
    assert_eq!(w.position(), (12, 23));
    w.write_char(BACKSPACE);
    assert_eq!(w.position(), (1, 23));
    w.write_char(BACKSPACE);
    assert_eq!(w.position(), (64 - 1 - 11, 1));
    w.write_char('\n');
    w.write_char('\n');
    assert_eq!(w.position(), (1, 45));
    w.write_char('x');
    assert_eq!(w.position(), (12, 1));
}

#[test]
fn framebuffer_pixel_formats() {
    let mut w = small_screen(FbPixelFormat::U8);
    w.write_pixel(2, 1, 250);
    let off = (1 * 64 + 2) * 4;
    assert_eq!(w.byte_at(off), 0xFF);
    assert_eq!(w.byte_at(off + 1), 0);
    w.write_pixel(3, 1, 100);
    assert_eq!(w.byte_at(off + 4), 0);
    let mut g = small_screen(FbPixelFormat::Rgb);
    g.write_pixel(2, 1, 100);
    assert_eq!(g.byte_at(off), 100);
    assert_eq!(g.byte_at(off + 2), 100);
    assert_eq!(g.byte_at(off + 3), 0);
    g.write_pixel(64, 0, 100);
    g.write_pixel(0, 48, 100);
    assert_eq!((0..64 * 48 * 4).filter(|&i| g.byte_at(i) != 0).count(), 3);
    g.clear();
    assert_eq!((0..64 * 48 * 4).filter(|&i| g.byte_at(i) != 0).count(), 0);
    assert_eq!((g.width(), g.height()), (64, 48));
}
