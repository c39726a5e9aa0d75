//! A two-tier kernel heap allocator: a buddy allocator for page-granular
//! blocks and a slab-style allocator for small objects carved out of pages
//! that the buddy allocator hands over, together with the small pieces of
//! kernel support code that sit around it.

pub mod buddy;
pub mod sleb;
pub mod heap;
pub mod circular_buffer;
pub mod keyboard;
pub mod util;
pub mod ahci;
pub mod vga_console;
pub mod pagetable;
pub mod pic;
pub mod x86_64;
pub mod idt;
pub mod acpi;
pub mod ide_controller;
pub mod pci;
pub mod ext2;
pub mod ps2_controller;
pub mod framebuffer;
