//! The programmable interrupt controllers: which vectors each one serves.

use vstd::prelude::*;

verus! {

/// Command port of the first controller.
pub const BASE_COMMAND_PORT: u16 = 0x20;
/// Command port of the second controller.
pub const HIGHER_COMMAND_PORT: u16 = 0xA0;
/// The end-of-interrupt command.
pub const END_OF_INTERRUPT: u8 = 0x20;
/// Data port of the first controller.
pub const BASE_DATA_PORT: u16 = 0x21;
/// Data port of the second controller.
pub const HIGHER_DATA_PORT: u16 = 0xA1;
/// Initialization command: start, with a fourth control word to come.
pub const ICW1_INIT_ICW4: u8 = 0x11;
/// Fourth control word: 8086 mode.
pub const ICW4_8086: u8 = 0x01;
/// First vector of the first controller.
pub const PIC_IRQ_OFFSET: u8 = 0x20;

/// Interrupt lines, by their number on the first controller.
#[derive(Clone, Copy, PartialEq, Eq, Structural, Debug)]
pub enum Irq {
    Timer,
    Keyboard,
}

/// The value this variant stands for.
pub open spec fn irq_value(v: Irq) -> u8 {
    match v {
        Irq::Timer => 0,
        Irq::Keyboard => 1,
    }
}

impl Irq {
    /// The value this variant stands for.
    pub fn value(&self) -> (r: u8)
        ensures
            r == irq_value(*self),
    {
        match self {
            Irq::Timer => 0,
            Irq::Keyboard => 1,
        }
    }
}

/// One controller, with the first vector it raises.
#[derive(Clone, Copy, PartialEq, Eq, Structural, Debug)]
pub struct Pic {
    pub offset: u8,
}

impl Pic {
    /// The controller raises vector `irq_offset`: it is one of the eight
    /// vectors from the controller's offset on.
    pub fn handles_interrupt(&self, irq_offset: u8) -> (r: bool)
        ensures
            r == (self.offset <= irq_offset && irq_offset < self.offset + 8),
    {
        self.offset <= irq_offset && (irq_offset as u16) < (self.offset as u16) + 8
    }
}

/// The two chained controllers.
#[derive(Clone, Copy, PartialEq, Eq, Structural, Debug)]
pub struct PicPair {
    pub base_pic: Pic,
    pub higher_pic: Pic,
}

impl PicPair {
    pub fn new(offset1: u8, offset2: u8) -> (r: Self)
        ensures
            r.base_pic.offset == offset1,
            r.higher_pic.offset == offset2,
    {
        PicPair { base_pic: Pic { offset: offset1 }, higher_pic: Pic { offset: offset2 } }
    }

    /// The port writes that initialise the pair, in order, ending with the
    /// interrupt masks `mask1` and `mask2` that were read before: start both,
    /// give each its vector offset, chain the second to line 2 of the first,
    /// and select 8086 mode. The caller waits a moment after each of the
    /// first eight writes.
    pub fn initialize(&self, mask1: u8, mask2: u8) -> (r: Vec<(u16, u8)>)
        ensures
            r@ == seq![
                (BASE_COMMAND_PORT, ICW1_INIT_ICW4),
                (HIGHER_COMMAND_PORT, ICW1_INIT_ICW4),
                (BASE_DATA_PORT, self.base_pic.offset),
                (HIGHER_DATA_PORT, self.higher_pic.offset),
                (BASE_DATA_PORT, 0x04u8),
                (HIGHER_DATA_PORT, 0x02u8),
                (BASE_DATA_PORT, ICW4_8086),
                (HIGHER_DATA_PORT, ICW4_8086),
                (BASE_DATA_PORT, mask1),
                (HIGHER_DATA_PORT, mask2),
            ],
    {
        let mut w: Vec<(u16, u8)> = Vec::new();
        w.push((BASE_COMMAND_PORT, ICW1_INIT_ICW4));
        w.push((HIGHER_COMMAND_PORT, ICW1_INIT_ICW4));
        w.push((BASE_DATA_PORT, self.base_pic.offset));
        w.push((HIGHER_DATA_PORT, self.higher_pic.offset));
        w.push((BASE_DATA_PORT, 0x04));
        w.push((HIGHER_DATA_PORT, 0x02));
        w.push((BASE_DATA_PORT, ICW4_8086));
        w.push((HIGHER_DATA_PORT, ICW4_8086));
        w.push((BASE_DATA_PORT, mask1));
        w.push((HIGHER_DATA_PORT, mask2));
        assert(w@ =~= seq![
            (BASE_COMMAND_PORT, ICW1_INIT_ICW4),
            (HIGHER_COMMAND_PORT, ICW1_INIT_ICW4),
            (BASE_DATA_PORT, self.base_pic.offset),
            (HIGHER_DATA_PORT, self.higher_pic.offset),
            (BASE_DATA_PORT, 0x04u8),
            (HIGHER_DATA_PORT, 0x02u8),
            (BASE_DATA_PORT, ICW4_8086),
            (HIGHER_DATA_PORT, ICW4_8086),
            (BASE_DATA_PORT, mask1),
            (HIGHER_DATA_PORT, mask2),
        ]);
        w
    }

    /// The command ports that must receive `END_OF_INTERRUPT` after the
    /// interrupt at `irq_offset`: the second controller's first when it is
    /// involved, then always the first controller's.
    pub fn end_of_interrupt(&self, irq_offset: u8) -> (r: Vec<u16>)
        ensures
            self.higher_pic.offset <= irq_offset && irq_offset < self.higher_pic.offset + 8
                ==> r@ == seq![HIGHER_COMMAND_PORT, BASE_COMMAND_PORT],
            !(self.higher_pic.offset <= irq_offset && irq_offset < self.higher_pic.offset + 8)
                ==> r@ == seq![BASE_COMMAND_PORT],
    {
        let mut ports: Vec<u16> = Vec::new();
        if self.higher_pic.handles_interrupt(irq_offset) {
            ports.push(HIGHER_COMMAND_PORT);
        }
        ports.push(BASE_COMMAND_PORT);
        proof {
            if self.higher_pic.offset <= irq_offset && irq_offset < self.higher_pic.offset + 8 {
                assert(ports@ =~= seq![HIGHER_COMMAND_PORT, BASE_COMMAND_PORT]);
            } else {
                assert(ports@ =~= seq![BASE_COMMAND_PORT]);
            }
        }
        ports
    }
}

} // verus!
