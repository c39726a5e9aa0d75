//! The PS/2 controller: the decisions of its polling loops. The caller reads
//! the status register, asks what to do, and waits, reads or writes.

use vstd::prelude::*;

verus! {

/// Status rounds after which a poll gives up.
pub const POLL_ATTEMPTS: u32 = 3;
/// Status bit: a byte waits in the output buffer.
pub const OUTPUT_FULL: u8 = 0b01;
/// Status bit: the input buffer still holds a byte.
pub const INPUT_FULL: u8 = 0b10;

/// What a polling loop does after reading the status register.
#[derive(Clone, Copy, PartialEq, Eq, Structural, Debug)]
pub enum PollStep {
    /// Wait a moment, count the round, and read the status again.
    Wait,
    /// Go on with the transfer.
    Proceed,
    /// Give up with an error.
    TimedOut,
}

/// The controller of the first PS/2 port.
pub struct Ps2Controller {}

impl Ps2Controller {
    pub fn new() -> (r: Self) {
        Ps2Controller {}
    }

    /// A read waits while no byte is ready, for at most `POLL_ATTEMPTS`
    /// rounds; once it stops, it fails if it used them all, and otherwise
    /// reads the data port.
    pub fn nonblocking_read(&self, count: u32, status: u8) -> (r: PollStep)
        ensures
            status & OUTPUT_FULL != 1 && count < POLL_ATTEMPTS ==> r == PollStep::Wait,
            !(status & OUTPUT_FULL != 1 && count < POLL_ATTEMPTS) && count == POLL_ATTEMPTS ==> r == PollStep::TimedOut,
            !(status & OUTPUT_FULL != 1 && count < POLL_ATTEMPTS) && count != POLL_ATTEMPTS ==> r == PollStep::Proceed,
    {
        if status & OUTPUT_FULL != 1 && count < POLL_ATTEMPTS {
            PollStep::Wait
        } else if count == POLL_ATTEMPTS {
            PollStep::TimedOut
        } else {
            PollStep::Proceed
        }
    }

    /// A write waits while the masked input-buffer bit differs from 1, for
    /// at most `POLL_ATTEMPTS` rounds; then the byte is written, and the
    /// write reports a timeout if it used every round. The masked bit is 0
    /// or 2, so in practice every write waits all rounds.
    pub fn nonblocking_write(&self, count: u32, status: u8) -> (r: PollStep)
        ensures
            status & INPUT_FULL != 1 && count < POLL_ATTEMPTS ==> r == PollStep::Wait,
            !(status & INPUT_FULL != 1 && count < POLL_ATTEMPTS) && count == POLL_ATTEMPTS ==> r == PollStep::TimedOut,
            !(status & INPUT_FULL != 1 && count < POLL_ATTEMPTS) && count != POLL_ATTEMPTS ==> r == PollStep::Proceed,
    {
        if status & INPUT_FULL != 1 && count < POLL_ATTEMPTS {
            PollStep::Wait
        } else if count == POLL_ATTEMPTS {
            PollStep::TimedOut
        } else {
            PollStep::Proceed
        }
    }
}

} // verus!
