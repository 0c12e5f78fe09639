//! Numbering of the hardware interrupt lines.
//!
//! The two interrupt controllers are remapped so that their lines follow the
//! 32 vectors that the CPU keeps for its exceptions: the first controller
//! starts at vector 32, the second at vector 40.

use vstd::prelude::*;

verus! {

/// The vector of the first line of the first interrupt controller.
pub const PIC_1_OFFSET: u8 = 32;

/// The vector of the first line of the second interrupt controller.
pub const PIC_2_OFFSET: u8 = PIC_1_OFFSET + 8;

/// The hardware interrupt lines that the kernel services.
#[derive(Debug, Clone, Copy, PartialEq, Eq, Structural)]
pub enum InterruptIndex {
    /// The timer, on the first line of the first controller.
    Timer,
    /// The keyboard, on the line after the timer's.
    Keyboard,
}

impl InterruptIndex {
    /// The interrupt vector of the line.
    pub open spec fn vector(self) -> int {
        match self {
            InterruptIndex::Timer => PIC_1_OFFSET as int,
            InterruptIndex::Keyboard => PIC_1_OFFSET + 1,
        }
    }

    pub fn as_u8(self) -> (vector: u8)
        ensures
            vector == self.vector(),
    {
        match self {
            InterruptIndex::Timer => PIC_1_OFFSET,
            InterruptIndex::Keyboard => PIC_1_OFFSET + 1,
        }
    }

    pub fn as_usize(self) -> (vector: usize)
        ensures
            vector == self.vector(),
    {
        self.as_u8() as usize
    }
}

} // verus!
