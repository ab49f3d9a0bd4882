use vstd::prelude::*;

verus! {

/// Width of the display, in pixels.
pub const DISPLAY_X: usize = 64;

/// Height of the display, in pixels.
pub const DISPLAY_Y: usize = 32;

/// Size of the address space, in bytes.
pub const MEMORY_SIZE: usize = 4096;

/// Address at which a program is loaded and starts.
pub const ROM_START_ADDRESS: usize = 0x200;

/// The largest program that fits in memory, in bytes.
pub const MAX_ROM_SIZE: usize = 3584;

/// What a CPU cycle asks of the caller that drives it.
#[derive(Clone, Copy, Debug, PartialEq, Eq, Structural)]
pub enum Chip8Result {
    /// Continue executing instructions in the current frame.
    Continue,
    /// Wait for the next frame before continuing
    /// (after a draw, to limit the drawing rate to the frame rate, or while waiting for a key).
    WaitForNextFrame,
}

/// The errors of loading a program and of executing an instruction.
#[derive(Clone, Copy, Debug, PartialEq, Eq, Structural)]
pub enum Chip8Error {
    /// The program does not fit between the load address and the end of memory.
    RomLoadError { size: usize, max_size: usize },
    /// A memory access past the end of the address space. Addresses wrap
    /// within the 12-bit address space, so execution here never reports it.
    MemoryOutOfBounds { address: u16 },
    /// A return with an empty call stack.
    StackUnderflow,
    /// An instruction word that decodes to no instruction.
    UnknownOpcode { opcode: u16 },
    /// An `8xyN` word whose `N` names no ALU operation.
    UnknownALUOpcode { opcode: u16 },
}

} // verus!
