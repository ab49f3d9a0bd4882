//! A CHIP-8 interpreter core: instruction decoding, execution, a fixed-rate
//! timing runner and a debugger surface, with their contracts proved.

pub mod breakpoints;
pub mod debugger;
pub mod font;
pub mod machine;
pub mod nibble;
pub mod opcode;
pub mod runner;
pub mod semantics;
pub mod types;

pub use breakpoints::BreakpointSet;
pub use debugger::{BreakpointAction, Cli, Command, CommandResult, Executor, MemArgs};
pub use font::{font, FONT_GLYPH_SIZE, FONT_SIZE, FONT_START_ADDRESS};
pub use machine::Chip8;
pub use nibble::{u12, u4};
pub use opcode::{Opcode, OpcodeALU};
pub use runner::{Chip8Runner, Chip8RunnerResult, CPU_HZ, NANOS_PER_SECOND, TIMER_HZ};
pub use types::{
    Chip8Error, Chip8Result, DISPLAY_X, DISPLAY_Y, MAX_ROM_SIZE, MEMORY_SIZE, ROM_START_ADDRESS,
};
