//! A CHIP-8 interpreter core: memory, registers, display, keypad and the
//! fetch-decode-execute step, each with a machine-checked contract.

pub mod chip8;
pub mod cpu;
pub mod display;
pub mod instruction;
pub mod keypad;
pub mod ram;

use vstd::prelude::*;

verus! {

/// Bytes of addressable memory.
pub const RAM_SIZE: usize = 4096;

/// Address at which a program image is loaded and execution starts.
pub const PROGRAM_START_ADDR: u16 = 0x200;

} // verus!
