//! The whole machine, memory and processor, and the cadence that gates the
//! 60 Hz work of a run loop.

use vstd::prelude::*;

use crate::cpu::{power_on_state, step_spec, Cpu, Fault, StepOutcome};
use crate::ram::{first_outside, initial_memory, loaded, OutOfBounds, Ram};
use crate::PROGRAM_START_ADDR;

verus! {

/// Instruction steps between two runs of the 60 Hz work, plus one.
pub const TIMER_DEFAULT: usize = 8;

/// A machine: memory and the processor that runs on it.
pub struct Chip8 {
    pub ram: Ram,
    pub cpu: Cpu,
}

impl Chip8 {
    /// A machine at power-on, with the font in memory and no program.
    pub fn new() -> (c: Chip8)
        ensures
            c.ram@ == initial_memory(),
            c.cpu@ == power_on_state(),
    {
        Chip8 { ram: Ram::new(), cpu: Cpu::new() }
    }

    /// Copies a program image into memory at the program start address.
    /// An image that does not fit is refused and memory is left as it was.
    pub fn load_rom(&mut self, data: &Vec<u8>) -> (r: Result<(), OutOfBounds>)
        ensures
            final(self).cpu == old(self).cpu,
            first_outside(PROGRAM_START_ADDR as int, data@.len() as int) is None ==> r is Ok
                && final(self).ram@ == loaded(old(self).ram@, PROGRAM_START_ADDR as int, data@),
            first_outside(PROGRAM_START_ADDR as int, data@.len() as int) matches Some(a) ==> r
                == Err::<(), OutOfBounds>(OutOfBounds { addr: a as usize }) && final(self).ram@
                == old(self).ram@,
    {
        self.ram.load(PROGRAM_START_ADDR as usize, data.as_slice())
    }

    /// One fetch-decode-execute step of the processor on memory.
    pub fn run_instruction(&mut self) -> (r: Result<StepOutcome, Fault>)
        ensures
            exists|rnd: u8|
                (r, final(self).cpu@, final(self).ram@) == step_spec(
                    old(self).cpu@,
                    old(self).ram@,
                    rnd,
                ),
    {
        self.cpu.run_instruction(&mut self.ram)
    }
}

/// Counts instruction steps down to the next run of the 60 Hz work (timer
/// decrement, frame presentation, sound gating, keypad refresh).
pub struct Cadence {
    countdown: usize,
}

impl Cadence {
    /// Steps still to go before the 60 Hz work is due.
    pub closed spec fn remaining(&self) -> nat {
        self.countdown as nat
    }

    /// A cadence whose first 60 Hz work comes after `TIMER_DEFAULT` steps.
    pub fn new() -> (c: Cadence)
        ensures
            c.remaining() == TIMER_DEFAULT,
    {
        Cadence { countdown: TIMER_DEFAULT }
    }

    /// Called once after each instruction step; returns whether the 60 Hz
    /// work is due now, and then starts the count again.
    pub fn tick(&mut self) -> (due: bool)
        ensures
            due == (old(self).remaining() == 0),
            final(self).remaining() == if due {
                TIMER_DEFAULT as nat
            } else {
                (old(self).remaining() - 1) as nat
            },
    {
        if self.countdown == 0 {
            self.countdown = TIMER_DEFAULT;
            true
        } else {
            self.countdown -= 1;
            false
        }
    }
}

} // verus!
