//! Registers, call stack, timers and the fetch-decode-execute step.

use vstd::prelude::*;

use crate::display::{collides, drawn, Display, DISPLAY_SIZE};
use crate::instruction::{
    decode, decode_spec, lemma_fields_in_range, op_x, op_y, operands_valid, Instruction,
};
use crate::keypad::{lowest_pressed, HostKey, Keypad, NUM_KEYS};
use crate::ram::{bytes_at, first_outside, loaded, OutOfBounds, Ram, FONT_SPRITE_LEN};
use crate::{PROGRAM_START_ADDR, RAM_SIZE};

verus! {

/// General-purpose registers `V0` to `VF`.
pub const NUM_GPR: usize = 16;

/// Depth of the call stack.
pub const STACK_DEPTH: usize = 16;

/// The flag register `VF`.
pub const FLAG: u8 = 0xF;

/// What one step did, when it did not fault.
#[derive(Clone, Copy, Debug, PartialEq, Eq, Structural)]
pub enum StepOutcome {
    /// The instruction ran.
    Executed,
    /// `FX0A` found no key down: nothing changed, the same instruction runs
    /// again on the next step.
    AwaitingKey,
    /// The opcode encodes no instruction; it was skipped like a no-op.
    InvalidOpcode(u16),
}

/// A condition that ends the session.
#[derive(Clone, Copy, Debug, PartialEq, Eq, Structural)]
pub enum Fault {
    /// An access outside memory.
    Memory(OutOfBounds),
    /// A call with all sixteen stack slots in use.
    StackOverflow,
    /// A return with an empty stack.
    StackUnderflow,
}

/// The machine state apart from memory, as plain values.
pub struct CpuState {
    /// `V0` to `VF`.
    pub v: Seq<u8>,
    /// The index register `I`.
    pub i: u16,
    /// The program counter.
    pub pc: u16,
    /// The return addresses on the call stack, innermost last.
    pub stack: Seq<u16>,
    /// The delay timer.
    pub dt: u8,
    /// The sound timer.
    pub st: u8,
    /// Pixel states, row-major.
    pub display: Seq<bool>,
    /// Key states.
    pub keys: Seq<bool>,
}

/// The shape every state of a `Cpu` has.
pub open spec fn well_formed(s: CpuState) -> bool {
    &&& s.v.len() == NUM_GPR
    &&& s.display.len() == DISPLAY_SIZE
    &&& s.keys.len() == NUM_KEYS
    &&& s.stack.len() <= STACK_DEPTH
}

/// `s` with register `x` set to `value`.
pub open spec fn with_reg(s: CpuState, x: u8, value: u8) -> CpuState {
    CpuState { v: s.v.update(x as int, value), ..s }
}

/// `s` with the flag register set to `value`, then register `x` to `result`:
/// when `x` is `VF` the result is what stays.
pub open spec fn with_flag_then_reg(s: CpuState, flag: u8, x: u8, result: u8) -> CpuState {
    with_reg(with_reg(s, FLAG, flag), x, result)
}

/// `s` moved on to the next instruction.
pub open spec fn advance(s: CpuState) -> CpuState {
    CpuState { pc: (s.pc + 2) as u16, ..s }
}

/// `s` moved on past the next instruction when `skip` holds, else to it.
pub open spec fn advance_skipping(s: CpuState, skip: bool) -> CpuState {
    CpuState { pc: (s.pc + if skip { 4int } else { 2int }) as u16, ..s }
}

/// Whether key `key` is down; a number past the last key is never down.
pub open spec fn key_down(keys: Seq<bool>, key: u8) -> bool {
    key < NUM_KEYS && keys[key as int]
}

/// Whether `ins` decides between the next instruction and the one after.
pub open spec fn is_skip(ins: Instruction) -> bool {
    ||| ins is SkipIfEqImm
    ||| ins is SkipIfNeImm
    ||| ins is SkipIfEqReg
    ||| ins is SkipIfNeReg
    ||| ins is SkipIfKey
    ||| ins is SkipIfNotKey
}

/// Whether `ins` sets the program counter itself: jumps, call, return, skips.
pub open spec fn is_control_flow(ins: Instruction) -> bool {
    ||| ins is Jump
    ||| ins is JumpOffset
    ||| ins is Call
    ||| ins is Return
    ||| is_skip(ins)
}

/// Whether the skip instruction `ins` skips in state `s`.
pub open spec fn skip_taken(s: CpuState, ins: Instruction) -> bool {
    match ins {
        Instruction::SkipIfEqImm(x, nn) => s.v[x as int] == nn,
        Instruction::SkipIfNeImm(x, nn) => s.v[x as int] != nn,
        Instruction::SkipIfEqReg(x, y) => s.v[x as int] == s.v[y as int],
        Instruction::SkipIfNeReg(x, y) => s.v[x as int] != s.v[y as int],
        Instruction::SkipIfKey(x) => key_down(s.keys, s.v[x as int]),
        Instruction::SkipIfNotKey(x) => !key_down(s.keys, s.v[x as int]),
        _ => false,
    }
}

/// Whether `ins` is one of the register-to-register instructions `8XYN`.
pub open spec fn is_alu(ins: Instruction) -> bool {
    ||| ins is SetReg
    ||| ins is Or
    ||| ins is And
    ||| ins is Xor
    ||| ins is AddReg
    ||| ins is SubReg
    ||| ins is ShiftRight
    ||| ins is SubReverse
    ||| ins is ShiftLeft
}

/// The registers after the register-to-register instruction `ins`; flags go
/// to `VF` before the result goes to `VX`.
pub open spec fn alu_spec(s: CpuState, ins: Instruction) -> CpuState {
    match ins {
        Instruction::SetReg(x, y) => with_reg(s, x, s.v[y as int]),
        Instruction::Or(x, y) => with_reg(s, x, s.v[x as int] | s.v[y as int]),
        Instruction::And(x, y) => with_reg(s, x, s.v[x as int] & s.v[y as int]),
        Instruction::Xor(x, y) => with_reg(s, x, s.v[x as int] ^ s.v[y as int]),
        Instruction::AddReg(x, y) => {
            let (vx, vy) = (s.v[x as int], s.v[y as int]);
            with_flag_then_reg(s, if vx + vy > 255 { 1u8 } else { 0u8 }, x, ((vx + vy) % 256) as u8)
        },
        Instruction::SubReg(x, y) => {
            let (vx, vy) = (s.v[x as int], s.v[y as int]);
            with_flag_then_reg(s, if vx > vy { 1u8 } else { 0u8 }, x, ((vx - vy) % 256) as u8)
        },
        Instruction::ShiftRight(x) => {
            let vx = s.v[x as int];
            with_flag_then_reg(s, vx & 1, x, vx >> 1u8)
        },
        Instruction::SubReverse(x, y) => {
            let (vx, vy) = (s.v[x as int], s.v[y as int]);
            with_flag_then_reg(s, if vy > vx { 1u8 } else { 0u8 }, x, ((vy - vx) % 256) as u8)
        },
        Instruction::ShiftLeft(x) => {
            let vx = s.v[x as int];
            with_flag_then_reg(s, vx >> 7u8, x, vx << 1u8)
        },
        _ => s,
    }
}

/// The result of a step: its outcome or fault, the state after it, and
/// memory after it.
pub type Transition = (Result<StepOutcome, Fault>, CpuState, Seq<u8>);

/// A step that ran and left `s` and `mem`.
pub open spec fn executed(s: CpuState, mem: Seq<u8>) -> Transition {
    (Ok(StepOutcome::Executed), s, mem)
}

/// A step that faulted with `f` and changed nothing.
pub open spec fn faulted(s: CpuState, mem: Seq<u8>, f: Fault) -> Transition {
    (Err(f), s, mem)
}

/// The decimal digits of `value`: hundreds, tens, ones.
pub open spec fn bcd_digits(value: u8) -> Seq<u8> {
    seq![value / 100, (value / 10) % 10, value % 10]
}

/// Registers after `V0` to `VX` are loaded from memory at `at` onwards.
pub open spec fn with_loaded_regs(v: Seq<u8>, mem: Seq<u8>, at: int, x: u8) -> Seq<u8> {
    Seq::new(v.len(), |j: int| if j <= x { mem[at + j] } else { v[j] })
}

/// What executing `ins` does to state `s` and memory `mem`; `rnd` is the
/// random byte that `CXNN` uses.
pub open spec fn execute_spec(s: CpuState, mem: Seq<u8>, ins: Instruction, rnd: u8) -> Transition {
    match ins {
        Instruction::ClearScreen => executed(
            advance(CpuState { display: Seq::new(DISPLAY_SIZE as nat, |i: int| false), ..s }),
            mem,
        ),
        Instruction::Return => if s.stack.len() == 0 {
            faulted(s, mem, Fault::StackUnderflow)
        } else {
            executed(CpuState { stack: s.stack.drop_last(), pc: (s.stack.last() + 2) as u16, ..s }, mem)
        },
        Instruction::Jump(nnn) => executed(CpuState { pc: nnn, ..s }, mem),
        Instruction::Call(nnn) => if s.stack.len() >= STACK_DEPTH {
            faulted(s, mem, Fault::StackOverflow)
        } else {
            executed(CpuState { stack: s.stack.push(s.pc), pc: nnn, ..s }, mem)
        },
        Instruction::SkipIfEqImm(..) | Instruction::SkipIfNeImm(..) | Instruction::SkipIfEqReg(
            ..,
        ) | Instruction::SkipIfNeReg(..) | Instruction::SkipIfKey(..)
        | Instruction::SkipIfNotKey(..) => executed(advance_skipping(s, skip_taken(s, ins)), mem),
        Instruction::SetImm(x, nn) => executed(advance(with_reg(s, x, nn)), mem),
        Instruction::AddImm(x, nn) => executed(
            advance(with_reg(s, x, ((s.v[x as int] + nn) % 256) as u8)),
            mem,
        ),
        Instruction::SetReg(..) | Instruction::Or(..) | Instruction::And(..) | Instruction::Xor(..)
        | Instruction::AddReg(..) | Instruction::SubReg(..) | Instruction::ShiftRight(..)
        | Instruction::SubReverse(..) | Instruction::ShiftLeft(..) => executed(
            advance(alu_spec(s, ins)),
            mem,
        ),
        Instruction::SetIndex(nnn) => executed(advance(CpuState { i: nnn, ..s }), mem),
        Instruction::JumpOffset(nnn) => executed(
            CpuState { pc: (nnn + s.v[0]) as u16, ..s },
            mem,
        ),
        Instruction::Random(x, nn) => executed(advance(with_reg(s, x, rnd & nn)), mem),
        Instruction::Draw(x, y, n) => match first_outside(s.i as int, n as int) {
            Some(a) => faulted(s, mem, Fault::Memory(OutOfBounds { addr: a as usize })),
            None => {
                let rows = bytes_at(mem, s.i as int, n as int);
                let (vx, vy) = (s.v[x as int], s.v[y as int]);
                let hit = collides(s.display, rows, vx, vy);
                executed(
                    advance(
                        CpuState {
                            display: drawn(s.display, rows, vx, vy),
                            v: s.v.update(FLAG as int, if hit { 1u8 } else { 0u8 }),
                            ..s
                        },
                    ),
                    mem,
                )
            },
        },
        Instruction::GetDelay(x) => executed(advance(with_reg(s, x, s.dt)), mem),
        Instruction::WaitKey(x) => match lowest_pressed(s.keys) {
            Some(k) => executed(advance(with_reg(s, x, k)), mem),
            None => (Ok(StepOutcome::AwaitingKey), s, mem),
        },
        Instruction::SetDelay(x) => executed(advance(CpuState { dt: s.v[x as int], ..s }), mem),
        Instruction::SetSound(x) => executed(advance(CpuState { st: s.v[x as int], ..s }), mem),
        Instruction::AddIndex(x) => executed(
            advance(CpuState { i: ((s.i + s.v[x as int]) % 0x10000) as u16, ..s }),
            mem,
        ),
        Instruction::FontChar(x) => executed(
            advance(CpuState { i: (s.v[x as int] * FONT_SPRITE_LEN) as u16, ..s }),
            mem,
        ),
        Instruction::Bcd(x) => match first_outside(s.i as int, 3) {
            Some(a) => faulted(s, mem, Fault::Memory(OutOfBounds { addr: a as usize })),
            None => executed(advance(s), loaded(mem, s.i as int, bcd_digits(s.v[x as int]))),
        },
        Instruction::StoreRegs(x) => match first_outside(s.i as int, x + 1) {
            Some(a) => faulted(s, mem, Fault::Memory(OutOfBounds { addr: a as usize })),
            None => executed(advance(s), loaded(mem, s.i as int, s.v.subrange(0, x + 1))),
        },
        Instruction::LoadRegs(x) => match first_outside(s.i as int, x + 1) {
            Some(a) => faulted(s, mem, Fault::Memory(OutOfBounds { addr: a as usize })),
            None => executed(
                advance(CpuState { v: with_loaded_regs(s.v, mem, s.i as int, x), ..s }),
                mem,
            ),
        },
        Instruction::Invalid(op) => (Ok(StepOutcome::InvalidOpcode(op)), advance(s), mem),
    }
}

/// The opcode stored big-endian at `pc`, or the fault of reading it.
pub open spec fn fetch_spec(mem: Seq<u8>, pc: u16) -> Result<u16, Fault> {
    match first_outside(pc as int, 2) {
        Some(a) => Err(Fault::Memory(OutOfBounds { addr: a as usize })),
        None => Ok(((mem[pc as int] as u16) << 8) | (mem[pc + 1] as u16)),
    }
}

/// One whole step from state `s` and memory `mem`: fetch at the program
/// counter, decode, execute; `rnd` is the random byte that `CXNN` uses.
pub open spec fn step_spec(s: CpuState, mem: Seq<u8>, rnd: u8) -> Transition {
    match fetch_spec(mem, s.pc) {
        Err(f) => faulted(s, mem, f),
        Ok(op) => execute_spec(s, mem, decode_spec(op), rnd),
    }
}

/// An instruction that does not set the program counter itself moves it on
/// by exactly two whenever it completes.
pub proof fn lemma_straight_line_advances(s: CpuState, mem: Seq<u8>, ins: Instruction, rnd: u8)
    requires
        s.pc < RAM_SIZE,
        !is_control_flow(ins),
    ensures
        ({
            let (r, next, _) = execute_spec(s, mem, ins, rnd);
            r is Ok && r != Ok::<StepOutcome, Fault>(StepOutcome::AwaitingKey) ==> next.pc == s.pc
                + 2
        }),
{
}

/// A skip instruction always completes and moves the program counter on by
/// four when its condition holds, by two when it does not; nothing else
/// changes.
pub proof fn lemma_skip_advances(s: CpuState, mem: Seq<u8>, ins: Instruction, rnd: u8)
    requires
        s.pc < RAM_SIZE,
        is_skip(ins),
    ensures
        execute_spec(s, mem, ins, rnd) == executed(
            CpuState { pc: (s.pc + if skip_taken(s, ins) { 4int } else { 2int }) as u16, ..s },
            mem,
        ),
        (s.pc + if skip_taken(s, ins) { 4int } else { 2int }) as u16 == s.pc + if skip_taken(
            s,
            ins,
        ) {
            4int
        } else {
            2int
        },
{
}

/// Waiting for a key: while no key is down a step on `FX0A` changes nothing,
/// so any number of steps leave the program counter where it is; once a key
/// is down the step stores the lowest such key in `VX` and moves on by two.
pub proof fn lemma_wait_for_key(s: CpuState, mem: Seq<u8>, rnd: u8)
    requires
        s.pc < RAM_SIZE,
        fetch_spec(mem, s.pc) matches Ok(op) && decode_spec(op) is WaitKey,
    ensures
        ({
            let x = decode_spec(fetch_spec(mem, s.pc)->Ok_0)->WaitKey_0;
            match lowest_pressed(s.keys) {
                None => step_spec(s, mem, rnd) == (Ok::<StepOutcome, Fault>(
                    StepOutcome::AwaitingKey,
                ), s, mem),
                Some(k) => step_spec(s, mem, rnd) == executed(
                    CpuState { v: s.v.update(x as int, k), pc: (s.pc + 2) as u16, ..s },
                    mem,
                ) && s.pc + 2 == (s.pc + 2) as u16,
            }
        }),
{
}

/// Storing `V0` to `VX` with `FX55` and loading them back from the same
/// address with `FX65` gives back the registers as they were; memory keeps
/// the stored copy and only the program counter has moved, by four.
pub proof fn lemma_store_load_round_trip(
    s: CpuState,
    mem: Seq<u8>,
    x: u8,
    rnd_store: u8,
    rnd_load: u8,
)
    requires
        well_formed(s),
        mem.len() == RAM_SIZE,
        x < NUM_GPR,
        s.i + x < RAM_SIZE,
        s.pc < RAM_SIZE,
    ensures
        ({
            let (r1, s1, m1) = execute_spec(s, mem, Instruction::StoreRegs(x), rnd_store);
            let (r2, s2, m2) = execute_spec(s1, m1, Instruction::LoadRegs(x), rnd_load);
            &&& r1 == Ok::<StepOutcome, Fault>(StepOutcome::Executed)
            &&& r2 == Ok::<StepOutcome, Fault>(StepOutcome::Executed)
            &&& s2.v == s.v
            &&& s2 == CpuState { pc: (s.pc + 4) as u16, ..s }
            &&& m2 == loaded(mem, s.i as int, s.v.subrange(0, x + 1))
        }),
{
    let m1 = loaded(mem, s.i as int, s.v.subrange(0, x + 1));
    assert(with_loaded_regs(s.v, m1, s.i as int, x) =~= s.v);
}

/// The state at power-on: registers, timers and stack empty, the program
/// counter at the program start, display off, keys up.
pub open spec fn power_on_state() -> CpuState {
    CpuState {
        v: Seq::new(NUM_GPR as nat, |i: int| 0u8),
        i: 0,
        pc: PROGRAM_START_ADDR,
        stack: Seq::empty(),
        dt: 0,
        st: 0,
        display: Seq::new(DISPLAY_SIZE as nat, |i: int| false),
        keys: Seq::new(NUM_KEYS as nat, |i: int| false),
    }
}

/// Relies on rand::random, which draws a value from the thread-local
/// generator; nothing is known of the byte.
#[verifier::external_body]
fn random_byte() -> u8 {
    rand::random::<u8>()
}

/// Return addresses of the subroutines in progress, innermost last. Every
/// address is one the program counter held while an instruction was fetched
/// from memory, so it lies inside memory.
struct CallStack {
    slots: [u16; STACK_DEPTH],
    depth: u8,
}

impl View for CallStack {
    type V = Seq<u16>;

    closed spec fn view(&self) -> Seq<u16> {
        self.slots@.subrange(0, if self.depth <= STACK_DEPTH { self.depth as int } else { 0 })
    }
}

impl CallStack {
    #[verifier::type_invariant]
    spec fn inv(&self) -> bool {
        &&& self.depth <= STACK_DEPTH
        &&& forall|k: int| 0 <= k < STACK_DEPTH ==> self.slots@[k] < RAM_SIZE
    }

    fn new() -> (st: CallStack)
        ensures
            st@ == Seq::<u16>::empty(),
    {
        let st = CallStack { slots: [0; STACK_DEPTH], depth: 0 };
        assert(st@ =~= Seq::<u16>::empty());
        st
    }

    /// Pushes `addr`; a full stack is left as it is and refuses.
    fn push(&mut self, addr: u16) -> (pushed: bool)
        requires
            addr < RAM_SIZE,
        ensures
            pushed == (old(self)@.len() < STACK_DEPTH),
            pushed ==> final(self)@ == old(self)@.push(addr),
            !pushed ==> final(self)@ == old(self)@,
    {
        proof {
            use_type_invariant(&*self);
        }
        if (self.depth as usize) < STACK_DEPTH {
            let ghost before = self@;
            self.slots[self.depth as usize] = addr;
            self.depth = self.depth + 1;
            assert(self@ =~= before.push(addr));
            true
        } else {
            false
        }
    }

    /// Pops the innermost address, if there is one.
    fn pop(&mut self) -> (r: Option<u16>)
        ensures
            old(self)@.len() == 0 ==> r is None && final(self)@ == old(self)@,
            old(self)@.len() > 0 ==> r == Some(old(self)@.last()) && final(self)@ == old(
                self,
            )@.drop_last(),
            r matches Some(a) ==> a < RAM_SIZE,
    {
        proof {
            use_type_invariant(&*self);
        }
        if self.depth == 0 {
            None
        } else {
            let ghost before = self@;
            self.depth = self.depth - 1;
            assert(self@ =~= before.drop_last());
            Some(self.slots[self.depth as usize])
        }
    }
}

/// The processor: registers, call stack, timers, display and keypad.
pub struct Cpu {
    reg_gpr: [u8; NUM_GPR],
    reg_i: u16,
    reg_dt: u8,
    reg_st: u8,
    reg_pc: u16,
    stack: CallStack,
    gfx: Display,
    keys: Keypad,
}

impl View for Cpu {
    type V = CpuState;

    closed spec fn view(&self) -> CpuState {
        CpuState {
            v: self.reg_gpr@,
            i: self.reg_i,
            pc: self.reg_pc,
            stack: self.stack@,
            dt: self.reg_dt,
            st: self.reg_st,
            display: self.gfx@,
            keys: self.keys@,
        }
    }
}

impl Cpu {
    /// Every state of a `Cpu` is well formed.
    pub proof fn lemma_well_formed(&self)
        ensures
            well_formed(self@),
    {
        self.gfx.lemma_size();
        self.keys.lemma_size();
    }

    /// The processor at power-on.
    pub fn new() -> (cpu: Cpu)
        ensures
            cpu@ == power_on_state(),
    {
        let cpu = Cpu {
            reg_gpr: [0; NUM_GPR],
            reg_i: 0,
            reg_dt: 0,
            reg_st: 0,
            reg_pc: PROGRAM_START_ADDR,
            stack: CallStack::new(),
            gfx: Display::new(),
            keys: Keypad::new(),
        };
        assert(cpu@.v =~= Seq::new(NUM_GPR as nat, |i: int| 0u8));
        cpu
    }

    /// The delay timer.
    pub fn reg_dt(&self) -> (r: u8)
        ensures
            r == self@.dt,
    {
        self.reg_dt
    }

    /// The sound timer.
    pub fn reg_st(&self) -> (r: u8)
        ensures
            r == self@.st,
    {
        self.reg_st
    }

    /// The program counter.
    pub fn reg_pc(&self) -> (r: u16)
        ensures
            r == self@.pc,
    {
        self.reg_pc
    }

    /// The index register `I`.
    pub fn reg_i(&self) -> (r: u16)
        ensures
            r == self@.i,
    {
        self.reg_i
    }

    /// The display as one intensity per pixel, row-major.
    pub fn gfx(&self) -> (f: [u32; DISPLAY_SIZE])
        ensures
            f@ == Seq::new(
                DISPLAY_SIZE as nat,
                |i: int| crate::display::intensity(self@.display[i]),
            ),
    {
        self.gfx.frame()
    }

    /// Sets the delay timer.
    pub fn set_reg_dt(&mut self, reg_dt: u8)
        ensures
            final(self)@ == (CpuState { dt: reg_dt, ..old(self)@ }),
    {
        self.reg_dt = reg_dt;
    }

    /// Sets the sound timer.
    pub fn set_reg_st(&mut self, reg_st: u8)
        ensures
            final(self)@ == (CpuState { st: reg_st, ..old(self)@ }),
    {
        self.reg_st = reg_st;
    }

    /// The register that the second nibble of `opcode` names.
    pub fn get_reg_vx(&self, opcode: u16) -> (r: u8)
        ensures
            r == self@.v[op_x(opcode) as int],
    {
        proof {
            lemma_fields_in_range(opcode);
        }
        let x = ((opcode & 0x0F00) >> 8) as u8;
        self.reg_gpr[x as usize]
    }

    /// Sets the register that the second nibble of `opcode` names.
    pub fn set_reg_vx(&mut self, opcode: u16, value: u8)
        ensures
            final(self)@ == with_reg(old(self)@, op_x(opcode), value),
    {
        proof {
            lemma_fields_in_range(opcode);
        }
        let x = ((opcode & 0x0F00) >> 8) as u8;
        self.reg_gpr[x as usize] = value;
    }

    /// The register that the third nibble of `opcode` names.
    pub fn get_reg_vy(&self, opcode: u16) -> (r: u8)
        ensures
            r == self@.v[op_y(opcode) as int],
    {
        proof {
            lemma_fields_in_range(opcode);
        }
        let y = ((opcode & 0x00F0) >> 4) as u8;
        self.reg_gpr[y as usize]
    }

    /// Sets the register that the third nibble of `opcode` names.
    pub fn set_reg_vy(&mut self, opcode: u16, value: u8)
        ensures
            final(self)@ == with_reg(old(self)@, op_y(opcode), value),
    {
        proof {
            lemma_fields_in_range(opcode);
        }
        let y = ((opcode & 0x00F0) >> 4) as u8;
        self.reg_gpr[y as usize] = value;
    }

    /// Sets the state of keypad key `key`.
    pub fn set_key(&mut self, key: u8, pressed: bool)
        requires
            key < NUM_KEYS,
        ensures
            final(self)@ == (CpuState { keys: old(self)@.keys.update(key as int, pressed), ..old(self)@ }),
    {
        self.keys.set_pressed(key, pressed);
    }

    /// Replaces the keypad state with the keys that `pressed` stands for,
    /// and returns it.
    pub fn handle_keypress(&mut self, pressed: &[HostKey]) -> (r: [bool; NUM_KEYS])
        ensures
            final(self)@ == (CpuState { keys: final(self)@.keys, ..old(self)@ }),
            final(self)@.keys.len() == NUM_KEYS,
            forall|key: int|
                0 <= key < NUM_KEYS ==> #[trigger] final(self)@.keys[key]
                    == crate::keypad::held(pressed@, key),
            r@ == final(self)@.keys,
    {
        self.keys.refresh(pressed);
        self.keys.snapshot()
    }

    /// One tick of the 60 Hz timers: each nonzero timer counts down by one.
    /// Returns whether the tone should sound, that is whether the sound
    /// timer was nonzero.
    pub fn tick_timers(&mut self) -> (sound_on: bool)
        ensures
            sound_on == (old(self)@.st > 0),
            final(self)@ == (CpuState {
                dt: if old(self)@.dt > 0 { (old(self)@.dt - 1) as u8 } else { 0u8 },
                st: if old(self)@.st > 0 { (old(self)@.st - 1) as u8 } else { 0u8 },
                ..old(self)@
            }),
    {
        if self.reg_dt > 0 {
            self.reg_dt -= 1;
        }
        let sound_on = self.reg_st > 0;
        if sound_on {
            self.reg_st -= 1;
        }
        sound_on
    }

    /// Executes the instruction that `op` encodes; `random` is the byte that
    /// `CXNN` masks. The instruction is taken to lie at the program counter,
    /// which is therefore inside memory.
    pub fn execute(&mut self, ram: &mut Ram, op: u16, random: u8) -> (r: Result<
        StepOutcome,
        Fault,
    >)
        requires
            old(self)@.pc < RAM_SIZE,
        ensures
            (r, final(self)@, final(ram)@) == execute_spec(
                old(self)@,
                old(ram)@,
                decode_spec(op),
                random,
            ),
            !is_control_flow(decode_spec(op)) && r is Ok && r != Ok::<StepOutcome, Fault>(
                StepOutcome::AwaitingKey,
            ) ==> final(self)@.pc == old(self)@.pc + 2,
            is_skip(decode_spec(op)) ==> r == Ok::<StepOutcome, Fault>(StepOutcome::Executed)
                && final(self)@.pc == old(self)@.pc + if skip_taken(old(self)@, decode_spec(op)) {
                4int
            } else {
                2int
            },
    {
        let ins = decode(op);
        let r = self.execute_instruction(ram, ins, random);
        proof {
            if is_skip(ins) {
                lemma_skip_advances(old(self)@, old(ram)@, ins, random);
            } else if !is_control_flow(ins) {
                lemma_straight_line_advances(old(self)@, old(ram)@, ins, random);
            }
        }
        r
    }

    /// Executes `ins`, as `execute` does for the opcode that encodes it.
    fn execute_instruction(&mut self, ram: &mut Ram, ins: Instruction, random: u8) -> (r: Result<
        StepOutcome,
        Fault,
    >)
        requires
            old(self)@.pc < RAM_SIZE,
            operands_valid(ins),
        ensures
            (r, final(self)@, final(ram)@) == execute_spec(old(self)@, old(ram)@, ins, random),
    {
        proof {
            ram.lemma_size();
            self.lemma_well_formed();
        }
        let pc = self.reg_pc;
        match ins {
            Instruction::ClearScreen => {
                self.gfx.clear();
                self.reg_pc = pc + 2;
            },
            Instruction::Return => match self.stack.pop() {
                Some(addr) => self.reg_pc = addr + 2,
                None => return Err(Fault::StackUnderflow),
            },
            Instruction::Jump(nnn) => self.reg_pc = nnn,
            Instruction::Call(nnn) => {
                if !self.stack.push(pc) {
                    return Err(Fault::StackOverflow);
                }
                self.reg_pc = nnn;
            },
            Instruction::SkipIfEqImm(x, nn) => {
                self.reg_pc = if self.reg_gpr[x as usize] == nn { pc + 4 } else { pc + 2 };
            },
            Instruction::SkipIfNeImm(x, nn) => {
                self.reg_pc = if self.reg_gpr[x as usize] != nn { pc + 4 } else { pc + 2 };
            },
            Instruction::SkipIfEqReg(x, y) => {
                let skip = self.reg_gpr[x as usize] == self.reg_gpr[y as usize];
                self.reg_pc = if skip { pc + 4 } else { pc + 2 };
            },
            Instruction::SkipIfNeReg(x, y) => {
                let skip = self.reg_gpr[x as usize] != self.reg_gpr[y as usize];
                self.reg_pc = if skip { pc + 4 } else { pc + 2 };
            },
            Instruction::SetImm(x, nn) => {
                self.reg_gpr[x as usize] = nn;
                self.reg_pc = pc + 2;
            },
            Instruction::AddImm(x, nn) => {
                self.reg_gpr[x as usize] = self.reg_gpr[x as usize].wrapping_add(nn);
                self.reg_pc = pc + 2;
            },
            Instruction::SetReg(..) | Instruction::Or(..) | Instruction::And(..)
            | Instruction::Xor(..) | Instruction::AddReg(..) | Instruction::SubReg(..)
            | Instruction::ShiftRight(..) | Instruction::SubReverse(..)
            | Instruction::ShiftLeft(..) => {
                self.execute_alu(ins);
                self.reg_pc = pc + 2;
            },
            Instruction::SetIndex(nnn) => {
                self.reg_i = nnn;
                self.reg_pc = pc + 2;
            },
            Instruction::JumpOffset(nnn) => {
                self.reg_pc = nnn + self.reg_gpr[0] as u16;
            },
            Instruction::Random(x, nn) => {
                self.reg_gpr[x as usize] = random & nn;
                self.reg_pc = pc + 2;
            },
            Instruction::Draw(..) | Instruction::Bcd(..) | Instruction::StoreRegs(..)
            | Instruction::LoadRegs(..) => return self.execute_memory(ram, ins),
            Instruction::SkipIfKey(x) => {
                let skip = self.keys.is_pressed(self.reg_gpr[x as usize]);
                self.reg_pc = if skip { pc + 4 } else { pc + 2 };
            },
            Instruction::SkipIfNotKey(x) => {
                let skip = !self.keys.is_pressed(self.reg_gpr[x as usize]);
                self.reg_pc = if skip { pc + 4 } else { pc + 2 };
            },
            Instruction::GetDelay(x) => {
                self.reg_gpr[x as usize] = self.reg_dt;
                self.reg_pc = pc + 2;
            },
            Instruction::WaitKey(x) => match self.keys.first_pressed() {
                Some(key) => {
                    self.reg_gpr[x as usize] = key;
                    self.reg_pc = pc + 2;
                },
                None => return Ok(StepOutcome::AwaitingKey),
            },
            Instruction::SetDelay(x) => {
                self.reg_dt = self.reg_gpr[x as usize];
                self.reg_pc = pc + 2;
            },
            Instruction::SetSound(x) => {
                self.reg_st = self.reg_gpr[x as usize];
                self.reg_pc = pc + 2;
            },
            Instruction::AddIndex(x) => {
                self.reg_i = self.reg_i.wrapping_add(self.reg_gpr[x as usize] as u16);
                self.reg_pc = pc + 2;
            },
            Instruction::FontChar(x) => {
                self.reg_i = self.reg_gpr[x as usize] as u16 * FONT_SPRITE_LEN;
                self.reg_pc = pc + 2;
            },
            Instruction::Invalid(op) => {
                self.reg_pc = pc + 2;
                return Ok(StepOutcome::InvalidOpcode(op));
            },
        }
        Ok(StepOutcome::Executed)
    }

    /// Executes the register-to-register instruction `ins`, leaving the
    /// program counter to the caller.
    fn execute_alu(&mut self, ins: Instruction)
        requires
            is_alu(ins),
            operands_valid(ins),
        ensures
            final(self)@ == alu_spec(old(self)@, ins),
    {
        match ins {
            Instruction::SetReg(x, y) => {
                self.reg_gpr[x as usize] = self.reg_gpr[y as usize];
            },
            Instruction::Or(x, y) => {
                self.reg_gpr[x as usize] = self.reg_gpr[x as usize] | self.reg_gpr[y as usize];
            },
            Instruction::And(x, y) => {
                self.reg_gpr[x as usize] = self.reg_gpr[x as usize] & self.reg_gpr[y as usize];
            },
            Instruction::Xor(x, y) => {
                self.reg_gpr[x as usize] = self.reg_gpr[x as usize] ^ self.reg_gpr[y as usize];
            },
            Instruction::AddReg(x, y) => {
                let (vx, vy) = (self.reg_gpr[x as usize], self.reg_gpr[y as usize]);
                self.reg_gpr[FLAG as usize] = if vy > 0xFF - vx { 1 } else { 0 };
                self.reg_gpr[x as usize] = vx.wrapping_add(vy);
            },
            Instruction::SubReg(x, y) => {
                let (vx, vy) = (self.reg_gpr[x as usize], self.reg_gpr[y as usize]);
                self.reg_gpr[FLAG as usize] = if vx > vy { 1 } else { 0 };
                self.reg_gpr[x as usize] = vx.wrapping_sub(vy);
            },
            Instruction::ShiftRight(x) => {
                let vx = self.reg_gpr[x as usize];
                self.reg_gpr[FLAG as usize] = vx & 1;
                self.reg_gpr[x as usize] = vx >> 1u8;
            },
            Instruction::SubReverse(x, y) => {
                let (vx, vy) = (self.reg_gpr[x as usize], self.reg_gpr[y as usize]);
                self.reg_gpr[FLAG as usize] = if vy > vx { 1 } else { 0 };
                self.reg_gpr[x as usize] = vy.wrapping_sub(vx);
            },
            Instruction::ShiftLeft(x) => {
                let vx = self.reg_gpr[x as usize];
                self.reg_gpr[FLAG as usize] = vx >> 7u8;
                self.reg_gpr[x as usize] = vx << 1u8;
            },
            _ => {},
        }
    }

    /// Executes the memory instruction `ins`: a sprite draw, a decimal
    /// store, a register store or a register load.
    fn execute_memory(&mut self, ram: &mut Ram, ins: Instruction) -> (r: Result<
        StepOutcome,
        Fault,
    >)
        requires
            old(self)@.pc < RAM_SIZE,
            operands_valid(ins),
            ins is Draw || ins is Bcd || ins is StoreRegs || ins is LoadRegs,
        ensures
            forall|rnd: u8|
                (r, final(self)@, final(ram)@) == #[trigger] execute_spec(
                    old(self)@,
                    old(ram)@,
                    ins,
                    rnd,
                ),
    {
        proof {
            ram.lemma_size();
            self.lemma_well_formed();
        }
        let pc = self.reg_pc;
        match ins {
            Instruction::Draw(x, y, n) => {
                let rows = match ram.read_bytes(self.reg_i as usize, n as usize) {
                    Ok(rows) => rows,
                    Err(e) => return Err(Fault::Memory(e)),
                };
                let (vx, vy) = (self.reg_gpr[x as usize], self.reg_gpr[y as usize]);
                let hit = self.gfx.draw_sprite(rows.as_slice(), vx, vy);
                self.reg_gpr[FLAG as usize] = if hit { 1 } else { 0 };
                self.reg_pc = pc + 2;
            },
            Instruction::Bcd(x) => {
                let vx = self.reg_gpr[x as usize];
                let digits: [u8; 3] = [vx / 100, (vx / 10) % 10, vx % 10];
                assert(digits@ =~= bcd_digits(vx));
                if let Err(e) = ram.load(self.reg_i as usize, &digits) {
                    return Err(Fault::Memory(e));
                }
                self.reg_pc = pc + 2;
            },
            Instruction::StoreRegs(x) => {
                let mut regs: Vec<u8> = Vec::new();
                for j in 0..x as usize + 1
                    invariant
                        x < NUM_GPR,
                        regs@ == self@.v.subrange(0, j as int),
                {
                    regs.push(self.reg_gpr[j]);
                    assert(regs@ =~= self@.v.subrange(0, j + 1));
                }
                if let Err(e) = ram.load(self.reg_i as usize, regs.as_slice()) {
                    return Err(Fault::Memory(e));
                }
                self.reg_pc = pc + 2;
            },
            Instruction::LoadRegs(x) => {
                let bytes = match ram.read_bytes(self.reg_i as usize, x as usize + 1) {
                    Ok(bytes) => bytes,
                    Err(e) => return Err(Fault::Memory(e)),
                };
                let ghost start = self@;
                for j in 0..x as usize + 1
                    invariant
                        x < NUM_GPR,
                        bytes@ == bytes_at(ram@, start.i as int, x + 1),
                        self@ == (CpuState { v: self@.v, ..start }),
                        self@.v.len() == NUM_GPR,
                        forall|k: int| 0 <= k < j ==> self@.v[k] == ram@[start.i + k],
                        forall|k: int| j <= k < NUM_GPR ==> self@.v[k] == start.v[k],
                {
                    self.reg_gpr[j] = bytes[j];
                }
                assert(self@.v =~= with_loaded_regs(start.v, ram@, start.i as int, x));
                self.reg_pc = pc + 2;
            },
            _ => {},
        }
        Ok(StepOutcome::Executed)
    }

    /// One fetch-decode-execute step: reads the big-endian opcode at the
    /// program counter and executes it, drawing a random byte for `CXNN`.
    pub fn run_instruction(&mut self, ram: &mut Ram) -> (r: Result<StepOutcome, Fault>)
        ensures
            exists|rnd: u8| (r, final(self)@, final(ram)@) == step_spec(old(self)@, old(ram)@, rnd),
    {
        proof {
            ram.lemma_size();
        }
        let pc = self.reg_pc;
        let hi = match ram.read_byte(pc as usize) {
            Ok(b) => b,
            Err(e) => {
                assert(faulted(self@, ram@, Fault::Memory(e)) == step_spec(self@, ram@, 0u8));
                return Err(Fault::Memory(e));
            },
        };
        let lo = match ram.read_byte(pc as usize + 1) {
            Ok(b) => b,
            Err(e) => {
                assert(faulted(self@, ram@, Fault::Memory(e)) == step_spec(self@, ram@, 0u8));
                return Err(Fault::Memory(e));
            },
        };
        let op: u16 = ((hi as u16) << 8) | (lo as u16);
        let rnd = if op >> 12 == 0xC { random_byte() } else { 0 };
        let r = self.execute(ram, op, rnd);
        assert((r, self@, ram@) == step_spec(old(self)@, old(ram)@, rnd));
        r
    }
}

} // verus!
