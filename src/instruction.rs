//! Decoding of 16-bit opcodes into instructions.

use vstd::prelude::*;

verus! {

/// One decoded instruction. Register operands are register numbers 0 to 15;
/// the opcode pattern each variant comes from is given in its comment.
#[derive(Clone, Copy, Debug, PartialEq, Eq, Structural)]
pub enum Instruction {
    /// `00E0`: turn every pixel off.
    ClearScreen,
    /// `00EE`: return from a subroutine.
    Return,
    /// `1NNN`: continue at `NNN`.
    Jump(u16),
    /// `2NNN`: call the subroutine at `NNN`.
    Call(u16),
    /// `3XNN`: skip the next instruction if `VX == NN`.
    SkipIfEqImm(u8, u8),
    /// `4XNN`: skip the next instruction if `VX != NN`.
    SkipIfNeImm(u8, u8),
    /// `5XY0`: skip the next instruction if `VX == VY`.
    SkipIfEqReg(u8, u8),
    /// `9XY0`: skip the next instruction if `VX != VY`.
    SkipIfNeReg(u8, u8),
    /// `6XNN`: `VX := NN`.
    SetImm(u8, u8),
    /// `7XNN`: `VX := VX + NN`, wrapping, flag untouched.
    AddImm(u8, u8),
    /// `8XY0`: `VX := VY`.
    SetReg(u8, u8),
    /// `8XY1`: `VX := VX | VY`.
    Or(u8, u8),
    /// `8XY2`: `VX := VX & VY`.
    And(u8, u8),
    /// `8XY3`: `VX := VX ^ VY`.
    Xor(u8, u8),
    /// `8XY4`: `VX := VX + VY`, wrapping; `VF` is the carry.
    AddReg(u8, u8),
    /// `8XY5`: `VX := VX - VY`, wrapping; `VF := 1` when `VX > VY`.
    SubReg(u8, u8),
    /// `8XY6`: `VX := VX >> 1`; `VF` is the bit shifted out.
    ShiftRight(u8),
    /// `8XY7`: `VX := VY - VX`, wrapping; `VF := 1` when `VY > VX`. Some
    /// interpreters write the difference to `VY` instead; this one keeps the
    /// usual `VX` target.
    SubReverse(u8, u8),
    /// `8XYE`: `VX := VX << 1`, wrapping; `VF` is the bit shifted out.
    ShiftLeft(u8),
    /// `ANNN`: `I := NNN`.
    SetIndex(u16),
    /// `BNNN`: continue at `NNN + V0`.
    JumpOffset(u16),
    /// `CXNN`: `VX := random byte & NN`.
    Random(u8, u8),
    /// `DXYN`: draw the `N`-row sprite at `I` at `(VX, VY)`.
    Draw(u8, u8, u8),
    /// `EX9E`: skip the next instruction if key `VX` is down.
    SkipIfKey(u8),
    /// `EXA1`: skip the next instruction if key `VX` is up.
    SkipIfNotKey(u8),
    /// `FX07`: `VX := delay timer`.
    GetDelay(u8),
    /// `FX0A`: wait until a key is down, then `VX :=` that key.
    WaitKey(u8),
    /// `FX15`: `delay timer := VX`.
    SetDelay(u8),
    /// `FX18`: `sound timer := VX`.
    SetSound(u8),
    /// `FX1E`: `I := I + VX`, wrapping at 16 bits, flag untouched.
    AddIndex(u8),
    /// `FX29`: `I :=` address of the font sprite of digit `VX`.
    FontChar(u8),
    /// `FX33`: store the decimal digits of `VX` at `I`, `I + 1`, `I + 2`.
    Bcd(u8),
    /// `FX55`: store `V0` to `VX` at `I` onwards.
    StoreRegs(u8),
    /// `FX65`: load `V0` to `VX` from `I` onwards.
    LoadRegs(u8),
    /// Any other opcode.
    Invalid(u16),
}

/// The register named by the second nibble of `op`.
pub open spec fn op_x(op: u16) -> u8 {
    ((op & 0x0F00) >> 8) as u8
}

/// The register named by the third nibble of `op`.
pub open spec fn op_y(op: u16) -> u8 {
    ((op & 0x00F0) >> 4) as u8
}

/// The last nibble of `op`.
pub open spec fn op_n(op: u16) -> u8 {
    (op & 0x000F) as u8
}

/// The last byte of `op`.
pub open spec fn op_nn(op: u16) -> u8 {
    (op & 0x00FF) as u8
}

/// The last twelve bits of `op`, an address.
pub open spec fn op_nnn(op: u16) -> u16 {
    op & 0x0FFF
}

/// The instruction that `op` encodes.
pub open spec fn decode_spec(op: u16) -> Instruction {
    let x = op_x(op);
    let y = op_y(op);
    let n = op_n(op);
    let nn = op_nn(op);
    let nnn = op_nnn(op);
    let group = op >> 12;
    if group == 0x0 {
        if op == 0x00E0 {
            Instruction::ClearScreen
        } else if op == 0x00EE {
            Instruction::Return
        } else {
            Instruction::Invalid(op)
        }
    } else if group == 0x1 {
        Instruction::Jump(nnn)
    } else if group == 0x2 {
        Instruction::Call(nnn)
    } else if group == 0x3 {
        Instruction::SkipIfEqImm(x, nn)
    } else if group == 0x4 {
        Instruction::SkipIfNeImm(x, nn)
    } else if group == 0x5 {
        if n == 0 {
            Instruction::SkipIfEqReg(x, y)
        } else {
            Instruction::Invalid(op)
        }
    } else if group == 0x6 {
        Instruction::SetImm(x, nn)
    } else if group == 0x7 {
        Instruction::AddImm(x, nn)
    } else if group == 0x8 {
        if n == 0x0 {
            Instruction::SetReg(x, y)
        } else if n == 0x1 {
            Instruction::Or(x, y)
        } else if n == 0x2 {
            Instruction::And(x, y)
        } else if n == 0x3 {
            Instruction::Xor(x, y)
        } else if n == 0x4 {
            Instruction::AddReg(x, y)
        } else if n == 0x5 {
            Instruction::SubReg(x, y)
        } else if n == 0x6 {
            Instruction::ShiftRight(x)
        } else if n == 0x7 {
            Instruction::SubReverse(x, y)
        } else if n == 0xE {
            Instruction::ShiftLeft(x)
        } else {
            Instruction::Invalid(op)
        }
    } else if group == 0x9 {
        if n == 0 {
            Instruction::SkipIfNeReg(x, y)
        } else {
            Instruction::Invalid(op)
        }
    } else if group == 0xA {
        Instruction::SetIndex(nnn)
    } else if group == 0xB {
        Instruction::JumpOffset(nnn)
    } else if group == 0xC {
        Instruction::Random(x, nn)
    } else if group == 0xD {
        Instruction::Draw(x, y, n)
    } else if group == 0xE {
        if nn == 0x9E {
            Instruction::SkipIfKey(x)
        } else if nn == 0xA1 {
            Instruction::SkipIfNotKey(x)
        } else {
            Instruction::Invalid(op)
        }
    } else if nn == 0x07 {
        Instruction::GetDelay(x)
    } else if nn == 0x0A {
        Instruction::WaitKey(x)
    } else if nn == 0x15 {
        Instruction::SetDelay(x)
    } else if nn == 0x18 {
        Instruction::SetSound(x)
    } else if nn == 0x1E {
        Instruction::AddIndex(x)
    } else if nn == 0x29 {
        Instruction::FontChar(x)
    } else if nn == 0x33 {
        Instruction::Bcd(x)
    } else if nn == 0x55 {
        Instruction::StoreRegs(x)
    } else if nn == 0x65 {
        Instruction::LoadRegs(x)
    } else {
        Instruction::Invalid(op)
    }
}

/// Whether the operands of `ins` are in the ranges an opcode can encode:
/// register numbers and sprite heights below 16, addresses below 0x1000.
pub open spec fn operands_valid(ins: Instruction) -> bool {
    match ins {
        Instruction::Jump(a) | Instruction::Call(a) | Instruction::SetIndex(a)
        | Instruction::JumpOffset(a) => a < 0x1000,
        Instruction::SkipIfEqImm(x, _) | Instruction::SkipIfNeImm(x, _) | Instruction::SetImm(x, _)
        | Instruction::AddImm(x, _) | Instruction::Random(x, _) => x < 16,
        Instruction::SkipIfEqReg(x, y) | Instruction::SkipIfNeReg(x, y) | Instruction::SetReg(x, y)
        | Instruction::Or(x, y) | Instruction::And(x, y) | Instruction::Xor(x, y)
        | Instruction::AddReg(x, y) | Instruction::SubReg(x, y) | Instruction::SubReverse(x, y) => x
            < 16 && y < 16,
        Instruction::ShiftRight(x) | Instruction::ShiftLeft(x) | Instruction::SkipIfKey(x)
        | Instruction::SkipIfNotKey(x) | Instruction::GetDelay(x) | Instruction::WaitKey(x)
        | Instruction::SetDelay(x) | Instruction::SetSound(x) | Instruction::AddIndex(x)
        | Instruction::FontChar(x) | Instruction::Bcd(x) | Instruction::StoreRegs(x)
        | Instruction::LoadRegs(x) => x < 16,
        Instruction::Draw(x, y, n) => x < 16 && y < 16 && n < 16,
        Instruction::ClearScreen | Instruction::Return | Instruction::Invalid(_) => true,
    }
}

/// Register numbers taken from an opcode are below 16.
pub proof fn lemma_fields_in_range(op: u16)
    ensures
        op_x(op) < 16,
        op_y(op) < 16,
        op_n(op) < 16,
        op_nnn(op) < 0x1000,
{
    assert(((op & 0x0F00) >> 8) < 16) by (bit_vector);
    assert(((op & 0x00F0) >> 4) < 16) by (bit_vector);
    assert((op & 0x000F) < 16) by (bit_vector);
    assert((op & 0x0FFF) < 0x1000) by (bit_vector);
}

/// Decodes `op`.
pub fn decode(op: u16) -> (ins: Instruction)
    ensures
        ins == decode_spec(op),
        operands_valid(ins),
{
    proof {
        lemma_fields_in_range(op);
    }
    let x = ((op & 0x0F00) >> 8) as u8;
    let y = ((op & 0x00F0) >> 4) as u8;
    let n = (op & 0x000F) as u8;
    let nn = (op & 0x00FF) as u8;
    let nnn = op & 0x0FFF;
    match op >> 12 {
        0x0 => if op == 0x00E0 {
            Instruction::ClearScreen
        } else if op == 0x00EE {
            Instruction::Return
        } else {
            Instruction::Invalid(op)
        },
        0x1 => Instruction::Jump(nnn),
        0x2 => Instruction::Call(nnn),
        0x3 => Instruction::SkipIfEqImm(x, nn),
        0x4 => Instruction::SkipIfNeImm(x, nn),
        0x5 => if n == 0 {
            Instruction::SkipIfEqReg(x, y)
        } else {
            Instruction::Invalid(op)
        },
        0x6 => Instruction::SetImm(x, nn),
        0x7 => Instruction::AddImm(x, nn),
        0x8 => match n {
            0x0 => Instruction::SetReg(x, y),
            0x1 => Instruction::Or(x, y),
            0x2 => Instruction::And(x, y),
            0x3 => Instruction::Xor(x, y),
            0x4 => Instruction::AddReg(x, y),
            0x5 => Instruction::SubReg(x, y),
            0x6 => Instruction::ShiftRight(x),
            0x7 => Instruction::SubReverse(x, y),
            0xE => Instruction::ShiftLeft(x),
            _ => Instruction::Invalid(op),
        },
        0x9 => if n == 0 {
            Instruction::SkipIfNeReg(x, y)
        } else {
            Instruction::Invalid(op)
        },
        0xA => Instruction::SetIndex(nnn),
        0xB => Instruction::JumpOffset(nnn),
        0xC => Instruction::Random(x, nn),
        0xD => Instruction::Draw(x, y, n),
        0xE => match nn {
            0x9E => Instruction::SkipIfKey(x),
            0xA1 => Instruction::SkipIfNotKey(x),
            _ => Instruction::Invalid(op),
        },
        _ => match nn {
            0x07 => Instruction::GetDelay(x),
            0x0A => Instruction::WaitKey(x),
            0x15 => Instruction::SetDelay(x),
            0x18 => Instruction::SetSound(x),
            0x1E => Instruction::AddIndex(x),
            0x29 => Instruction::FontChar(x),
            0x33 => Instruction::Bcd(x),
            0x55 => Instruction::StoreRegs(x),
            0x65 => Instruction::LoadRegs(x),
            _ => Instruction::Invalid(op),
        },
    }
}

} // verus!
