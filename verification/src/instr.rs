//! Instruction decoding: each 16-bit opcode word is decoded into a tagged
//! variant carrying its operands, so that execution can dispatch over a
//! single enumeration. The opcode class is the top four bits; a register
//! index is always a 4-bit field, an address the low 12 bits, an immediate
//! the low 8 bits.

use vstd::prelude::*;

verus! {

/// One decoded instruction. Register operands are named `x` and `y`, an
/// immediate byte `nn`, an address `nnn`, a sprite height `n`.
#[derive(Clone, Copy, Debug, PartialEq, Eq, Structural)]
pub enum Instruction {
    /// 00E0: set every display cell to unlit.
    ClearDisplay,
    /// 00EE: pop the call stack into the program counter.
    Return,
    /// 1NNN: jump to `nnn`.
    Jump(u16),
    /// 2NNN: push the return address, then jump to `nnn`.
    Call(u16),
    /// 3XNN: skip the next instruction if register `x` equals `nn`.
    SkipEqImm(u8, u8),
    /// 4XNN: skip the next instruction if register `x` differs from `nn`.
    SkipNeImm(u8, u8),
    /// 5XY0: skip the next instruction if registers `x` and `y` are equal.
    SkipEqReg(u8, u8),
    /// 6XNN: load `nn` into register `x`.
    LoadImm(u8, u8),
    /// 7XNN: add `nn` to register `x`, wrapping, with no flag change.
    AddImm(u8, u8),
    /// 8XY0: copy register `y` into register `x`.
    RegCopy(u8, u8),
    /// 8XY1: bitwise OR of registers `x` and `y` into register `x`.
    RegOr(u8, u8),
    /// 8XY2: bitwise AND of registers `x` and `y` into register `x`.
    RegAnd(u8, u8),
    /// 8XY3: bitwise XOR of registers `x` and `y` into register `x`.
    RegXor(u8, u8),
    /// 8XY4: add register `y` to register `x`; the flag register takes the
    /// carry out of the top bit.
    RegAdd(u8, u8),
    /// 8XY5: subtract register `y` from register `x`; the flag register is 1
    /// exactly when no borrow occurred.
    RegSub(u8, u8),
    /// 8XY6: shift register `x` right by one; the flag register takes the
    /// bit shifted out.
    RegShr(u8),
    /// 8XY7: set register `x` to register `y` minus register `x`; the flag
    /// register is 1 exactly when no borrow occurred.
    RegSubRev(u8, u8),
    /// 8XYE: shift register `x` left by one; the flag register takes the
    /// bit shifted out.
    RegShl(u8),
    /// 9XY0: skip the next instruction if registers `x` and `y` differ.
    SkipNeReg(u8, u8),
    /// ANNN: load `nnn` into the index register.
    SetIndex(u16),
    /// BNNN: jump to `nnn` plus register 0.
    JumpOffset(u16),
    /// CXNN: load a random byte ANDed with `nn` into register `x`.
    Random(u8, u8),
    /// DXYN: blit the `n`-row sprite at the index register to the cell
    /// named by registers `x` and `y`; the flag register takes the
    /// collision flag.
    Draw(u8, u8, u8),
    /// EX9E: skip the next instruction if the key named by register `x`
    /// is pressed.
    SkipKeyPressed(u8),
    /// EXA1: skip the next instruction if the key named by register `x`
    /// is not pressed.
    SkipKeyNotPressed(u8),
    /// FX07: read the delay timer into register `x`.
    ReadDelay(u8),
    /// FX0A: wait for a key press; the program counter does not advance
    /// until some key is pressed.
    WaitKey(u8),
    /// FX15: set the delay timer from register `x`.
    SetDelay(u8),
    /// FX18: set the sound timer from register `x`.
    SetSound(u8),
    /// FX1E: add register `x` to the index register, wrapping.
    AddIndex(u8),
    /// FX29: point the index register at the font glyph of the digit in
    /// register `x`.
    FontAddress(u8),
    /// FX33: store the decimal digits of register `x` at the index
    /// register's address.
    StoreBcd(u8),
    /// FX55: store registers 0 through `x` to memory at the index register.
    StoreRegs(u8),
    /// FX65: load registers 0 through `x` from memory at the index register.
    LoadRegs(u8),
    /// Any bit pattern outside the recognized encodings; executing it is a
    /// benign no-op.
    Unknown,
}

/// The `x` register field: bits 8..12.
pub open spec fn op_x(op: u16) -> u8 {
    ((op >> 8) & 0xF) as u8
}

/// The `y` register field: bits 4..8.
pub open spec fn op_y(op: u16) -> u8 {
    ((op >> 4) & 0xF) as u8
}

/// The height field: the low 4 bits.
pub open spec fn op_n(op: u16) -> u8 {
    (op & 0xF) as u8
}

/// The immediate byte: the low 8 bits.
pub open spec fn op_nn(op: u16) -> u8 {
    (op & 0xFF) as u8
}

/// The address field: the low 12 bits.
pub open spec fn op_nnn(op: u16) -> u16 {
    op & 0xFFF
}

/// What an opcode word decodes to.
pub open spec fn decode_spec(op: u16) -> Instruction {
    let class = op >> 12;
    if class == 0x0 {
        if op_nn(op) == 0xE0 {
            Instruction::ClearDisplay
        } else if op_nn(op) == 0xEE {
            Instruction::Return
        } else {
            Instruction::Unknown
        }
    } else if class == 0x1 {
        Instruction::Jump(op_nnn(op))
    } else if class == 0x2 {
        Instruction::Call(op_nnn(op))
    } else if class == 0x3 {
        Instruction::SkipEqImm(op_x(op), op_nn(op))
    } else if class == 0x4 {
        Instruction::SkipNeImm(op_x(op), op_nn(op))
    } else if class == 0x5 {
        Instruction::SkipEqReg(op_x(op), op_y(op))
    } else if class == 0x6 {
        Instruction::LoadImm(op_x(op), op_nn(op))
    } else if class == 0x7 {
        Instruction::AddImm(op_x(op), op_nn(op))
    } else if class == 0x8 {
        let k = op_n(op);
        if k == 0x0 {
            Instruction::RegCopy(op_x(op), op_y(op))
        } else if k == 0x1 {
            Instruction::RegOr(op_x(op), op_y(op))
        } else if k == 0x2 {
            Instruction::RegAnd(op_x(op), op_y(op))
        } else if k == 0x3 {
            Instruction::RegXor(op_x(op), op_y(op))
        } else if k == 0x4 {
            Instruction::RegAdd(op_x(op), op_y(op))
        } else if k == 0x5 {
            Instruction::RegSub(op_x(op), op_y(op))
        } else if k == 0x6 {
            Instruction::RegShr(op_x(op))
        } else if k == 0x7 {
            Instruction::RegSubRev(op_x(op), op_y(op))
        } else if k == 0xE {
            Instruction::RegShl(op_x(op))
        } else {
            Instruction::Unknown
        }
    } else if class == 0x9 {
        Instruction::SkipNeReg(op_x(op), op_y(op))
    } else if class == 0xA {
        Instruction::SetIndex(op_nnn(op))
    } else if class == 0xB {
        Instruction::JumpOffset(op_nnn(op))
    } else if class == 0xC {
        Instruction::Random(op_x(op), op_nn(op))
    } else if class == 0xD {
        Instruction::Draw(op_x(op), op_y(op), op_n(op))
    } else if class == 0xE {
        if op_nn(op) == 0x9E {
            Instruction::SkipKeyPressed(op_x(op))
        } else if op_nn(op) == 0xA1 {
            Instruction::SkipKeyNotPressed(op_x(op))
        } else {
            Instruction::Unknown
        }
    } else if class == 0xF {
        let nn = op_nn(op);
        if nn == 0x07 {
            Instruction::ReadDelay(op_x(op))
        } else if nn == 0x0A {
            Instruction::WaitKey(op_x(op))
        } else if nn == 0x15 {
            Instruction::SetDelay(op_x(op))
        } else if nn == 0x18 {
            Instruction::SetSound(op_x(op))
        } else if nn == 0x1E {
            Instruction::AddIndex(op_x(op))
        } else if nn == 0x29 {
            Instruction::FontAddress(op_x(op))
        } else if nn == 0x33 {
            Instruction::StoreBcd(op_x(op))
        } else if nn == 0x55 {
            Instruction::StoreRegs(op_x(op))
        } else if nn == 0x65 {
            Instruction::LoadRegs(op_x(op))
        } else {
            Instruction::Unknown
        }
    } else {
        Instruction::Unknown
    }
}

impl Instruction {
    /// Every operand field lies in its encoding's range: register indices
    /// and heights in 4 bits, addresses in 12 bits.
    pub open spec fn wf(self) -> bool {
        match self {
            Instruction::ClearDisplay => true,
            Instruction::Return => true,
            Instruction::Jump(nnn) => nnn < 0x1000,
            Instruction::Call(nnn) => nnn < 0x1000,
            Instruction::SkipEqImm(x, _nn) => x < 16,
            Instruction::SkipNeImm(x, _nn) => x < 16,
            Instruction::SkipEqReg(x, y) => x < 16 && y < 16,
            Instruction::LoadImm(x, _nn) => x < 16,
            Instruction::AddImm(x, _nn) => x < 16,
            Instruction::RegCopy(x, y) => x < 16 && y < 16,
            Instruction::RegOr(x, y) => x < 16 && y < 16,
            Instruction::RegAnd(x, y) => x < 16 && y < 16,
            Instruction::RegXor(x, y) => x < 16 && y < 16,
            Instruction::RegAdd(x, y) => x < 16 && y < 16,
            Instruction::RegSub(x, y) => x < 16 && y < 16,
            Instruction::RegShr(x) => x < 16,
            Instruction::RegSubRev(x, y) => x < 16 && y < 16,
            Instruction::RegShl(x) => x < 16,
            Instruction::SkipNeReg(x, y) => x < 16 && y < 16,
            Instruction::SetIndex(nnn) => nnn < 0x1000,
            Instruction::JumpOffset(nnn) => nnn < 0x1000,
            Instruction::Random(x, _nn) => x < 16,
            Instruction::Draw(x, y, n) => x < 16 && y < 16 && n < 16,
            Instruction::SkipKeyPressed(x) => x < 16,
            Instruction::SkipKeyNotPressed(x) => x < 16,
            Instruction::ReadDelay(x) => x < 16,
            Instruction::WaitKey(x) => x < 16,
            Instruction::SetDelay(x) => x < 16,
            Instruction::SetSound(x) => x < 16,
            Instruction::AddIndex(x) => x < 16,
            Instruction::FontAddress(x) => x < 16,
            Instruction::StoreBcd(x) => x < 16,
            Instruction::StoreRegs(x) => x < 16,
            Instruction::LoadRegs(x) => x < 16,
            Instruction::Unknown => true,
        }
    }
}

/// Decoding never produces an operand outside its field's range.
pub proof fn lemma_decode_wf(op: u16)
    ensures
        decode_spec(op).wf(),
{
    assert(((op >> 8) & 0xF) < 16) by (bit_vector);
    assert(((op >> 4) & 0xF) < 16) by (bit_vector);
    assert((op & 0xF) < 16) by (bit_vector);
    assert((op & 0xFFF) < 0x1000) by (bit_vector);
}

/// Decode an opcode word into its instruction.
pub fn decode(op: u16) -> (ins: Instruction)
    ensures
        ins == decode_spec(op),
        ins.wf(),
{
    proof {
        lemma_decode_wf(op);
    }
    let class: u16 = op >> 12;
    let x: u8 = ((op >> 8) & 0xF) as u8;
    let y: u8 = ((op >> 4) & 0xF) as u8;
    let n: u8 = (op & 0xF) as u8;
    let nn: u8 = (op & 0xFF) as u8;
    let nnn: u16 = op & 0xFFF;
    if class == 0x0 {
        if nn == 0xE0 {
            Instruction::ClearDisplay
        } else if nn == 0xEE {
            Instruction::Return
        } else {
            Instruction::Unknown
        }
    } else if class == 0x1 {
        Instruction::Jump(nnn)
    } else if class == 0x2 {
        Instruction::Call(nnn)
    } else if class == 0x3 {
        Instruction::SkipEqImm(x, nn)
    } else if class == 0x4 {
        Instruction::SkipNeImm(x, nn)
    } else if class == 0x5 {
        Instruction::SkipEqReg(x, y)
    } else if class == 0x6 {
        Instruction::LoadImm(x, nn)
    } else if class == 0x7 {
        Instruction::AddImm(x, nn)
    } else if class == 0x8 {
        if n == 0x0 {
            Instruction::RegCopy(x, y)
        } else if n == 0x1 {
            Instruction::RegOr(x, y)
        } else if n == 0x2 {
            Instruction::RegAnd(x, y)
        } else if n == 0x3 {
            Instruction::RegXor(x, y)
        } else if n == 0x4 {
            Instruction::RegAdd(x, y)
        } else if n == 0x5 {
            Instruction::RegSub(x, y)
        } else if n == 0x6 {
            Instruction::RegShr(x)
        } else if n == 0x7 {
            Instruction::RegSubRev(x, y)
        } else if n == 0xE {
            Instruction::RegShl(x)
        } else {
            Instruction::Unknown
        }
    } else if class == 0x9 {
        Instruction::SkipNeReg(x, y)
    } else if class == 0xA {
        Instruction::SetIndex(nnn)
    } else if class == 0xB {
        Instruction::JumpOffset(nnn)
    } else if class == 0xC {
        Instruction::Random(x, nn)
    } else if class == 0xD {
        Instruction::Draw(x, y, n)
    } else if class == 0xE {
        if nn == 0x9E {
            Instruction::SkipKeyPressed(x)
        } else if nn == 0xA1 {
            Instruction::SkipKeyNotPressed(x)
        } else {
            Instruction::Unknown
        }
    } else if class == 0xF {
        if nn == 0x07 {
            Instruction::ReadDelay(x)
        } else if nn == 0x0A {
            Instruction::WaitKey(x)
        } else if nn == 0x15 {
            Instruction::SetDelay(x)
        } else if nn == 0x18 {
            Instruction::SetSound(x)
        } else if nn == 0x1E {
            Instruction::AddIndex(x)
        } else if nn == 0x29 {
            Instruction::FontAddress(x)
        } else if nn == 0x33 {
            Instruction::StoreBcd(x)
        } else if nn == 0x55 {
            Instruction::StoreRegs(x)
        } else if nn == 0x65 {
            Instruction::LoadRegs(x)
        } else {
            Instruction::Unknown
        }
    } else {
        Instruction::Unknown
    }
}

} // verus!
