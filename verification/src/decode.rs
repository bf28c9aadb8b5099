//! Decoding of 16-bit instruction words into tagged instructions.

use vstd::prelude::*;

verus! {

/// One decoded instruction. `x` and `y` select registers, `addr` is a 12-bit
/// address, `kk` an immediate byte and `n` a 4-bit count.
#[derive(Clone, Copy, Debug, PartialEq, Eq, Structural)]
pub enum Instruction {
    ClearScreen,
    Return,
    Jump { addr: u16 },
    Call { addr: u16 },
    SkipEqByte { x: u8, kk: u8 },
    SkipNeByte { x: u8, kk: u8 },
    SkipEqReg { x: u8, y: u8 },
    LoadByte { x: u8, kk: u8 },
    AddByte { x: u8, kk: u8 },
    Move { x: u8, y: u8 },
    Or { x: u8, y: u8 },
    And { x: u8, y: u8 },
    Xor { x: u8, y: u8 },
    AddReg { x: u8, y: u8 },
    SubReg { x: u8, y: u8 },
    ShiftRight { x: u8 },
    SubFrom { x: u8, y: u8 },
    ShiftLeft { x: u8 },
    SkipNeReg { x: u8, y: u8 },
    LoadIndex { addr: u16 },
    JumpOffset { addr: u16 },
    Draw { x: u8, y: u8, n: u8 },
    ReadDelay { x: u8 },
    SetDelay { x: u8 },
    SetSound { x: u8 },
    AddIndex { x: u8 },
    StoreBcd { x: u8 },
    StoreRegs { x: u8 },
    LoadRegs { x: u8 },
    Unknown { op: u16 },
}

/// The instruction family: bits 12 to 15 of the word.
pub open spec fn family(op: u16) -> int {
    op as int / 4096
}

/// The first register selector: bits 8 to 11.
pub open spec fn sel_x(op: u16) -> u8 {
    ((op as int / 256) % 16) as u8
}

/// The second register selector: bits 4 to 7.
pub open spec fn sel_y(op: u16) -> u8 {
    ((op as int / 16) % 16) as u8
}

/// The low four bits.
pub open spec fn low_nibble(op: u16) -> u8 {
    (op as int % 16) as u8
}

/// The low eight bits.
pub open spec fn low_byte(op: u16) -> u8 {
    (op as int % 256) as u8
}

/// The low twelve bits.
pub open spec fn address(op: u16) -> u16 {
    (op as int % 4096) as u16
}

/// The instruction that a word encodes. Every word has a meaning; the words
/// outside the implemented set decode to `Unknown`.
pub open spec fn spec_decode(op: u16) -> Instruction {
    let f = family(op);
    let x = sel_x(op);
    let y = sel_y(op);
    let n = low_nibble(op);
    let kk = low_byte(op);
    let addr = address(op);
    if op == 0x00E0 {
        Instruction::ClearScreen
    } else if op == 0x00EE {
        Instruction::Return
    } else if f == 0x1 {
        Instruction::Jump { addr }
    } else if f == 0x2 {
        Instruction::Call { addr }
    } else if f == 0x3 {
        Instruction::SkipEqByte { x, kk }
    } else if f == 0x4 {
        Instruction::SkipNeByte { x, kk }
    } else if f == 0x5 && n == 0 {
        Instruction::SkipEqReg { x, y }
    } else if f == 0x6 {
        Instruction::LoadByte { x, kk }
    } else if f == 0x7 {
        Instruction::AddByte { x, kk }
    } else if f == 0x8 && n == 0x0 {
        Instruction::Move { x, y }
    } else if f == 0x8 && n == 0x1 {
        Instruction::Or { x, y }
    } else if f == 0x8 && n == 0x2 {
        Instruction::And { x, y }
    } else if f == 0x8 && n == 0x3 {
        Instruction::Xor { x, y }
    } else if f == 0x8 && n == 0x4 {
        Instruction::AddReg { x, y }
    } else if f == 0x8 && n == 0x5 {
        Instruction::SubReg { x, y }
    } else if f == 0x8 && n == 0x6 {
        Instruction::ShiftRight { x }
    } else if f == 0x8 && n == 0x7 {
        Instruction::SubFrom { x, y }
    } else if f == 0x8 && n == 0xE {
        Instruction::ShiftLeft { x }
    } else if f == 0x9 && n == 0 {
        Instruction::SkipNeReg { x, y }
    } else if f == 0xA {
        Instruction::LoadIndex { addr }
    } else if f == 0xB {
        Instruction::JumpOffset { addr }
    } else if f == 0xD {
        Instruction::Draw { x, y, n }
    } else if f == 0xF && kk == 0x07 {
        Instruction::ReadDelay { x }
    } else if f == 0xF && kk == 0x15 {
        Instruction::SetDelay { x }
    } else if f == 0xF && kk == 0x18 {
        Instruction::SetSound { x }
    } else if f == 0xF && kk == 0x1E {
        Instruction::AddIndex { x }
    } else if f == 0xF && kk == 0x33 {
        Instruction::StoreBcd { x }
    } else if f == 0xF && kk == 0x55 {
        Instruction::StoreRegs { x }
    } else if f == 0xF && kk == 0x65 {
        Instruction::LoadRegs { x }
    } else {
        Instruction::Unknown { op }
    }
}

impl Instruction {
    /// Register selectors and the row count are nibbles, addresses have
    /// twelve bits.
    pub open spec fn well_formed(self) -> bool {
        match self {
            Instruction::ClearScreen | Instruction::Return | Instruction::Unknown { .. } => true,
            Instruction::Jump { addr }
            | Instruction::Call { addr }
            | Instruction::LoadIndex { addr }
            | Instruction::JumpOffset { addr } => addr < 4096,
            Instruction::SkipEqByte { x, .. }
            | Instruction::SkipNeByte { x, .. }
            | Instruction::LoadByte { x, .. }
            | Instruction::AddByte { x, .. }
            | Instruction::ShiftRight { x }
            | Instruction::ShiftLeft { x }
            | Instruction::ReadDelay { x }
            | Instruction::SetDelay { x }
            | Instruction::SetSound { x }
            | Instruction::AddIndex { x }
            | Instruction::StoreBcd { x }
            | Instruction::StoreRegs { x }
            | Instruction::LoadRegs { x } => x < 16,
            Instruction::SkipEqReg { x, y }
            | Instruction::Move { x, y }
            | Instruction::Or { x, y }
            | Instruction::And { x, y }
            | Instruction::Xor { x, y }
            | Instruction::AddReg { x, y }
            | Instruction::SubReg { x, y }
            | Instruction::SubFrom { x, y }
            | Instruction::SkipNeReg { x, y } => x < 16 && y < 16,
            Instruction::Draw { x, y, n } => x < 16 && y < 16 && n < 16,
        }
    }
}

/// Every word decodes to a well-formed instruction.
pub proof fn lemma_decode_well_formed(op: u16)
    ensures
        spec_decode(op).well_formed(),
{
}

/// Decodes one instruction word by its nibbles.
pub fn decode(op: u16) -> (ins: Instruction)
    ensures
        ins == spec_decode(op),
        ins.well_formed(),
{
    let f: u8 = (op >> 12) as u8;
    let x: u8 = ((op >> 8) & 0xF) as u8;
    let y: u8 = ((op >> 4) & 0xF) as u8;
    let n: u8 = (op & 0xF) as u8;
    let kk: u8 = (op & 0xFF) as u8;
    let addr: u16 = op & 0xFFF;
    proof {
        assert(op >> 12 == op / 4096) by (bit_vector);
        assert((op >> 8) & 0xF == (op / 256) % 16) by (bit_vector);
        assert((op >> 4) & 0xF == (op / 16) % 16) by (bit_vector);
        assert(op & 0xF == op % 16) by (bit_vector);
        assert(op & 0xFF == op % 256) by (bit_vector);
        assert(op & 0xFFF == op % 4096) by (bit_vector);
    }
    if op == 0x00E0 {
        Instruction::ClearScreen
    } else if op == 0x00EE {
        Instruction::Return
    } else {
        match f {
            0x1 => Instruction::Jump { addr },
            0x2 => Instruction::Call { addr },
            0x3 => Instruction::SkipEqByte { x, kk },
            0x4 => Instruction::SkipNeByte { x, kk },
            0x5 => if n == 0 {
                Instruction::SkipEqReg { x, y }
            } else {
                Instruction::Unknown { op }
            },
            0x6 => Instruction::LoadByte { x, kk },
            0x7 => Instruction::AddByte { x, kk },
            0x8 => match n {
                0x0 => Instruction::Move { x, y },
                0x1 => Instruction::Or { x, y },
                0x2 => Instruction::And { x, y },
                0x3 => Instruction::Xor { x, y },
                0x4 => Instruction::AddReg { x, y },
                0x5 => Instruction::SubReg { x, y },
                0x6 => Instruction::ShiftRight { x },
                0x7 => Instruction::SubFrom { x, y },
                0xE => Instruction::ShiftLeft { x },
                _ => Instruction::Unknown { op },
            },
            0x9 => if n == 0 {
                Instruction::SkipNeReg { x, y }
            } else {
                Instruction::Unknown { op }
            },
            0xA => Instruction::LoadIndex { addr },
            0xB => Instruction::JumpOffset { addr },
            0xD => Instruction::Draw { x, y, n },
            0xF => match kk {
                0x07 => Instruction::ReadDelay { x },
                0x15 => Instruction::SetDelay { x },
                0x18 => Instruction::SetSound { x },
                0x1E => Instruction::AddIndex { x },
                0x33 => Instruction::StoreBcd { x },
                0x55 => Instruction::StoreRegs { x },
                0x65 => Instruction::LoadRegs { x },
                _ => Instruction::Unknown { op },
            },
            _ => Instruction::Unknown { op },
        }
    }
}

} // verus!
