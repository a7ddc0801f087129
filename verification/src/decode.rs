//! Splitting a 16-bit instruction word into its operand fields and
//! classifying it against the instruction table.

use vstd::prelude::*;

verus! {

/// The operand fields of one instruction word, most significant nibble first.
#[derive(Clone, Copy, Debug, PartialEq, Eq, Structural)]
pub struct Operands {
    /// Bits 12..16: the instruction family.
    pub op: u8,
    /// Bits 8..12: the first register index.
    pub x: u8,
    /// Bits 4..8: the second register index.
    pub y: u8,
    /// Bits 0..4: a 4-bit immediate.
    pub n: u8,
    /// Bits 0..8: an 8-bit immediate.
    pub nn: u8,
    /// Bits 0..12: a 12-bit address.
    pub nnn: u16,
}

/// One entry of the instruction table.
#[derive(Clone, Copy, Debug, PartialEq, Eq, Structural)]
pub enum Opcode {
    /// `00E0`
    ClearScreen,
    /// `00EE`
    Return,
    /// `1NNN`
    Jump,
    /// `2NNN`
    Call,
    /// `3XNN`
    SkipEqImm,
    /// `4XNN`
    SkipNeImm,
    /// `5XY0`
    SkipEqReg,
    /// `6XNN`
    LoadImm,
    /// `7XNN`
    AddImm,
    /// `8XY0`
    Move,
    /// `8XY1`
    Or,
    /// `8XY2`
    And,
    /// `8XY3`
    Xor,
    /// `8XY4`
    AddReg,
    /// `8XY5`
    SubReg,
    /// `8XY6`
    ShiftRight,
    /// `8XY7`
    SubRev,
    /// `8XYE`
    ShiftLeft,
    /// `9XY0`
    SkipNeReg,
    /// `ANNN`
    LoadIndex,
    /// `BNNN`
    JumpOffset,
    /// `CXNN`
    Random,
    /// `DXYN`
    Draw,
    /// `EX9E`
    SkipKey,
    /// `EXA1`
    SkipNoKey,
    /// `FX07`
    ReadDelay,
    /// `FX15`
    SetDelay,
    /// `FX18`
    SetSound,
    /// `FX1E`
    AddIndex,
    /// `FX29`
    Glyph,
    /// `FX33`
    Bcd,
    /// `FX55`
    Store,
    /// `FX65`
    Load,
}

/// The upper four bits of a byte, as a number below 16.
pub open spec fn high_nibble(byte: u8) -> int {
    byte as int / 16
}

/// The lower four bits of a byte, as a number below 16.
pub open spec fn low_nibble(byte: u8) -> int {
    byte as int % 16
}

/// The instruction word formed by two consecutive bytes, high byte first.
pub open spec fn word_of(left: u8, right: u8) -> int {
    left as int * 256 + right as int
}

/// The 12-bit address in the low three nibbles of the instruction made
/// of the bytes `left` and `right`.
pub open spec fn address_of(left: u8, right: u8) -> int {
    low_nibble(left) * 256 + right as int
}

/// The operand fields of `word`, each given by its place value.
pub open spec fn operands_of(word: u16) -> Operands {
    Operands {
        op: (word as int / 4096) as u8,
        x: (word as int / 256 % 16) as u8,
        y: (word as int / 16 % 16) as u8,
        n: (word as int % 16) as u8,
        nn: (word as int % 256) as u8,
        nnn: (word as int % 4096) as u16,
    }
}

/// The table entry that `word` matches, if any.
///
/// A family with a fixed low nibble or low byte matches only on those
/// values; every other word of that family is unassigned.
pub open spec fn opcode_of(word: u16) -> Option<Opcode> {
    let f = operands_of(word);
    if word == 0x00E0 {
        Some(Opcode::ClearScreen)
    } else if word == 0x00EE {
        Some(Opcode::Return)
    } else if f.op == 0x1 {
        Some(Opcode::Jump)
    } else if f.op == 0x2 {
        Some(Opcode::Call)
    } else if f.op == 0x3 {
        Some(Opcode::SkipEqImm)
    } else if f.op == 0x4 {
        Some(Opcode::SkipNeImm)
    } else if f.op == 0x5 && f.n == 0x0 {
        Some(Opcode::SkipEqReg)
    } else if f.op == 0x6 {
        Some(Opcode::LoadImm)
    } else if f.op == 0x7 {
        Some(Opcode::AddImm)
    } else if f.op == 0x8 && f.n == 0x0 {
        Some(Opcode::Move)
    } else if f.op == 0x8 && f.n == 0x1 {
        Some(Opcode::Or)
    } else if f.op == 0x8 && f.n == 0x2 {
        Some(Opcode::And)
    } else if f.op == 0x8 && f.n == 0x3 {
        Some(Opcode::Xor)
    } else if f.op == 0x8 && f.n == 0x4 {
        Some(Opcode::AddReg)
    } else if f.op == 0x8 && f.n == 0x5 {
        Some(Opcode::SubReg)
    } else if f.op == 0x8 && f.n == 0x6 {
        Some(Opcode::ShiftRight)
    } else if f.op == 0x8 && f.n == 0x7 {
        Some(Opcode::SubRev)
    } else if f.op == 0x8 && f.n == 0xE {
        Some(Opcode::ShiftLeft)
    } else if f.op == 0x9 && f.n == 0x0 {
        Some(Opcode::SkipNeReg)
    } else if f.op == 0xA {
        Some(Opcode::LoadIndex)
    } else if f.op == 0xB {
        Some(Opcode::JumpOffset)
    } else if f.op == 0xC {
        Some(Opcode::Random)
    } else if f.op == 0xD {
        Some(Opcode::Draw)
    } else if f.op == 0xE && f.nn == 0x9E {
        Some(Opcode::SkipKey)
    } else if f.op == 0xE && f.nn == 0xA1 {
        Some(Opcode::SkipNoKey)
    } else if f.op == 0xF && f.nn == 0x07 {
        Some(Opcode::ReadDelay)
    } else if f.op == 0xF && f.nn == 0x15 {
        Some(Opcode::SetDelay)
    } else if f.op == 0xF && f.nn == 0x18 {
        Some(Opcode::SetSound)
    } else if f.op == 0xF && f.nn == 0x1E {
        Some(Opcode::AddIndex)
    } else if f.op == 0xF && f.nn == 0x29 {
        Some(Opcode::Glyph)
    } else if f.op == 0xF && f.nn == 0x33 {
        Some(Opcode::Bcd)
    } else if f.op == 0xF && f.nn == 0x55 {
        Some(Opcode::Store)
    } else if f.op == 0xF && f.nn == 0x65 {
        Some(Opcode::Load)
    } else {
        None
    }
}

/// The operand fields of a word, read off the two bytes it is made of.
pub proof fn lemma_operands_of_bytes(left: u8, right: u8)
    ensures
        operands_of(word_of(left, right) as u16).op == high_nibble(left),
        operands_of(word_of(left, right) as u16).x == low_nibble(left),
        operands_of(word_of(left, right) as u16).y == high_nibble(right),
        operands_of(word_of(left, right) as u16).n == low_nibble(right),
        operands_of(word_of(left, right) as u16).nn == right,
        operands_of(word_of(left, right) as u16).nnn == address_of(left, right),
{
}

/// Joins two bytes into an instruction word, high byte first.
pub fn join(left: u8, right: u8) -> (word: u16)
    ensures
        word == word_of(left, right),
{
    let word: u16 = ((left as u16) << 8) | (right as u16);
    assert(((left as u16) << 8) | (right as u16) == left as u16 * 256 + right as u16)
        by (bit_vector);
    word
}

/// Splits an instruction word into its operand fields.
///
/// Total: every 16-bit value is a legal word, whether or not the table
/// assigns it a meaning.
pub fn decode(word: u16) -> (fields: Operands)
    ensures
        fields == operands_of(word),
        fields.op < 16 && fields.x < 16 && fields.y < 16 && fields.n < 16,
        fields.nnn < 4096,
{
    let op: u8 = (word >> 12) as u8;
    let x: u8 = ((word >> 8) & 0x0F) as u8;
    let y: u8 = ((word >> 4) & 0x0F) as u8;
    let n: u8 = (word & 0x000F) as u8;
    let nn: u8 = (word & 0x00FF) as u8;
    let nnn: u16 = word & 0x0FFF;
    assert(word >> 12 == word / 4096) by (bit_vector);
    assert((word >> 8) & 0x0F == word / 256 % 16) by (bit_vector);
    assert((word >> 4) & 0x0F == word / 16 % 16) by (bit_vector);
    assert(word & 0x000F == word % 16) by (bit_vector);
    assert(word & 0x00FF == word % 256) by (bit_vector);
    assert(word & 0x0FFF == word % 4096) by (bit_vector);
    Operands { op, x, y, n, nn, nnn }
}

/// Looks `word` up in the instruction table.
///
/// `None` exactly for the words that no table entry matches.
pub fn classify(word: u16) -> (kind: Option<Opcode>)
    ensures
        kind == opcode_of(word),
{
    let f = decode(word);
    match f.op {
        0x0 => {
            if word == 0x00E0 {
                Some(Opcode::ClearScreen)
            } else if word == 0x00EE {
                Some(Opcode::Return)
            } else {
                None
            }
        },
        0x1 => Some(Opcode::Jump),
        0x2 => Some(Opcode::Call),
        0x3 => Some(Opcode::SkipEqImm),
        0x4 => Some(Opcode::SkipNeImm),
        0x5 => if f.n == 0 {
            Some(Opcode::SkipEqReg)
        } else {
            None
        },
        0x6 => Some(Opcode::LoadImm),
        0x7 => Some(Opcode::AddImm),
        0x8 => match f.n {
            0x0 => Some(Opcode::Move),
            0x1 => Some(Opcode::Or),
            0x2 => Some(Opcode::And),
            0x3 => Some(Opcode::Xor),
            0x4 => Some(Opcode::AddReg),
            0x5 => Some(Opcode::SubReg),
            0x6 => Some(Opcode::ShiftRight),
            0x7 => Some(Opcode::SubRev),
            0xE => Some(Opcode::ShiftLeft),
            _ => None,
        },
        0x9 => if f.n == 0 {
            Some(Opcode::SkipNeReg)
        } else {
            None
        },
        0xA => Some(Opcode::LoadIndex),
        0xB => Some(Opcode::JumpOffset),
        0xC => Some(Opcode::Random),
        0xD => Some(Opcode::Draw),
        0xE => match f.nn {
            0x9E => Some(Opcode::SkipKey),
            0xA1 => Some(Opcode::SkipNoKey),
            _ => None,
        },
        _ => match f.nn {
            0x07 => Some(Opcode::ReadDelay),
            0x15 => Some(Opcode::SetDelay),
            0x18 => Some(Opcode::SetSound),
            0x1E => Some(Opcode::AddIndex),
            0x29 => Some(Opcode::Glyph),
            0x33 => Some(Opcode::Bcd),
            0x55 => Some(Opcode::Store),
            0x65 => Some(Opcode::Load),
            _ => None,
        },
    }
}

} // verus!
