use crate::error::Chip8Error;
use vstd::prelude::*;

verus! {

/// One decoded instruction. `x` and `y` name V-registers, `nn` is an 8-bit
/// immediate, `n` a 4-bit immediate and `addr` a 12-bit address.
#[derive(Debug, Clone, Copy, PartialEq, Eq, Structural)]
pub enum Instruction {
    /// `0000`: do nothing.
    Nop,
    /// `00E0`: turn every pixel off.
    ClearScreen,
    /// `00EE`: pop a return address into the counter.
    Return,
    /// `1NNN`: counter := NNN.
    Jump { addr: u16 },
    /// `2NNN`: push the counter, counter := NNN.
    Call { addr: u16 },
    /// `3XNN`: skip the next instruction if VX == NN.
    SkipIfEqualImm { x: usize, nn: u8 },
    /// `4XNN`: skip the next instruction if VX != NN.
    SkipIfNotEqualImm { x: usize, nn: u8 },
    /// `5XY0`: skip the next instruction if VX == VY.
    SkipIfEqualReg { x: usize, y: usize },
    /// `6XNN`: VX := NN.
    SetImm { x: usize, nn: u8 },
    /// `7XNN`: VX := VX + NN, wrapping.
    AddImm { x: usize, nn: u8 },
    /// `8XY0`: VX := VY.
    Copy { x: usize, y: usize },
    /// `8XY1`: VX := VX | VY.
    Or { x: usize, y: usize },
    /// `8XY2`: VX := VX & VY.
    And { x: usize, y: usize },
    /// `8XY3`: VX := VX ^ VY.
    Xor { x: usize, y: usize },
    /// `8XY4`: VX := VX + VY, wrapping; VF := carry.
    AddReg { x: usize, y: usize },
    /// `8XY5`: VX := VX - VY, wrapping; VF := no borrow.
    SubReg { x: usize, y: usize },
    /// `8XY6`: VF := low bit of VX; VX := VX >> 1.
    ShiftRight { x: usize },
    /// `8XY7`: VX := VY - VX, wrapping; VF := no borrow.
    SubReversed { x: usize, y: usize },
    /// `8XYE`: VF := high bit of VX; VX := VX << 1.
    ShiftLeft { x: usize },
    /// `9XY0`: skip the next instruction if VX != VY.
    SkipIfNotEqualReg { x: usize, y: usize },
    /// `ANNN`: I := NNN.
    SetIndex { addr: u16 },
    /// `BNNN`: counter := NNN + V0.
    JumpPlusV0 { addr: u16 },
    /// `CXNN`: VX := random byte & NN.
    Random { x: usize, nn: u8 },
    /// `DXYN`: draw the N-row sprite at I at (VX, VY); VF := collision.
    Draw { x: usize, y: usize, n: u8 },
    /// `EX9E`: skip the next instruction if key VX is pressed.
    SkipIfKey { x: usize },
    /// `EXA1`: skip the next instruction if key VX is not pressed.
    SkipIfNotKey { x: usize },
    /// `FX07`: VX := delay timer.
    ReadDelay { x: usize },
    /// `FX0A`: VX := lowest pressed key, or run this instruction again.
    WaitKey { x: usize },
    /// `FX15`: delay timer := VX.
    SetDelay { x: usize },
    /// `FX18`: sound timer := VX.
    SetSound { x: usize },
    /// `FX1E`: I := I + VX, wrapping.
    AddIndex { x: usize },
    /// `FX29`: I := address of the font sprite of digit VX.
    FontSprite { x: usize },
    /// `FX33`: the three decimal digits of VX to memory at I.
    StoreBcd { x: usize },
    /// `FX55`: V0 ..= VX to memory from I on.
    StoreRegisters { x: usize },
    /// `FX65`: V0 ..= VX from memory from I on.
    LoadRegisters { x: usize },
}

/// The first (most significant) of the four 4-bit fields of a word.
pub open spec fn nibble1(w: u16) -> int {
    w as int / 4096
}

pub open spec fn nibble2(w: u16) -> int {
    (w as int / 256) % 16
}

pub open spec fn nibble3(w: u16) -> int {
    (w as int / 16) % 16
}

pub open spec fn nibble4(w: u16) -> int {
    w as int % 16
}

/// The low 12 bits of a word.
pub open spec fn addr_of(w: u16) -> u16 {
    (w % 4096) as u16
}

/// The low 8 bits of a word.
pub open spec fn byte_of(w: u16) -> u8 {
    (w % 256) as u8
}

/// The instruction a word encodes, or `UnknownOpcode` for a word of no known shape.
pub open spec fn decode(w: u16) -> Result<Instruction, Chip8Error> {
    let (a, x, y, n) = (nibble1(w), nibble2(w) as usize, nibble3(w) as usize, nibble4(w));
    let unknown = Err(Chip8Error::UnknownOpcode(w));
    if w == 0x0000 {
        Ok(Instruction::Nop)
    } else if w == 0x00E0 {
        Ok(Instruction::ClearScreen)
    } else if w == 0x00EE {
        Ok(Instruction::Return)
    } else if a == 0x1 {
        Ok(Instruction::Jump { addr: addr_of(w) })
    } else if a == 0x2 {
        Ok(Instruction::Call { addr: addr_of(w) })
    } else if a == 0x3 {
        Ok(Instruction::SkipIfEqualImm { x, nn: byte_of(w) })
    } else if a == 0x4 {
        Ok(Instruction::SkipIfNotEqualImm { x, nn: byte_of(w) })
    } else if a == 0x5 && n == 0 {
        Ok(Instruction::SkipIfEqualReg { x, y })
    } else if a == 0x6 {
        Ok(Instruction::SetImm { x, nn: byte_of(w) })
    } else if a == 0x7 {
        Ok(Instruction::AddImm { x, nn: byte_of(w) })
    } else if a == 0x8 {
        if n == 0x0 {
            Ok(Instruction::Copy { x, y })
        } else if n == 0x1 {
            Ok(Instruction::Or { x, y })
        } else if n == 0x2 {
            Ok(Instruction::And { x, y })
        } else if n == 0x3 {
            Ok(Instruction::Xor { x, y })
        } else if n == 0x4 {
            Ok(Instruction::AddReg { x, y })
        } else if n == 0x5 {
            Ok(Instruction::SubReg { x, y })
        } else if n == 0x6 {
            Ok(Instruction::ShiftRight { x })
        } else if n == 0x7 {
            Ok(Instruction::SubReversed { x, y })
        } else if n == 0xE {
            Ok(Instruction::ShiftLeft { x })
        } else {
            unknown
        }
    } else if a == 0x9 && n == 0 {
        Ok(Instruction::SkipIfNotEqualReg { x, y })
    } else if a == 0xA {
        Ok(Instruction::SetIndex { addr: addr_of(w) })
    } else if a == 0xB {
        Ok(Instruction::JumpPlusV0 { addr: addr_of(w) })
    } else if a == 0xC {
        Ok(Instruction::Random { x, nn: byte_of(w) })
    } else if a == 0xD {
        Ok(Instruction::Draw { x, y, n: n as u8 })
    } else if a == 0xE && byte_of(w) == 0x9E {
        Ok(Instruction::SkipIfKey { x })
    } else if a == 0xE && byte_of(w) == 0xA1 {
        Ok(Instruction::SkipIfNotKey { x })
    } else if a == 0xF && byte_of(w) == 0x07 {
        Ok(Instruction::ReadDelay { x })
    } else if a == 0xF && byte_of(w) == 0x0A {
        Ok(Instruction::WaitKey { x })
    } else if a == 0xF && byte_of(w) == 0x15 {
        Ok(Instruction::SetDelay { x })
    } else if a == 0xF && byte_of(w) == 0x18 {
        Ok(Instruction::SetSound { x })
    } else if a == 0xF && byte_of(w) == 0x1E {
        Ok(Instruction::AddIndex { x })
    } else if a == 0xF && byte_of(w) == 0x29 {
        Ok(Instruction::FontSprite { x })
    } else if a == 0xF && byte_of(w) == 0x33 {
        Ok(Instruction::StoreBcd { x })
    } else if a == 0xF && byte_of(w) == 0x55 {
        Ok(Instruction::StoreRegisters { x })
    } else if a == 0xF && byte_of(w) == 0x65 {
        Ok(Instruction::LoadRegisters { x })
    } else {
        unknown
    }
}

impl Instruction {
    /// Register operands name one of the 16 V-registers, addresses lie below
    /// 4096 and sprite heights below 16.
    pub open spec fn operands_in_range(self) -> bool {
        match self {
            Instruction::Jump { addr } | Instruction::Call { addr } | Instruction::SetIndex { addr }
            | Instruction::JumpPlusV0 { addr } => addr < 4096,
            Instruction::SkipIfEqualImm { x, .. } | Instruction::SkipIfNotEqualImm { x, .. }
            | Instruction::SetImm { x, .. } | Instruction::AddImm { x, .. }
            | Instruction::Random { x, .. } => x < 16,
            Instruction::SkipIfEqualReg { x, y } | Instruction::Copy { x, y } | Instruction::Or {
                x,
                y,
            } | Instruction::And { x, y } | Instruction::Xor { x, y } | Instruction::AddReg { x, y }
            | Instruction::SubReg { x, y } | Instruction::SubReversed { x, y }
            | Instruction::SkipIfNotEqualReg { x, y } => x < 16 && y < 16,
            Instruction::Draw { x, y, n } => x < 16 && y < 16 && n < 16,
            Instruction::ShiftRight { x } | Instruction::ShiftLeft { x } | Instruction::SkipIfKey {
                x,
            } | Instruction::SkipIfNotKey { x } | Instruction::ReadDelay { x }
            | Instruction::WaitKey { x } | Instruction::SetDelay { x } | Instruction::SetSound { x }
            | Instruction::AddIndex { x } | Instruction::FontSprite { x }
            | Instruction::StoreBcd { x } | Instruction::StoreRegisters { x }
            | Instruction::LoadRegisters { x } => x < 16,
            Instruction::Nop | Instruction::ClearScreen | Instruction::Return => true,
        }
    }
}

/// Every decoded instruction has its operands in range.
pub proof fn lemma_decode_in_range(w: u16)
    ensures
        decode(w) matches Ok(ins) ==> ins.operands_in_range(),
{
}

/// Splits a word into its instruction, or `UnknownOpcode` when it has no known shape.
pub fn decode_opcode(op_code: u16) -> (r: Result<Instruction, Chip8Error>)
    ensures
        r == decode(op_code),
{
    assert((op_code & 0xF000) >> 12u16 == op_code / 4096 && (op_code & 0x0F00) >> 8u16 == (op_code
        / 256) % 16 && (op_code & 0x00F0) >> 4u16 == (op_code / 16) % 16 && op_code & 0x000F
        == op_code % 16 && op_code & 0x0FFF == op_code % 4096 && op_code & 0x00FF == op_code % 256)
        by (bit_vector);
    let d1 = (op_code & 0xF000) >> 12u16;
    let d2 = (op_code & 0x0F00) >> 8u16;
    let d3 = (op_code & 0x00F0) >> 4u16;
    let d4 = op_code & 0x000F;
    let addr = op_code & 0x0FFF;
    let nn = (op_code & 0x00FF) as u8;
    let x = d2 as usize;
    let y = d3 as usize;
    match (d1, d2, d3, d4) {
        (0, 0, 0, 0) => Ok(Instruction::Nop),
        (0, 0, 0xE, 0) => Ok(Instruction::ClearScreen),
        (0, 0, 0xE, 0xE) => Ok(Instruction::Return),
        (0x1, _, _, _) => Ok(Instruction::Jump { addr }),
        (0x2, _, _, _) => Ok(Instruction::Call { addr }),
        (0x3, _, _, _) => Ok(Instruction::SkipIfEqualImm { x, nn }),
        (0x4, _, _, _) => Ok(Instruction::SkipIfNotEqualImm { x, nn }),
        (0x5, _, _, 0) => Ok(Instruction::SkipIfEqualReg { x, y }),
        (0x6, _, _, _) => Ok(Instruction::SetImm { x, nn }),
        (0x7, _, _, _) => Ok(Instruction::AddImm { x, nn }),
        (0x8, _, _, 0x0) => Ok(Instruction::Copy { x, y }),
        (0x8, _, _, 0x1) => Ok(Instruction::Or { x, y }),
        (0x8, _, _, 0x2) => Ok(Instruction::And { x, y }),
        (0x8, _, _, 0x3) => Ok(Instruction::Xor { x, y }),
        (0x8, _, _, 0x4) => Ok(Instruction::AddReg { x, y }),
        (0x8, _, _, 0x5) => Ok(Instruction::SubReg { x, y }),
        (0x8, _, _, 0x6) => Ok(Instruction::ShiftRight { x }),
        (0x8, _, _, 0x7) => Ok(Instruction::SubReversed { x, y }),
        (0x8, _, _, 0xE) => Ok(Instruction::ShiftLeft { x }),
        (0x9, _, _, 0) => Ok(Instruction::SkipIfNotEqualReg { x, y }),
        (0xA, _, _, _) => Ok(Instruction::SetIndex { addr }),
        (0xB, _, _, _) => Ok(Instruction::JumpPlusV0 { addr }),
        (0xC, _, _, _) => Ok(Instruction::Random { x, nn }),
        (0xD, _, _, _) => Ok(Instruction::Draw { x, y, n: d4 as u8 }),
        (0xE, _, 0x9, 0xE) => Ok(Instruction::SkipIfKey { x }),
        (0xE, _, 0xA, 0x1) => Ok(Instruction::SkipIfNotKey { x }),
        (0xF, _, 0x0, 0x7) => Ok(Instruction::ReadDelay { x }),
        (0xF, _, 0x0, 0xA) => Ok(Instruction::WaitKey { x }),
        (0xF, _, 0x1, 0x5) => Ok(Instruction::SetDelay { x }),
        (0xF, _, 0x1, 0x8) => Ok(Instruction::SetSound { x }),
        (0xF, _, 0x1, 0xE) => Ok(Instruction::AddIndex { x }),
        (0xF, _, 0x2, 0x9) => Ok(Instruction::FontSprite { x }),
        (0xF, _, 0x3, 0x3) => Ok(Instruction::StoreBcd { x }),
        (0xF, _, 0x5, 0x5) => Ok(Instruction::StoreRegisters { x }),
        (0xF, _, 0x6, 0x5) => Ok(Instruction::LoadRegisters { x }),
        _ => Err(Chip8Error::UnknownOpcode(op_code)),
    }
}

} // verus!
