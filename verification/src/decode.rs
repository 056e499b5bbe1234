//! The decoder: a pure map from a raw 16-bit opcode to a tagged instruction
//! with its operand fields.
//!
//! An opcode is read as four nibbles `c x y n`; `kk` is its low byte and
//! `nnn` its low twelve bits.

use vstd::prelude::*;

verus! {

/// One instruction of the base instruction set, with its operands.
///
/// `x` and `y` are register numbers, `n` a sprite height, `kk` an 8-bit
/// immediate and `addr` a 12-bit address.
#[derive(Clone, Copy, Debug, PartialEq, Eq, Structural)]
pub enum Instruction {
    /// `00E0`: clear the framebuffer.
    ClearScreen,
    /// `00EE`: return from a subroutine.
    Return,
    /// `1nnn`: jump to `addr`.
    Jump { addr: u16 },
    /// `2nnn`: call the subroutine at `addr`.
    Call { addr: u16 },
    /// `3xkk`: skip the next instruction if `Vx == kk`.
    SkipEqImm { x: u8, kk: u8 },
    /// `4xkk`: skip the next instruction if `Vx != kk`.
    SkipNeImm { x: u8, kk: u8 },
    /// `5xy0`: skip the next instruction if `Vx == Vy`.
    SkipEqReg { x: u8, y: u8 },
    /// `6xkk`: `Vx := kk`.
    LoadImm { x: u8, kk: u8 },
    /// `7xkk`: `Vx := Vx + kk`, wrapping, no flag.
    AddImm { x: u8, kk: u8 },
    /// `8xy0`: `Vx := Vy`.
    Move { x: u8, y: u8 },
    /// `8xy1`: `Vx := Vx | Vy`.
    Or { x: u8, y: u8 },
    /// `8xy2`: `Vx := Vx & Vy`.
    And { x: u8, y: u8 },
    /// `8xy3`: `Vx := Vx ^ Vy`.
    Xor { x: u8, y: u8 },
    /// `8xy4`: `Vx := Vx + Vy`, `VF := carry`.
    Add { x: u8, y: u8 },
    /// `8xy5`: `Vx := Vx - Vy`, `VF := not borrow`.
    Sub { x: u8, y: u8 },
    /// `8xy6`: `VF := low bit of Vx`, `Vx := Vx >> 1`.
    ShiftRight { x: u8 },
    /// `8xy7`: `Vx := Vy - Vx`, `VF := not borrow`.
    SubFrom { x: u8, y: u8 },
    /// `8xyE`: `VF := high bit of Vx`, `Vx := Vx << 1`.
    ShiftLeft { x: u8 },
    /// `9xy0`: skip the next instruction if `Vx != Vy`.
    SkipNeReg { x: u8, y: u8 },
    /// `Annn`: `I := addr`.
    LoadIndex { addr: u16 },
    /// `Bnnn`: jump to `V0 + addr`.
    JumpOffset { addr: u16 },
    /// `Cxkk`: `Vx := random byte & kk`.
    Random { x: u8, kk: u8 },
    /// `Dxyn`: draw the `n`-row sprite at `I` at position `(Vx, Vy)`.
    Draw { x: u8, y: u8, n: u8 },
    /// `Ex9E`: skip the next instruction if key `Vx` is pressed.
    SkipKey { x: u8 },
    /// `ExA1`: skip the next instruction if key `Vx` is not pressed.
    SkipNoKey { x: u8 },
    /// `Fx07`: `Vx := delay timer`.
    ReadDelay { x: u8 },
    /// `Fx15`: `delay timer := Vx`.
    SetDelay { x: u8 },
    /// `Fx18`: `sound timer := Vx`.
    SetSound { x: u8 },
    /// `Fx1E`: `I := I + Vx`.
    AddIndex { x: u8 },
    /// `Fx29`: `I :=` address of the glyph for digit `Vx`.
    Glyph { x: u8 },
    /// `Fx33`: store the decimal digits of `Vx` at `I`, `I+1`, `I+2`.
    Bcd { x: u8 },
    /// `Fx55`: store `V0..=Vx` to memory at `I`.
    Store { x: u8 },
    /// `Fx65`: load `V0..=Vx` from memory at `I`.
    Load { x: u8 },
}

/// A bit pattern that is no instruction, with the raw opcode.
#[derive(Clone, Copy, Debug, PartialEq, Eq, Structural)]
pub struct DecodeFailure {
    pub opcode: u16,
}

/// The leading nibble of an opcode, which selects the instruction family.
pub open spec fn op_class(opcode: u16) -> int {
    opcode as int / 0x1000
}

/// The second nibble: the register number `x`.
pub open spec fn op_x(opcode: u16) -> u8 {
    ((opcode as int / 0x100) % 0x10) as u8
}

/// The third nibble: the register number `y`.
pub open spec fn op_y(opcode: u16) -> u8 {
    ((opcode as int / 0x10) % 0x10) as u8
}

/// The last nibble `n`.
pub open spec fn op_n(opcode: u16) -> u8 {
    (opcode as int % 0x10) as u8
}

/// The low byte `kk`.
pub open spec fn op_kk(opcode: u16) -> u8 {
    (opcode as int % 0x100) as u8
}

/// The low twelve bits `nnn`.
pub open spec fn op_nnn(opcode: u16) -> u16 {
    (opcode as int % 0x1000) as u16
}

/// The register-to-register group `8xyn`, selected by `n`.
pub open spec fn decode_alu(opcode: u16) -> Option<Instruction> {
    let x = op_x(opcode);
    let y = op_y(opcode);
    let n = op_n(opcode);
    if n == 0x0 {
        Some(Instruction::Move { x, y })
    } else if n == 0x1 {
        Some(Instruction::Or { x, y })
    } else if n == 0x2 {
        Some(Instruction::And { x, y })
    } else if n == 0x3 {
        Some(Instruction::Xor { x, y })
    } else if n == 0x4 {
        Some(Instruction::Add { x, y })
    } else if n == 0x5 {
        Some(Instruction::Sub { x, y })
    } else if n == 0x6 {
        Some(Instruction::ShiftRight { x })
    } else if n == 0x7 {
        Some(Instruction::SubFrom { x, y })
    } else if n == 0xE {
        Some(Instruction::ShiftLeft { x })
    } else {
        None
    }
}

/// The group `Fxkk`, selected by `kk`.
pub open spec fn decode_misc(opcode: u16) -> Option<Instruction> {
    let x = op_x(opcode);
    let kk = op_kk(opcode);
    if kk == 0x07 {
        Some(Instruction::ReadDelay { x })
    } else if kk == 0x15 {
        Some(Instruction::SetDelay { x })
    } else if kk == 0x18 {
        Some(Instruction::SetSound { x })
    } else if kk == 0x1E {
        Some(Instruction::AddIndex { x })
    } else if kk == 0x29 {
        Some(Instruction::Glyph { x })
    } else if kk == 0x33 {
        Some(Instruction::Bcd { x })
    } else if kk == 0x55 {
        Some(Instruction::Store { x })
    } else if kk == 0x65 {
        Some(Instruction::Load { x })
    } else {
        None
    }
}

/// The instruction that an opcode encodes, or `None` where the bit pattern
/// is not part of the instruction set.
pub open spec fn decode_spec(opcode: u16) -> Option<Instruction> {
    let class = op_class(opcode);
    let x = op_x(opcode);
    let y = op_y(opcode);
    let n = op_n(opcode);
    let kk = op_kk(opcode);
    let addr = op_nnn(opcode);
    if class == 0x0 {
        if opcode == 0x00E0 {
            Some(Instruction::ClearScreen)
        } else if opcode == 0x00EE {
            Some(Instruction::Return)
        } else {
            None
        }
    } else if class == 0x1 {
        Some(Instruction::Jump { addr })
    } else if class == 0x2 {
        Some(Instruction::Call { addr })
    } else if class == 0x3 {
        Some(Instruction::SkipEqImm { x, kk })
    } else if class == 0x4 {
        Some(Instruction::SkipNeImm { x, kk })
    } else if class == 0x5 {
        if n == 0 {
            Some(Instruction::SkipEqReg { x, y })
        } else {
            None
        }
    } else if class == 0x6 {
        Some(Instruction::LoadImm { x, kk })
    } else if class == 0x7 {
        Some(Instruction::AddImm { x, kk })
    } else if class == 0x8 {
        decode_alu(opcode)
    } else if class == 0x9 {
        if n == 0 {
            Some(Instruction::SkipNeReg { x, y })
        } else {
            None
        }
    } else if class == 0xA {
        Some(Instruction::LoadIndex { addr })
    } else if class == 0xB {
        Some(Instruction::JumpOffset { addr })
    } else if class == 0xC {
        Some(Instruction::Random { x, kk })
    } else if class == 0xD {
        Some(Instruction::Draw { x, y, n })
    } else if class == 0xE {
        if kk == 0x9E {
            Some(Instruction::SkipKey { x })
        } else if kk == 0xA1 {
            Some(Instruction::SkipNoKey { x })
        } else {
            None
        }
    } else {
        decode_misc(opcode)
    }
}

impl Instruction {
    /// Every operand lies in the range that its field of the opcode can
    /// hold: register numbers and sprite heights below 16, addresses below
    /// 4096.
    pub open spec fn wf(self) -> bool {
        match self {
            Instruction::ClearScreen | Instruction::Return => true,
            Instruction::Jump { addr }
            | Instruction::Call { addr }
            | Instruction::LoadIndex { addr }
            | Instruction::JumpOffset { addr } => addr < 0x1000,
            Instruction::SkipEqImm { x, .. }
            | Instruction::SkipNeImm { x, .. }
            | Instruction::LoadImm { x, .. }
            | Instruction::AddImm { x, .. }
            | Instruction::Random { x, .. }
            | Instruction::ShiftRight { x }
            | Instruction::ShiftLeft { x }
            | Instruction::SkipKey { x }
            | Instruction::SkipNoKey { x }
            | Instruction::ReadDelay { x }
            | Instruction::SetDelay { x }
            | Instruction::SetSound { x }
            | Instruction::AddIndex { x }
            | Instruction::Glyph { x }
            | Instruction::Bcd { x }
            | Instruction::Store { x }
            | Instruction::Load { x } => x < 16,
            Instruction::SkipEqReg { x, y }
            | Instruction::Move { x, y }
            | Instruction::Or { x, y }
            | Instruction::And { x, y }
            | Instruction::Xor { x, y }
            | Instruction::Add { x, y }
            | Instruction::Sub { x, y }
            | Instruction::SubFrom { x, y }
            | Instruction::SkipNeReg { x, y } => x < 16 && y < 16,
            Instruction::Draw { x, y, n } => x < 16 && y < 16 && n < 16,
        }
    }
}

/// Whatever an opcode decodes to has its operands in range.
pub proof fn lemma_decoded_is_wf(opcode: u16)
    ensures
        decode_spec(opcode) matches Some(instruction) ==> instruction.wf(),
{
}

fn decode_alu_group(opcode: u16, x: u8, y: u8, n: u8) -> (r: Result<Instruction, DecodeFailure>)
    requires
        op_class(opcode) == 0x8,
        x == op_x(opcode),
        y == op_y(opcode),
        n == op_n(opcode),
    ensures
        decode_spec(opcode) matches Some(instruction) ==> r == Ok::<_, DecodeFailure>(instruction),
        decode_spec(opcode) is None ==> r == Err::<Instruction, _>(DecodeFailure { opcode }),
{
    match n {
        0x0 => Ok(Instruction::Move { x, y }),
        0x1 => Ok(Instruction::Or { x, y }),
        0x2 => Ok(Instruction::And { x, y }),
        0x3 => Ok(Instruction::Xor { x, y }),
        0x4 => Ok(Instruction::Add { x, y }),
        0x5 => Ok(Instruction::Sub { x, y }),
        0x6 => Ok(Instruction::ShiftRight { x }),
        0x7 => Ok(Instruction::SubFrom { x, y }),
        0xE => Ok(Instruction::ShiftLeft { x }),
        _ => Err(DecodeFailure { opcode }),
    }
}

fn decode_misc_group(opcode: u16, x: u8, kk: u8) -> (r: Result<Instruction, DecodeFailure>)
    requires
        op_class(opcode) == 0xF,
        x == op_x(opcode),
        kk == op_kk(opcode),
    ensures
        decode_spec(opcode) matches Some(instruction) ==> r == Ok::<_, DecodeFailure>(instruction),
        decode_spec(opcode) is None ==> r == Err::<Instruction, _>(DecodeFailure { opcode }),
{
    match kk {
        0x07 => Ok(Instruction::ReadDelay { x }),
        0x15 => Ok(Instruction::SetDelay { x }),
        0x18 => Ok(Instruction::SetSound { x }),
        0x1E => Ok(Instruction::AddIndex { x }),
        0x29 => Ok(Instruction::Glyph { x }),
        0x33 => Ok(Instruction::Bcd { x }),
        0x55 => Ok(Instruction::Store { x }),
        0x65 => Ok(Instruction::Load { x }),
        _ => Err(DecodeFailure { opcode }),
    }
}

/// Decodes one opcode.
///
/// Returns the instruction that `decode_spec` gives, and fails with the raw
/// opcode exactly where `decode_spec` gives none.
pub fn decode(opcode: u16) -> (r: Result<Instruction, DecodeFailure>)
    ensures
        decode_spec(opcode) matches Some(instruction) ==> r == Ok::<_, DecodeFailure>(instruction),
        decode_spec(opcode) is None ==> r == Err::<Instruction, _>(DecodeFailure { opcode }),
        r matches Ok(instruction) ==> instruction.wf(),
{
    let class: u8 = (opcode >> 12) as u8;
    let x: u8 = ((opcode >> 8) & 0x000F) as u8;
    let y: u8 = ((opcode >> 4) & 0x000F) as u8;
    let n: u8 = (opcode & 0x000F) as u8;
    let kk: u8 = (opcode & 0x00FF) as u8;
    let addr: u16 = opcode & 0x0FFF;
    proof {
        assert(opcode >> 12 == opcode / 0x1000) by (bit_vector);
        assert((opcode >> 8) & 0x000F == (opcode / 0x100) % 0x10) by (bit_vector);
        assert((opcode >> 4) & 0x000F == (opcode / 0x10) % 0x10) by (bit_vector);
        assert(opcode & 0x000F == opcode % 0x10) by (bit_vector);
        assert(opcode & 0x00FF == opcode % 0x100) by (bit_vector);
        assert(opcode & 0x0FFF == opcode % 0x1000) by (bit_vector);
        lemma_decoded_is_wf(opcode);
    }
    match class {
        0x0 => {
            if opcode == 0x00E0 {
                Ok(Instruction::ClearScreen)
            } else if opcode == 0x00EE {
                Ok(Instruction::Return)
            } else {
                Err(DecodeFailure { opcode })
            }
        },
        0x1 => Ok(Instruction::Jump { addr }),
        0x2 => Ok(Instruction::Call { addr }),
        0x3 => Ok(Instruction::SkipEqImm { x, kk }),
        0x4 => Ok(Instruction::SkipNeImm { x, kk }),
        0x5 => {
            if n == 0 {
                Ok(Instruction::SkipEqReg { x, y })
            } else {
                Err(DecodeFailure { opcode })
            }
        },
        0x6 => Ok(Instruction::LoadImm { x, kk }),
        0x7 => Ok(Instruction::AddImm { x, kk }),
        0x8 => decode_alu_group(opcode, x, y, n),
        0x9 => {
            if n == 0 {
                Ok(Instruction::SkipNeReg { x, y })
            } else {
                Err(DecodeFailure { opcode })
            }
        },
        0xA => Ok(Instruction::LoadIndex { addr }),
        0xB => Ok(Instruction::JumpOffset { addr }),
        0xC => Ok(Instruction::Random { x, kk }),
        0xD => Ok(Instruction::Draw { x, y, n }),
        0xE => {
            if kk == 0x9E {
                Ok(Instruction::SkipKey { x })
            } else if kk == 0xA1 {
                Ok(Instruction::SkipNoKey { x })
            } else {
                Err(DecodeFailure { opcode })
            }
        },
        _ => decode_misc_group(opcode, x, kk),
    }
}

} // verus!
