//! The instruction codec: a 16-bit opcode word on one side, a structured
//! instruction on the other, and the two maps between them.

use vstd::prelude::*;

verus! {

/// A 16-bit opcode word as it is stored in memory, big end first.
#[derive(Clone, Copy, Debug, PartialEq, Eq, Structural)]
pub struct InstructionWord(pub u16);

impl InstructionWord {
    /// The low twelve bits of the word.
    pub open spec fn spec_nnn(self) -> u16 {
        (self.0 % 0x1000) as u16
    }

    /// The low eight bits of the word.
    pub open spec fn spec_kk(self) -> u8 {
        (self.0 % 0x100) as u8
    }

    /// The low four bits of the word.
    pub open spec fn spec_n(self) -> u8 {
        (self.0 % 0x10) as u8
    }

    /// Bits 8 to 11 of the word.
    pub open spec fn spec_x_reg(self) -> usize {
        ((self.0 / 0x100) % 0x10) as usize
    }

    /// Bits 4 to 7 of the word.
    pub open spec fn spec_y_reg(self) -> usize {
        ((self.0 / 0x10) % 0x10) as usize
    }

    /// The high four bits of the word, which select the opcode family.
    pub open spec fn spec_family(self) -> u8 {
        (self.0 / 0x1000) as u8
    }

    /// The address operand `nnn`.
    #[verifier::when_used_as_spec(spec_nnn)]
    pub fn nnn(self) -> (r: u16)
        ensures
            r == self.spec_nnn(),
            r <= 0x0FFF,
    {
        let w: u16 = self.0;
        assert(w & 0x0FFF == w % 0x1000) by (bit_vector);
        w & 0x0FFF
    }

    /// The immediate byte operand `kk`.
    #[verifier::when_used_as_spec(spec_kk)]
    pub fn kk(self) -> (r: u8)
        ensures
            r == self.spec_kk(),
    {
        let w: u16 = self.0;
        assert(w & 0xFF == w % 0x100) by (bit_vector);
        (w & 0xFF) as u8
    }

    /// The immediate nibble operand `n`.
    #[verifier::when_used_as_spec(spec_n)]
    pub fn n(self) -> (r: u8)
        ensures
            r == self.spec_n(),
            r <= 0x0F,
    {
        let w: u16 = self.0;
        assert(w & 0xF == w % 0x10) by (bit_vector);
        (w & 0xF) as u8
    }

    /// The index of the register operand `x`.
    #[verifier::when_used_as_spec(spec_x_reg)]
    pub fn x_reg(self) -> (r: usize)
        ensures
            r == self.spec_x_reg(),
            r < 16,
    {
        let w: u16 = self.0;
        assert((w & 0x0F00) >> 8 == (w / 0x100) % 0x10) by (bit_vector);
        ((w & 0x0F00) >> 8) as usize
    }

    /// The index of the register operand `y`.
    #[verifier::when_used_as_spec(spec_y_reg)]
    pub fn y_reg(self) -> (r: usize)
        ensures
            r == self.spec_y_reg(),
            r < 16,
    {
        let w: u16 = self.0;
        assert((w & 0x00F0) >> 4 == (w / 0x10) % 0x10) by (bit_vector);
        ((w & 0x00F0) >> 4) as usize
    }

    /// The opcode family selector.
    #[verifier::when_used_as_spec(spec_family)]
    pub fn family(self) -> (r: u8)
        ensures
            r == self.spec_family(),
            r <= 0x0F,
    {
        let w: u16 = self.0;
        assert(w >> 12 == w / 0x1000) by (bit_vector);
        (w >> 12) as u8
    }
}

/// One of the sixteen general-purpose registers. `Vf` doubles as the flags
/// register of the arithmetic, shift and draw instructions.
#[derive(Clone, Copy, Debug, PartialEq, Eq, Structural)]
pub enum Reg {
    V0,
    V1,
    V2,
    V3,
    V4,
    V5,
    V6,
    V7,
    V8,
    V9,
    Va,
    Vb,
    Vc,
    Vd,
    Ve,
    Vf,
}

impl Reg {
    /// The number of the register, from 0 for `V0` to 15 for `Vf`.
    pub open spec fn spec_index(self) -> u8 {
        match self {
            Reg::V0 => 0,
            Reg::V1 => 1,
            Reg::V2 => 2,
            Reg::V3 => 3,
            Reg::V4 => 4,
            Reg::V5 => 5,
            Reg::V6 => 6,
            Reg::V7 => 7,
            Reg::V8 => 8,
            Reg::V9 => 9,
            Reg::Va => 10,
            Reg::Vb => 11,
            Reg::Vc => 12,
            Reg::Vd => 13,
            Reg::Ve => 14,
            Reg::Vf => 15,
        }
    }

    /// The register with the given number. Numbers above 15 name no
    /// register; the function is left at `Vf` there.
    pub open spec fn spec_from_index(index: u8) -> Reg {
        if index == 0 {
            Reg::V0
        } else if index == 1 {
            Reg::V1
        } else if index == 2 {
            Reg::V2
        } else if index == 3 {
            Reg::V3
        } else if index == 4 {
            Reg::V4
        } else if index == 5 {
            Reg::V5
        } else if index == 6 {
            Reg::V6
        } else if index == 7 {
            Reg::V7
        } else if index == 8 {
            Reg::V8
        } else if index == 9 {
            Reg::V9
        } else if index == 10 {
            Reg::Va
        } else if index == 11 {
            Reg::Vb
        } else if index == 12 {
            Reg::Vc
        } else if index == 13 {
            Reg::Vd
        } else if index == 14 {
            Reg::Ve
        } else {
            Reg::Vf
        }
    }

    /// The number of the register.
    #[verifier::when_used_as_spec(spec_index)]
    pub fn index(self) -> (r: u8)
        ensures
            r == self.spec_index(),
            r < 16,
    {
        match self {
            Reg::V0 => 0,
            Reg::V1 => 1,
            Reg::V2 => 2,
            Reg::V3 => 3,
            Reg::V4 => 4,
            Reg::V5 => 5,
            Reg::V6 => 6,
            Reg::V7 => 7,
            Reg::V8 => 8,
            Reg::V9 => 9,
            Reg::Va => 10,
            Reg::Vb => 11,
            Reg::Vc => 12,
            Reg::Vd => 13,
            Reg::Ve => 14,
            Reg::Vf => 15,
        }
    }

    /// The register with the given number.
    #[verifier::when_used_as_spec(spec_from_index)]
    pub fn from_index(index: u8) -> (r: Reg)
        requires
            index < 16,
        ensures
            r == Reg::spec_from_index(index),
            r.spec_index() == index,
    {
        match index {
            0 => Reg::V0,
            1 => Reg::V1,
            2 => Reg::V2,
            3 => Reg::V3,
            4 => Reg::V4,
            5 => Reg::V5,
            6 => Reg::V6,
            7 => Reg::V7,
            8 => Reg::V8,
            9 => Reg::V9,
            10 => Reg::Va,
            11 => Reg::Vb,
            12 => Reg::Vc,
            13 => Reg::Vd,
            14 => Reg::Ve,
            _ => Reg::Vf,
        }
    }

    /// Numbering the registers loses nothing: the number of a register names
    /// that register, and the register of a number below 16 has that number.
    pub proof fn lemma_index_round_trip(r: Reg, index: u8)
        ensures
            Reg::spec_from_index(r.spec_index()) == r,
            r.spec_index() < 16,
            index < 16 ==> Reg::spec_from_index(index).spec_index() == index,
    {
    }
}

/// A memory address operand. An address that an instruction can carry has
/// twelve bits.
#[derive(Clone, Copy, Debug, PartialEq, Eq, Structural)]
pub struct Addr(pub u16);

/// An immediate byte operand.
#[derive(Clone, Copy, Debug, PartialEq, Eq, Structural)]
pub struct Imm(pub u8);

/// An immediate nibble operand: the number of rows of a sprite.
#[derive(Clone, Copy, Debug, PartialEq, Eq, Structural)]
pub struct Imm4(pub u8);

impl Addr {
    /// The address fits in the twelve bits that an opcode has for it.
    pub open spec fn wf(self) -> bool {
        self.0 <= 0x0FFF
    }
}

impl Imm4 {
    /// The value fits in the four bits that an opcode has for it.
    pub open spec fn wf(self) -> bool {
        self.0 <= 0x0F
    }
}

/// What an `Apply` instruction does with its two registers.
#[derive(Clone, Copy, Debug, PartialEq, Eq, Structural)]
pub enum Fun {
    Id,
    Or,
    And,
    Xor,
    Add,
    Subtract,
    ShiftRight,
    SubtractInv,
    ShiftLeft,
}

impl Fun {
    /// The low nibble that selects the function in an `8xy_` opcode.
    pub open spec fn spec_selector(self) -> u8 {
        match self {
            Fun::Id => 0x0,
            Fun::Or => 0x1,
            Fun::And => 0x2,
            Fun::Xor => 0x3,
            Fun::Add => 0x4,
            Fun::Subtract => 0x5,
            Fun::ShiftRight => 0x6,
            Fun::SubtractInv => 0x7,
            Fun::ShiftLeft => 0xE,
        }
    }

    /// The function that a low nibble selects, if it selects one.
    pub open spec fn spec_from_selector(n: u8) -> Option<Fun> {
        if n == 0x0 {
            Some(Fun::Id)
        } else if n == 0x1 {
            Some(Fun::Or)
        } else if n == 0x2 {
            Some(Fun::And)
        } else if n == 0x3 {
            Some(Fun::Xor)
        } else if n == 0x4 {
            Some(Fun::Add)
        } else if n == 0x5 {
            Some(Fun::Subtract)
        } else if n == 0x6 {
            Some(Fun::ShiftRight)
        } else if n == 0x7 {
            Some(Fun::SubtractInv)
        } else if n == 0xE {
            Some(Fun::ShiftLeft)
        } else {
            None
        }
    }

    /// The low nibble that selects the function in an `8xy_` opcode.
    #[verifier::when_used_as_spec(spec_selector)]
    pub fn selector(self) -> (r: u8)
        ensures
            r == self.spec_selector(),
            r <= 0x0F,
    {
        match self {
            Fun::Id => 0x0,
            Fun::Or => 0x1,
            Fun::And => 0x2,
            Fun::Xor => 0x3,
            Fun::Add => 0x4,
            Fun::Subtract => 0x5,
            Fun::ShiftRight => 0x6,
            Fun::SubtractInv => 0x7,
            Fun::ShiftLeft => 0xE,
        }
    }

    /// The function that a low nibble selects, if it selects one.
    #[verifier::when_used_as_spec(spec_from_selector)]
    pub fn from_selector(n: u8) -> (r: Option<Fun>)
        ensures
            r == Fun::spec_from_selector(n),
    {
        match n {
            0x0 => Some(Fun::Id),
            0x1 => Some(Fun::Or),
            0x2 => Some(Fun::And),
            0x3 => Some(Fun::Xor),
            0x4 => Some(Fun::Add),
            0x5 => Some(Fun::Subtract),
            0x6 => Some(Fun::ShiftRight),
            0x7 => Some(Fun::SubtractInv),
            0xE => Some(Fun::ShiftLeft),
            _ => None,
        }
    }
}

/// A decoded instruction.
#[derive(Clone, Copy, Debug, PartialEq, Eq, Structural)]
pub enum Instruction {
    /// `00E0`: clear the display.
    ClearScreen,
    /// `00EE`: return from a subroutine.
    Ret,
    /// `0nnn`: call a machine-code routine of the host.
    Sys(Addr),
    /// `1nnn`: jump to `nnn`.
    Jump(Addr),
    /// `2nnn`: call the subroutine at `nnn`.
    Call(Addr),
    /// `3xkk`, `4xkk`: skip the next instruction if `Vx == kk`; with `inv`,
    /// if `Vx != kk`.
    SkipEqImm { vx: Reg, imm: Imm, inv: bool },
    /// `5xy0`, `9xy0`: skip the next instruction if `Vx == Vy`; with `inv`,
    /// if `Vx != Vy`.
    SkipEqReg { vx: Reg, vy: Reg, inv: bool },
    /// `6xkk`: `Vx = kk`.
    PutImm { vx: Reg, imm: Imm },
    /// `7xkk`: `Vx = Vx + kk`, wrapping, with no flag.
    AddImm { vx: Reg, imm: Imm },
    /// `8xy_`: `Vx = f(Vx, Vy)`, with a flag in `Vf` where `f` has one.
    Apply { vx: Reg, vy: Reg, f: Fun },
    /// `Annn`: `I = nnn`.
    SetIndex(Addr),
    /// `Bnnn`: jump to `nnn + V0`.
    JumpPlusV0(Addr),
    /// `Cxkk`: `Vx = random byte & kk`.
    Randomize { vx: Reg, imm: Imm },
    /// `Dxyn`: draw the `n` bytes at `I` as a sprite at `(Vx, Vy)`.
    Draw { vx: Reg, vy: Reg, n: Imm4 },
    /// `Ex9E`, `ExA1`: skip the next instruction if the key `Vx` is pressed;
    /// with `inv`, if it is not.
    SkipPressed { vx: Reg, inv: bool },
    /// `Fx07`: `Vx = delay timer`.
    GetDelay(Reg),
    /// `Fx0A`: wait for a key and store its number in `Vx`.
    WaitKey(Reg),
    /// `Fx15`: `delay timer = Vx`.
    SetDelay(Reg),
    /// `Fx18`: `sound timer = Vx`.
    SetSound(Reg),
    /// `Fx1E`: `I = I + Vx`, wrapping.
    AddToIndex(Reg),
    /// `Fx29`: `I` = the address of the font sprite of the digit `Vx`.
    LoadGlyphAddress(Reg),
    /// `Fx33`: store the three decimal digits of `Vx` at `I`, `I+1`, `I+2`.
    StoreBCD(Reg),
    /// `Fx55`: store `V0..=Vx` at `I`.
    StoreRegisterBlock(Reg),
    /// `Fx65`: load `V0..=Vx` from `I`.
    LoadRegisterBlock(Reg),
}

} // verus!
