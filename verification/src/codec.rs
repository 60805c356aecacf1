//! Decoding opcode words into instructions and encoding them back.
//!
//! The codec is stated over the decimal positions of a word: the family is
//! the word divided by `0x1000`, `x` and `y` are the next two nibbles, and
//! `n`, `kk` and `nnn` are the remainders by `0x10`, `0x100` and `0x1000`.

use vstd::prelude::*;
use crate::error::Error;
use crate::instruction::{Addr, Fun, Imm, Imm4, Instruction, InstructionWord, Reg};

verus! {

impl Instruction {
    /// Every field of the instruction fits in the bits that its opcode has
    /// for it: addresses in twelve, the row count of `Draw` in four.
    pub open spec fn wf(self) -> bool {
        match self {
            Instruction::Sys(addr) => addr.wf(),
            Instruction::Jump(addr) => addr.wf(),
            Instruction::Call(addr) => addr.wf(),
            Instruction::SetIndex(addr) => addr.wf(),
            Instruction::JumpPlusV0(addr) => addr.wf(),
            Instruction::Draw { n, .. } => n.wf(),
            _ => true,
        }
    }

    /// The instruction is one that decoding produces: it is well formed, and
    /// it is not a `Sys` to one of the two addresses whose words, `00E0` and
    /// `00EE`, are taken by `ClearScreen` and `Ret`.
    pub open spec fn decodable(self) -> bool {
        &&& self.wf()
        &&& self matches Instruction::Sys(addr) ==> addr.0 != 0x0E0 && addr.0 != 0x0EE
    }

    /// The instruction that a word stands for, or the error for a word that
    /// stands for none.
    pub open spec fn decode_spec(word: InstructionWord) -> Result<Instruction, Error> {
        Instruction::decode_fields(
            word,
            word.spec_family(),
            word.spec_x_reg() as u8,
            word.spec_y_reg() as u8,
            word.spec_n(),
            word.spec_kk(),
            word.spec_nnn(),
        )
    }

    /// The instruction that a word stands for, given the word's fields. The
    /// patterns are tried from the most specific to the least: the two whole
    /// words first, then each family with the low nibble or byte that it
    /// fixes.
    pub open spec fn decode_fields(
        word: InstructionWord,
        family: u8,
        x: u8,
        y: u8,
        n: u8,
        kk: u8,
        nnn: u16,
    ) -> Result<Instruction, Error> {
        let vx = Reg::spec_from_index(x);
        let vy = Reg::spec_from_index(y);
        let addr = Addr(nnn);
        let imm = Imm(kk);
        if word.0 == 0x00E0 {
            Ok(Instruction::ClearScreen)
        } else if word.0 == 0x00EE {
            Ok(Instruction::Ret)
        } else if family == 0x0 {
            Ok(Instruction::Sys(addr))
        } else if family == 0x1 {
            Ok(Instruction::Jump(addr))
        } else if family == 0x2 {
            Ok(Instruction::Call(addr))
        } else if family == 0x3 {
            Ok(Instruction::SkipEqImm { vx, imm, inv: false })
        } else if family == 0x4 {
            Ok(Instruction::SkipEqImm { vx, imm, inv: true })
        } else if family == 0x5 && n == 0 {
            Ok(Instruction::SkipEqReg { vx, vy, inv: false })
        } else if family == 0x6 {
            Ok(Instruction::PutImm { vx, imm })
        } else if family == 0x7 {
            Ok(Instruction::AddImm { vx, imm })
        } else if family == 0x8 && Fun::spec_from_selector(n) is Some {
            Ok(Instruction::Apply { vx, vy, f: Fun::spec_from_selector(n)->Some_0 })
        } else if family == 0x9 && n == 0 {
            Ok(Instruction::SkipEqReg { vx, vy, inv: true })
        } else if family == 0xA {
            Ok(Instruction::SetIndex(addr))
        } else if family == 0xB {
            Ok(Instruction::JumpPlusV0(addr))
        } else if family == 0xC {
            Ok(Instruction::Randomize { vx, imm })
        } else if family == 0xD {
            Ok(Instruction::Draw { vx, vy, n: Imm4(n) })
        } else if family == 0xE && kk == 0x9E {
            Ok(Instruction::SkipPressed { vx, inv: false })
        } else if family == 0xE && kk == 0xA1 {
            Ok(Instruction::SkipPressed { vx, inv: true })
        } else if family == 0xF && kk == 0x07 {
            Ok(Instruction::GetDelay(vx))
        } else if family == 0xF && kk == 0x0A {
            Ok(Instruction::WaitKey(vx))
        } else if family == 0xF && kk == 0x15 {
            Ok(Instruction::SetDelay(vx))
        } else if family == 0xF && kk == 0x18 {
            Ok(Instruction::SetSound(vx))
        } else if family == 0xF && kk == 0x1E {
            Ok(Instruction::AddToIndex(vx))
        } else if family == 0xF && kk == 0x29 {
            Ok(Instruction::LoadGlyphAddress(vx))
        } else if family == 0xF && kk == 0x33 {
            Ok(Instruction::StoreBCD(vx))
        } else if family == 0xF && kk == 0x55 {
            Ok(Instruction::StoreRegisterBlock(vx))
        } else if family == 0xF && kk == 0x65 {
            Ok(Instruction::LoadRegisterBlock(vx))
        } else {
            Err(Error::UnrecognizedInstruction(word))
        }
    }

    /// The value of the word that stands for the instruction, as a sum of
    /// the opcode's fixed part and its fields at their positions.
    pub open spec fn encode_value(self) -> int {
        match self {
            Instruction::ClearScreen => 0x00E0,
            Instruction::Ret => 0x00EE,
            Instruction::Sys(addr) => 0x0000 + addr.0,
            Instruction::Jump(addr) => 0x1000 + addr.0,
            Instruction::Call(addr) => 0x2000 + addr.0,
            Instruction::SkipEqImm { vx, imm, inv } => (if inv {
                0x4000int
            } else {
                0x3000int
            }) + vx.spec_index() * 0x100 + imm.0,
            Instruction::SkipEqReg { vx, vy, inv } => (if inv {
                0x9000int
            } else {
                0x5000int
            }) + vx.spec_index() * 0x100 + vy.spec_index() * 0x10,
            Instruction::PutImm { vx, imm } => 0x6000 + vx.spec_index() * 0x100 + imm.0,
            Instruction::AddImm { vx, imm } => 0x7000 + vx.spec_index() * 0x100 + imm.0,
            Instruction::Apply { vx, vy, f } => 0x8000 + vx.spec_index() * 0x100
                + vy.spec_index() * 0x10 + f.spec_selector(),
            Instruction::SetIndex(addr) => 0xA000 + addr.0,
            Instruction::JumpPlusV0(addr) => 0xB000 + addr.0,
            Instruction::Randomize { vx, imm } => 0xC000 + vx.spec_index() * 0x100 + imm.0,
            Instruction::Draw { vx, vy, n } => 0xD000 + vx.spec_index() * 0x100 + vy.spec_index()
                * 0x10 + n.0,
            Instruction::SkipPressed { vx, inv } => 0xE000 + vx.spec_index() * 0x100 + (if inv {
                0xA1int
            } else {
                0x9Eint
            }),
            Instruction::GetDelay(vx) => 0xF007 + vx.spec_index() * 0x100,
            Instruction::WaitKey(vx) => 0xF00A + vx.spec_index() * 0x100,
            Instruction::SetDelay(vx) => 0xF015 + vx.spec_index() * 0x100,
            Instruction::SetSound(vx) => 0xF018 + vx.spec_index() * 0x100,
            Instruction::AddToIndex(vx) => 0xF01E + vx.spec_index() * 0x100,
            Instruction::LoadGlyphAddress(vx) => 0xF029 + vx.spec_index() * 0x100,
            Instruction::StoreBCD(vx) => 0xF033 + vx.spec_index() * 0x100,
            Instruction::StoreRegisterBlock(vx) => 0xF055 + vx.spec_index() * 0x100,
            Instruction::LoadRegisterBlock(vx) => 0xF065 + vx.spec_index() * 0x100,
        }
    }

    /// The word that stands for the instruction.
    pub open spec fn encode_spec(self) -> InstructionWord {
        InstructionWord(self.encode_value() as u16)
    }

    /// Whether every field of the instruction fits in the bits that its
    /// opcode has for it.
    pub fn is_well_formed(&self) -> (r: bool)
        ensures
            r == self.wf(),
    {
        match *self {
            Instruction::Sys(addr) => addr.0 <= 0x0FFF,
            Instruction::Jump(addr) => addr.0 <= 0x0FFF,
            Instruction::Call(addr) => addr.0 <= 0x0FFF,
            Instruction::SetIndex(addr) => addr.0 <= 0x0FFF,
            Instruction::JumpPlusV0(addr) => addr.0 <= 0x0FFF,
            Instruction::Draw { n, .. } => n.0 <= 0x0F,
            _ => true,
        }
    }

    /// Decodes a word: the instruction that it stands for, or
    /// `UnrecognizedInstruction` with the word where it stands for none.
    pub fn decode(word: InstructionWord) -> (r: Result<Instruction, Error>)
        ensures
            r == Instruction::decode_spec(word),
            r matches Ok(instruction) ==> instruction.decodable() && instruction.encode_spec()
                == word,
            r matches Err(e) ==> e == Error::UnrecognizedInstruction(word),
    {
        let family: u8 = word.family();
        let vx = Reg::from_index(word.x_reg() as u8);
        let vy = Reg::from_index(word.y_reg() as u8);
        let n: u8 = word.n();
        let kk: u8 = word.kk();
        let addr = Addr(word.nnn());
        let imm = Imm(kk);
        let unrecognized = Err(Error::UnrecognizedInstruction(word));
        let r = if word.0 == 0x00E0 {
            Ok(Instruction::ClearScreen)
        } else if word.0 == 0x00EE {
            Ok(Instruction::Ret)
        } else {
            match family {
                0x0 => Ok(Instruction::Sys(addr)),
                0x1 => Ok(Instruction::Jump(addr)),
                0x2 => Ok(Instruction::Call(addr)),
                0x3 => Ok(Instruction::SkipEqImm { vx, imm, inv: false }),
                0x4 => Ok(Instruction::SkipEqImm { vx, imm, inv: true }),
                0x5 => if n == 0 {
                    Ok(Instruction::SkipEqReg { vx, vy, inv: false })
                } else {
                    unrecognized
                },
                0x6 => Ok(Instruction::PutImm { vx, imm }),
                0x7 => Ok(Instruction::AddImm { vx, imm }),
                0x8 => match Fun::from_selector(n) {
                    Some(f) => Ok(Instruction::Apply { vx, vy, f }),
                    None => unrecognized,
                },
                0x9 => if n == 0 {
                    Ok(Instruction::SkipEqReg { vx, vy, inv: true })
                } else {
                    unrecognized
                },
                0xA => Ok(Instruction::SetIndex(addr)),
                0xB => Ok(Instruction::JumpPlusV0(addr)),
                0xC => Ok(Instruction::Randomize { vx, imm }),
                0xD => Ok(Instruction::Draw { vx, vy, n: Imm4(n) }),
                0xE => match kk {
                    0x9E => Ok(Instruction::SkipPressed { vx, inv: false }),
                    0xA1 => Ok(Instruction::SkipPressed { vx, inv: true }),
                    _ => unrecognized,
                },
                _ => match kk {
                    0x07 => Ok(Instruction::GetDelay(vx)),
                    0x0A => Ok(Instruction::WaitKey(vx)),
                    0x15 => Ok(Instruction::SetDelay(vx)),
                    0x18 => Ok(Instruction::SetSound(vx)),
                    0x1E => Ok(Instruction::AddToIndex(vx)),
                    0x29 => Ok(Instruction::LoadGlyphAddress(vx)),
                    0x33 => Ok(Instruction::StoreBCD(vx)),
                    0x55 => Ok(Instruction::StoreRegisterBlock(vx)),
                    0x65 => Ok(Instruction::LoadRegisterBlock(vx)),
                    _ => unrecognized,
                },
            }
        };
        proof {
            if r is Ok {
                Instruction::lemma_encode_decode(word);
            }
        }
        r
    }

    /// Encodes a well-formed instruction as the word that stands for it.
    pub fn encode(self) -> (word: InstructionWord)
        requires
            self.wf(),
        ensures
            word == self.encode_spec(),
            self.decodable() ==> Instruction::decode_spec(word) == Ok::<Instruction, Error>(self),
    {
        proof {
            if self.decodable() {
                self.lemma_decode_encode();
            }
        }
        InstructionWord(self.word_value())
    }

    /// The value of the word that stands for the instruction. Each arm
    /// returns by itself, so that each opcode is held against the contract
    /// on its own.
    fn word_value(self) -> (value: u16)
        requires
            self.wf(),
        ensures
            value == self.encode_value(),
    {
        match self {
            Instruction::ClearScreen => return 0x00E0,
            Instruction::Ret => return 0x00EE,
            Instruction::Sys(addr) => return addr.0,
            Instruction::Jump(addr) => return 0x1000 + addr.0,
            Instruction::Call(addr) => return 0x2000 + addr.0,
            Instruction::SkipEqImm { vx, imm, inv } => {
                let family: u16 = if inv { 0x4000 } else { 0x3000 };
                return family + x_field(vx) + imm.0 as u16;
            },
            Instruction::SkipEqReg { vx, vy, inv } => {
                let family: u16 = if inv { 0x9000 } else { 0x5000 };
                return family + x_field(vx) + y_field(vy);
            },
            Instruction::PutImm { vx, imm } => return 0x6000 + x_field(vx) + imm.0 as u16,
            Instruction::AddImm { vx, imm } => return 0x7000 + x_field(vx) + imm.0 as u16,
            Instruction::Apply { vx, vy, f } => return 0x8000 + x_field(vx) + y_field(vy)
                + f.selector() as u16,
            Instruction::SetIndex(addr) => return 0xA000 + addr.0,
            Instruction::JumpPlusV0(addr) => return 0xB000 + addr.0,
            Instruction::Randomize { vx, imm } => return 0xC000 + x_field(vx) + imm.0 as u16,
            Instruction::Draw { vx, vy, n } => return 0xD000 + x_field(vx) + y_field(vy)
                + n.0 as u16,
            Instruction::SkipPressed { vx, inv } => {
                let key: u16 = if inv { 0xA1 } else { 0x9E };
                return 0xE000 + x_field(vx) + key;
            },
            Instruction::GetDelay(vx) => return 0xF007 + x_field(vx),
            Instruction::WaitKey(vx) => return 0xF00A + x_field(vx),
            Instruction::SetDelay(vx) => return 0xF015 + x_field(vx),
            Instruction::SetSound(vx) => return 0xF018 + x_field(vx),
            Instruction::AddToIndex(vx) => return 0xF01E + x_field(vx),
            Instruction::LoadGlyphAddress(vx) => return 0xF029 + x_field(vx),
            Instruction::StoreBCD(vx) => return 0xF033 + x_field(vx),
            Instruction::StoreRegisterBlock(vx) => return 0xF055 + x_field(vx),
            Instruction::LoadRegisterBlock(vx) => return 0xF065 + x_field(vx),
        }
    }

    /// The value of the word of a well-formed instruction fits in 16 bits.
    pub proof fn lemma_encode_value_in_range(self)
        requires
            self.wf(),
        ensures
            0 <= self.encode_value() <= 0xFFFF,
    {
        Reg::lemma_index_round_trip(Reg::V0, 0);
    }

    /// Decoding undoes encoding: the word of an instruction that decoding
    /// produces decodes to that same instruction.
    pub proof fn lemma_decode_encode(self)
        requires
            self.decodable(),
        ensures
            Instruction::decode_spec(self.encode_spec()) == Ok::<Instruction, Error>(self),
    {
        match self {
            Instruction::ClearScreen | Instruction::Ret => {
                lemma_decode_encode_whole_word(self);
            },
            Instruction::Sys(_)
            | Instruction::Jump(_)
            | Instruction::Call(_)
            | Instruction::SetIndex(_)
            | Instruction::JumpPlusV0(_) => {
                lemma_decode_encode_address(self);
            },
            Instruction::SkipEqImm { .. }
            | Instruction::PutImm { .. }
            | Instruction::AddImm { .. }
            | Instruction::Randomize { .. } => {
                lemma_decode_encode_byte(self);
            },
            Instruction::SkipEqReg { .. } | Instruction::Apply { .. } | Instruction::Draw { .. } => {
                lemma_decode_encode_nibble(self);
            },
            Instruction::SkipPressed { .. } => {
                lemma_decode_encode_key(self);
            },
            Instruction::GetDelay(_)
            | Instruction::WaitKey(_)
            | Instruction::SetDelay(_)
            | Instruction::SetSound(_) => {
                lemma_decode_encode_timer(self);
            },
            Instruction::AddToIndex(_)
            | Instruction::LoadGlyphAddress(_)
            | Instruction::StoreBCD(_)
            | Instruction::StoreRegisterBlock(_)
            | Instruction::LoadRegisterBlock(_) => {
                lemma_decode_encode_index(self);
            },
        }
    }

    /// Encoding undoes decoding: a word that decodes at all decodes to an
    /// instruction whose word it is. So no two words stand for
    /// one instruction.
    pub proof fn lemma_encode_decode(word: InstructionWord)
        requires
            Instruction::decode_spec(word) is Ok,
        ensures
            Instruction::decode_spec(word)->Ok_0.decodable(),
            Instruction::decode_spec(word)->Ok_0.encode_spec() == word,
    {
        lemma_word_is_sum_of_fields(word.0);
        Reg::lemma_index_round_trip(Reg::V0, word.spec_x_reg() as u8);
        Reg::lemma_index_round_trip(Reg::V0, word.spec_y_reg() as u8);
        let i = Instruction::decode_spec(word)->Ok_0;
        let undone = i.decodable() && i.encode_spec() == word;
        // One family at a time: with the family fixed, the patterns left to
        // tell apart are few.
        let family = word.spec_family();
        if family == 0x0 {
            assert(undone);
        } else if family == 0x1 {
            assert(undone);
        } else if family == 0x2 {
            assert(undone);
        } else if family == 0x3 {
            assert(undone);
        } else if family == 0x4 {
            assert(undone);
        } else if family == 0x5 {
            assert(undone);
        } else if family == 0x6 {
            assert(undone);
        } else if family == 0x7 {
            assert(undone);
        } else if family == 0x8 {
            assert(undone);
        } else if family == 0x9 {
            assert(undone);
        } else if family == 0xA {
            assert(undone);
        } else if family == 0xB {
            assert(undone);
        } else if family == 0xC {
            assert(undone);
        } else if family == 0xD {
            assert(undone);
        } else if family == 0xE {
            assert(undone);
        } else {
            assert(undone);
        }
    }
}

/// The number of a register at the position of the `x` field.
fn x_field(vx: Reg) -> (r: u16)
    ensures
        r == vx.spec_index() * 0x100,
        r <= 0x0F00,
{
    vx.index() as u16 * 0x100
}

/// The number of a register at the position of the `y` field.
fn y_field(vy: Reg) -> (r: u16)
    ensures
        r == vy.spec_index() * 0x10,
        r <= 0x00F0,
{
    vy.index() as u16 * 0x10
}

/// The round trip of the two instructions that are one whole word each.
proof fn lemma_decode_encode_whole_word(i: Instruction)
    requires
        i is ClearScreen || i is Ret,
    ensures
        Instruction::decode_spec(i.encode_spec()) == Ok::<Instruction, Error>(i),
{
}

/// The round trip of the instructions that carry an address.
proof fn lemma_decode_encode_address(i: Instruction)
    requires
        i.decodable(),
        i is Sys || i is Jump || i is Call || i is SetIndex || i is JumpPlusV0,
    ensures
        Instruction::decode_spec(i.encode_spec()) == Ok::<Instruction, Error>(i),
{
    let w = i.encode_spec().0;
    match i {
        Instruction::Sys(addr) => lemma_fields_of_address_word(0x0, addr.0, w),
        Instruction::Jump(addr) => lemma_fields_of_address_word(0x1, addr.0, w),
        Instruction::Call(addr) => lemma_fields_of_address_word(0x2, addr.0, w),
        Instruction::SetIndex(addr) => lemma_fields_of_address_word(0xA, addr.0, w),
        Instruction::JumpPlusV0(addr) => lemma_fields_of_address_word(0xB, addr.0, w),
        _ => {},
    }
}

/// The round trip of the instructions that carry a register and a byte.
proof fn lemma_decode_encode_byte(i: Instruction)
    requires
        i is SkipEqImm || i is PutImm || i is AddImm || i is Randomize,
    ensures
        Instruction::decode_spec(i.encode_spec()) == Ok::<Instruction, Error>(i),
{
    let w = i.encode_spec().0;
    match i {
        Instruction::SkipEqImm { vx, imm, inv } => {
            Reg::lemma_index_round_trip(vx, 0);
            lemma_fields_of_byte_word(if inv { 0x4 } else { 0x3 }, vx.spec_index(), imm.0, w);
        },
        Instruction::PutImm { vx, imm } => {
            Reg::lemma_index_round_trip(vx, 0);
            lemma_fields_of_byte_word(0x6, vx.spec_index(), imm.0, w);
        },
        Instruction::AddImm { vx, imm } => {
            Reg::lemma_index_round_trip(vx, 0);
            lemma_fields_of_byte_word(0x7, vx.spec_index(), imm.0, w);
        },
        Instruction::Randomize { vx, imm } => {
            Reg::lemma_index_round_trip(vx, 0);
            lemma_fields_of_byte_word(0xC, vx.spec_index(), imm.0, w);
        },
        _ => {},
    }
}

/// The round trip of the instructions that carry two registers.
proof fn lemma_decode_encode_nibble(i: Instruction)
    requires
        i.wf(),
        i is SkipEqReg || i is Apply || i is Draw,
    ensures
        Instruction::decode_spec(i.encode_spec()) == Ok::<Instruction, Error>(i),
{
    let w = i.encode_spec().0;
    match i {
        Instruction::SkipEqReg { vx, vy, inv } => {
            Reg::lemma_index_round_trip(vx, 0);
            Reg::lemma_index_round_trip(vy, 0);
            lemma_fields_of_nibble_word(
                if inv { 0x9 } else { 0x5 },
                vx.spec_index(),
                vy.spec_index(),
                0,
                w,
            );
        },
        Instruction::Apply { vx, vy, f } => {
            Reg::lemma_index_round_trip(vx, 0);
            Reg::lemma_index_round_trip(vy, 0);
            lemma_fields_of_nibble_word(0x8, vx.spec_index(), vy.spec_index(), f.spec_selector(), w);
        },
        Instruction::Draw { vx, vy, n } => {
            Reg::lemma_index_round_trip(vx, 0);
            Reg::lemma_index_round_trip(vy, 0);
            lemma_fields_of_nibble_word(0xD, vx.spec_index(), vy.spec_index(), n.0, w);
        },
        _ => {},
    }
}

/// The round trip of the instructions that ask about a key.
proof fn lemma_decode_encode_key(i: Instruction)
    requires
        i is SkipPressed,
    ensures
        Instruction::decode_spec(i.encode_spec()) == Ok::<Instruction, Error>(i),
{
    let w = i.encode_spec().0;
    match i {
        Instruction::SkipPressed { vx, inv } => {
            Reg::lemma_index_round_trip(vx, 0);
            lemma_fields_of_byte_word(0xE, vx.spec_index(), if inv { 0xA1 } else { 0x9E }, w);
        },
        _ => {},
    }
}

/// The round trip of the instructions of the timers and of the keyboard.
proof fn lemma_decode_encode_timer(i: Instruction)
    requires
        i is GetDelay || i is WaitKey || i is SetDelay || i is SetSound,
    ensures
        Instruction::decode_spec(i.encode_spec()) == Ok::<Instruction, Error>(i),
{
    let w = i.encode_spec().0;
    match i {
        Instruction::GetDelay(vx) => {
            Reg::lemma_index_round_trip(vx, 0);
            lemma_fields_of_byte_word(0xF, vx.spec_index(), 0x07, w);
        },
        Instruction::WaitKey(vx) => {
            Reg::lemma_index_round_trip(vx, 0);
            lemma_fields_of_byte_word(0xF, vx.spec_index(), 0x0A, w);
        },
        Instruction::SetDelay(vx) => {
            Reg::lemma_index_round_trip(vx, 0);
            lemma_fields_of_byte_word(0xF, vx.spec_index(), 0x15, w);
        },
        Instruction::SetSound(vx) => {
            Reg::lemma_index_round_trip(vx, 0);
            lemma_fields_of_byte_word(0xF, vx.spec_index(), 0x18, w);
        },
        _ => {},
    }
}

/// The round trip of the instructions that work through the index register.
proof fn lemma_decode_encode_index(i: Instruction)
    requires
        i is AddToIndex || i is LoadGlyphAddress || i is StoreBCD || i is StoreRegisterBlock
            || i is LoadRegisterBlock,
    ensures
        Instruction::decode_spec(i.encode_spec()) == Ok::<Instruction, Error>(i),
{
    let w = i.encode_spec().0;
    match i {
        Instruction::AddToIndex(vx) => {
            Reg::lemma_index_round_trip(vx, 0);
            lemma_fields_of_byte_word(0xF, vx.spec_index(), 0x1E, w);
        },
        Instruction::LoadGlyphAddress(vx) => {
            Reg::lemma_index_round_trip(vx, 0);
            lemma_fields_of_byte_word(0xF, vx.spec_index(), 0x29, w);
        },
        Instruction::StoreBCD(vx) => {
            Reg::lemma_index_round_trip(vx, 0);
            lemma_fields_of_byte_word(0xF, vx.spec_index(), 0x33, w);
        },
        Instruction::StoreRegisterBlock(vx) => {
            Reg::lemma_index_round_trip(vx, 0);
            lemma_fields_of_byte_word(0xF, vx.spec_index(), 0x55, w);
        },
        Instruction::LoadRegisterBlock(vx) => {
            Reg::lemma_index_round_trip(vx, 0);
            lemma_fields_of_byte_word(0xF, vx.spec_index(), 0x65, w);
        },
        _ => {},
    }
}

/// A word is the sum of its fields at their positions, whichever way it is
/// cut: family and address; family, `x` and byte; family, `x`, `y` and `n`.
pub proof fn lemma_word_is_sum_of_fields(w: u16)
    by (bit_vector)
    ensures
        w / 0x1000 < 0x10,
        (w / 0x100) % 0x10 < 0x10,
        (w / 0x10) % 0x10 < 0x10,
        w == (w / 0x1000) * 0x1000 + w % 0x1000,
        w == (w / 0x1000) * 0x1000 + ((w / 0x100) % 0x10) * 0x100 + w % 0x100,
        w == (w / 0x1000) * 0x1000 + ((w / 0x100) % 0x10) * 0x100 + ((w / 0x10) % 0x10) * 0x10 + w
            % 0x10,
{
}

/// The fields of the word made of a family and an address.
pub proof fn lemma_fields_of_address_word(family: u8, nnn: u16, w: u16)
    by (bit_vector)
    requires
        family < 0x10,
        nnn <= 0x0FFF,
        w == family * 0x1000 + nnn,
    ensures
        w / 0x1000 == family,
        w % 0x1000 == nnn,
        (w == 0x00E0) == (family == 0 && nnn == 0x0E0),
        (w == 0x00EE) == (family == 0 && nnn == 0x0EE),
{
}

/// The fields of the word made of a family, a register and a byte.
pub proof fn lemma_fields_of_byte_word(family: u8, x: u8, kk: u8, w: u16)
    by (bit_vector)
    requires
        0 < family < 0x10,
        x < 0x10,
        w == family * 0x1000 + x * 0x100 + kk,
    ensures
        w / 0x1000 == family,
        (w / 0x100) % 0x10 == x,
        w % 0x100 == kk,
        w != 0x00E0,
        w != 0x00EE,
{
}

/// The fields of the word made of a family, two registers and a nibble.
pub proof fn lemma_fields_of_nibble_word(family: u8, x: u8, y: u8, n: u8, w: u16)
    by (bit_vector)
    requires
        0 < family < 0x10,
        x < 0x10,
        y < 0x10,
        n < 0x10,
        w == family * 0x1000 + x * 0x100 + y * 0x10 + n,
    ensures
        w / 0x1000 == family,
        (w / 0x100) % 0x10 == x,
        (w / 0x10) % 0x10 == y,
        w % 0x10 == n,
        w != 0x00E0,
        w != 0x00EE,
{
}

} // verus!
