//! The state of the machine as a mathematical value, and what each
//! instruction makes of it.

use vstd::prelude::*;
use crate::display::{cleared, collides, drawn, DISPLAY_SIZE};
use crate::error::Error;
use crate::instruction::{Addr, Fun, Imm4, Instruction, Reg};
use crate::stack::STACK_DEPTH;
use crate::timer::UNITS_PER_TICK;

verus! {

/// The number of bytes of memory.
pub const MEMORY_SIZE: usize = 4096;

/// The address where a program is loaded and where execution starts.
pub const PROGRAM_START: u16 = 0x200;

/// The address of the first font sprite.
pub const FONT_BASE: u16 = 0;

/// The number of bytes of a font sprite.
pub const GLYPH_SIZE: u16 = 5;

/// The number of keys.
pub const KEY_COUNT: usize = 16;

/// The state of the machine.
#[verifier::ext_equal]
pub struct VmState {
    /// The 4096 bytes of memory.
    pub memory: Seq<u8>,
    /// The sixteen registers, `V0` first.
    pub registers: Seq<u8>,
    /// The return addresses, the oldest first.
    pub stack: Seq<u16>,
    /// The program counter.
    pub pc: u16,
    /// The index register `I`.
    pub index: u16,
    /// The time left on the delay timer, in units of 1/60000 of a second.
    pub delay: nat,
    /// The time left on the sound timer, in the same units.
    pub sound: nat,
    /// The 2048 pixels, row by row.
    pub display: Seq<bool>,
    /// Whether storing and loading a block of registers moves `I` past the
    /// block.
    pub index_advances: bool,
}

/// What an arithmetic function makes of the values of `Vx` and `Vy`: the new
/// value of `Vx`.
pub open spec fn apply_result(f: Fun, x: u8, y: u8) -> u8 {
    match f {
        Fun::Id => y,
        Fun::Or => x | y,
        Fun::And => x & y,
        Fun::Xor => x ^ y,
        Fun::Add => ((x + y) % 0x100) as u8,
        Fun::Subtract => ((x - y) % 0x100) as u8,
        Fun::ShiftRight => y / 2,
        Fun::SubtractInv => ((y - x) % 0x100) as u8,
        Fun::ShiftLeft => ((y * 2) % 0x100) as u8,
    }
}

/// The flag that an arithmetic function leaves in `VF`, if it leaves one:
/// the carry of an addition, 1 where a subtraction did not borrow, the bit
/// that a shift pushed out.
pub open spec fn apply_flag(f: Fun, x: u8, y: u8) -> Option<u8> {
    match f {
        Fun::Id | Fun::Or | Fun::And | Fun::Xor => None,
        Fun::Add => Some(if x + y > 0xFF { 1u8 } else { 0u8 }),
        Fun::Subtract => Some(if x < y { 0u8 } else { 1u8 }),
        Fun::ShiftRight => Some(y % 2),
        Fun::SubtractInv => Some(if y < x { 0u8 } else { 1u8 }),
        Fun::ShiftLeft => Some(y / 0x80),
    }
}

/// The number of the lowest key that is pressed, from `from` on.
pub open spec fn first_pressed(keys: Seq<bool>, from: int) -> Option<u8>
    decreases keys.len() - from,
{
    if from < 0 || from >= keys.len() || from > 0xFF {
        None
    } else if keys[from] {
        Some(from as u8)
    } else {
        first_pressed(keys, from + 1)
    }
}

/// A program counter moved forward, as a 16-bit register moves.
pub open spec fn advance(pc: u16, by: int) -> u16 {
    ((pc + by) % 0x10000) as u16
}

impl VmState {
    /// The sizes of the parts are those of the machine.
    pub open spec fn wf(self) -> bool {
        &&& self.memory.len() == MEMORY_SIZE
        &&& self.registers.len() == 16
        &&& self.stack.len() <= STACK_DEPTH
        &&& self.display.len() == DISPLAY_SIZE
        &&& self.delay <= 255 * UNITS_PER_TICK
        &&& self.sound <= 255 * UNITS_PER_TICK
    }

    /// The value of a register.
    pub open spec fn reg(self, r: Reg) -> u8 {
        self.registers[r.spec_index() as int]
    }

    /// The state with one register set.
    pub open spec fn with_reg(self, r: Reg, value: u8) -> VmState {
        VmState { registers: self.registers.update(r.spec_index() as int, value), ..self }
    }

    /// The state with the program counter on the next instruction.
    pub open spec fn next(self) -> VmState {
        VmState { pc: advance(self.pc, 2), ..self }
    }

    /// The state with the program counter on the next instruction, or on the
    /// one after it where `skip` holds.
    pub open spec fn next_or_skip(self, skip: bool) -> VmState {
        VmState { pc: advance(self.pc, if skip { 4 } else { 2 }), ..self }
    }

    /// The state after a return, with an address on the stack.
    pub open spec fn after_ret(self) -> VmState {
        VmState { pc: self.stack.last(), stack: self.stack.drop_last(), ..self }
    }

    /// The state after a call, with room on the stack.
    pub open spec fn after_call(self, addr: Addr) -> VmState {
        VmState { pc: addr.0, stack: self.stack.push(advance(self.pc, 2)), ..self }
    }

    /// The state after `Apply`: both registers are read first, then the
    /// result is written, and the flag last, so that the flag stands where
    /// `Vx` is `VF`.
    pub open spec fn after_apply(self, vx: Reg, vy: Reg, f: Fun) -> VmState {
        let x = self.reg(vx);
        let y = self.reg(vy);
        let written = self.with_reg(vx, apply_result(f, x, y));
        (match apply_flag(f, x, y) {
            Some(flag) => written.with_reg(Reg::Vf, flag),
            None => written,
        }).next()
    }

    /// The sprite of `n` rows that the index register points at.
    pub open spec fn sprite(self, n: Imm4) -> Seq<u8> {
        self.memory.subrange(self.index as int, self.index + n.0)
    }

    /// The state after `Draw`, with the sprite inside memory.
    pub open spec fn after_draw(self, vx: Reg, vy: Reg, n: Imm4) -> VmState {
        let x = self.reg(vx) as int;
        let y = self.reg(vy) as int;
        let flag = if collides(self.display, x, y, self.sprite(n)) {
            1u8
        } else {
            0u8
        };
        VmState { display: drawn(self.display, x, y, self.sprite(n)), ..self }.with_reg(
            Reg::Vf,
            flag,
        ).next()
    }

    /// The state after `WaitKey`: with a key pressed, the number of the
    /// lowest one is in `Vx` and the program goes on; with none, nothing has
    /// changed, and the instruction is met again on the next cycle.
    pub open spec fn after_wait_key(self, vx: Reg, keys: Seq<bool>) -> VmState {
        match first_pressed(keys, 0) {
            Some(key) => self.with_reg(vx, key).next(),
            None => self,
        }
    }

    /// The state after `StoreBCD`, with the three bytes inside memory: the
    /// hundreds, the tens and the ones of `Vx`.
    pub open spec fn after_store_bcd(self, vx: Reg) -> VmState {
        let v = self.reg(vx);
        let i = self.index as int;
        VmState {
            memory: self.memory.update(i, v / 100).update(i + 1, (v / 10) % 10).update(
                i + 2,
                v % 10,
            ),
            ..self
        }.next()
    }

    /// The index register after a block of `count` registers was moved.
    pub open spec fn index_after_block(self, count: int) -> u16 {
        if self.index_advances {
            (self.index + count) as u16
        } else {
            self.index
        }
    }

    /// The state after `StoreRegisterBlock`, with the block inside memory.
    pub open spec fn after_store_block(self, vx: Reg) -> VmState {
        let count = vx.spec_index() + 1;
        let i = self.index as int;
        VmState {
            memory: Seq::new(
                self.memory.len(),
                |a: int| if i <= a < i + count { self.registers[a - i] } else { self.memory[a] },
            ),
            index: self.index_after_block(count),
            ..self
        }.next()
    }

    /// The state after `LoadRegisterBlock`, with the block inside memory.
    pub open spec fn after_load_block(self, vx: Reg) -> VmState {
        let count = vx.spec_index() + 1;
        let i = self.index as int;
        VmState {
            registers: Seq::new(
                self.registers.len(),
                |r: int| if r < count { self.memory[i + r] } else { self.registers[r] },
            ),
            index: self.index_after_block(count),
            ..self
        }.next()
    }

    /// What an instruction makes of the state, given the keys that are
    /// pressed and a random byte; or the error that stops it, in which case
    /// the state stays as it is.
    pub open spec fn step(self, instruction: Instruction, keys: Seq<bool>, random: u8) -> Result<
        VmState,
        Error,
    > {
        let pc = self.pc;
        match instruction {
            Instruction::ClearScreen => Ok(VmState { display: cleared(), ..self }.next()),
            Instruction::Ret => if self.stack.len() == 0 {
                Err(Error::StackUnderflow { pc, instruction })
            } else {
                Ok(self.after_ret())
            },
            Instruction::Sys(_) => Err(Error::UnsupportedInstruction { pc, instruction }),
            Instruction::Jump(addr) => Ok(VmState { pc: addr.0, ..self }),
            Instruction::Call(addr) => if self.stack.len() >= STACK_DEPTH {
                Err(Error::StackOverflow { pc, instruction })
            } else {
                Ok(self.after_call(addr))
            },
            Instruction::SkipEqImm { vx, imm, inv } => Ok(
                self.next_or_skip((self.reg(vx) == imm.0) != inv),
            ),
            Instruction::SkipEqReg { vx, vy, inv } => Ok(
                self.next_or_skip((self.reg(vx) == self.reg(vy)) != inv),
            ),
            Instruction::PutImm { vx, imm } => Ok(self.with_reg(vx, imm.0).next()),
            Instruction::AddImm { vx, imm } => Ok(
                self.with_reg(vx, ((self.reg(vx) + imm.0) % 0x100) as u8).next(),
            ),
            Instruction::Apply { vx, vy, f } => Ok(self.after_apply(vx, vy, f)),
            Instruction::SetIndex(addr) => Ok(VmState { index: addr.0, ..self }.next()),
            Instruction::JumpPlusV0(addr) => Ok(
                VmState { pc: advance(addr.0, self.reg(Reg::V0) as int), ..self },
            ),
            Instruction::Randomize { vx, imm } => Ok(self.with_reg(vx, random & imm.0).next()),
            Instruction::Draw { vx, vy, n } => if self.index + n.0 > MEMORY_SIZE {
                Err(Error::OutOfBoundsMemoryAccess { pc, instruction })
            } else {
                Ok(self.after_draw(vx, vy, n))
            },
            Instruction::SkipPressed { vx, inv } => if self.reg(vx) >= KEY_COUNT {
                Err(Error::KeyOutOfRange { pc, instruction })
            } else {
                Ok(self.next_or_skip(keys[self.reg(vx) as int] != inv))
            },
            Instruction::GetDelay(vx) => Ok(
                self.with_reg(vx, (self.delay / (UNITS_PER_TICK as nat)) as u8).next(),
            ),
            Instruction::WaitKey(vx) => Ok(self.after_wait_key(vx, keys)),
            Instruction::SetDelay(vx) => Ok(
                VmState { delay: (self.reg(vx) * UNITS_PER_TICK) as nat, ..self }.next(),
            ),
            Instruction::SetSound(vx) => Ok(
                VmState { sound: (self.reg(vx) * UNITS_PER_TICK) as nat, ..self }.next(),
            ),
            Instruction::AddToIndex(vx) => Ok(
                VmState { index: ((self.index + self.reg(vx)) % 0x10000) as u16, ..self }.next(),
            ),
            Instruction::LoadGlyphAddress(vx) => Ok(
                VmState { index: (FONT_BASE + self.reg(vx) * GLYPH_SIZE) as u16, ..self }.next(),
            ),
            Instruction::StoreBCD(vx) => if self.index + 3 > MEMORY_SIZE {
                Err(Error::OutOfBoundsMemoryAccess { pc, instruction })
            } else {
                Ok(self.after_store_bcd(vx))
            },
            Instruction::StoreRegisterBlock(vx) => if self.index + vx.spec_index() + 1
                > MEMORY_SIZE {
                Err(Error::OutOfBoundsMemoryAccess { pc, instruction })
            } else {
                Ok(self.after_store_block(vx))
            },
            Instruction::LoadRegisterBlock(vx) => if self.index + vx.spec_index() + 1
                > MEMORY_SIZE {
                Err(Error::OutOfBoundsMemoryAccess { pc, instruction })
            } else {
                Ok(self.after_load_block(vx))
            },
        }
    }

    /// The word that the program counter points at, big end first, where it
    /// lies inside memory.
    pub open spec fn fetch(self) -> Result<u16, Error> {
        if self.pc + 2 > MEMORY_SIZE {
            Err(Error::FetchOutOfBounds { pc: self.pc })
        } else {
            Ok((self.memory[self.pc as int] * 0x100 + self.memory[self.pc + 1]) as u16)
        }
    }

    /// The instruction that the program counter points at.
    pub open spec fn fetch_decode(self) -> Result<Instruction, Error> {
        match self.fetch() {
            Err(e) => Err(e),
            Ok(word) => Instruction::decode_spec(crate::instruction::InstructionWord(word)),
        }
    }

    /// What one cycle makes of the state: the instruction at the program
    /// counter is fetched, decoded and carried out.
    pub open spec fn cycle(self, keys: Seq<bool>, random: u8) -> Result<VmState, Error> {
        match self.fetch_decode() {
            Err(e) => Err(e),
            Ok(instruction) => self.step(instruction, keys, random),
        }
    }

    /// The state after `elapsed` units of time have passed on both timers.
    pub open spec fn after_time(self, elapsed: nat) -> VmState {
        VmState {
            delay: crate::timer::time_left_after(self.delay, elapsed),
            sound: crate::timer::time_left_after(self.sound, elapsed),
            ..self
        }
    }
}

/// Whether an instruction may set the program counter to something else
/// than the address of the instruction after it.
pub open spec fn redirects(instruction: Instruction) -> bool {
    instruction is Ret || instruction is Jump || instruction is Call || instruction is SkipEqImm
        || instruction is SkipEqReg || instruction is JumpPlusV0 || instruction is SkipPressed
        || instruction is WaitKey
}

/// An instruction that was fetched and that does not redirect the program
/// counter leaves it exactly two bytes further.
pub proof fn lemma_cycle_advances_by_two(state: VmState, keys: Seq<bool>, random: u8)
    requires
        state.fetch_decode() matches Ok(instruction) && !redirects(instruction),
    ensures
        state.cycle(keys, random) matches Ok(after) ==> after.pc == state.pc + 2,
{
}

/// The lowest pressed key, where there is one, is a key.
pub proof fn lemma_first_pressed_is_a_key(keys: Seq<bool>, from: int)
    ensures
        first_pressed(keys, from) matches Some(key) ==> from <= key < keys.len() && keys[key as int],
    decreases keys.len() - from,
{
    if 0 <= from < keys.len() && from <= 0xFF && !keys[from] {
        lemma_first_pressed_is_a_key(keys, from + 1);
    }
}

/// Drawing keeps the display at its size.
proof fn lemma_draw_keeps_wf(state: VmState, vx: Reg, vy: Reg, n: Imm4)
    requires
        state.wf(),
    ensures
        state.after_draw(vx, vy, n).wf(),
{
    Reg::lemma_index_round_trip(vx, 0);
    Reg::lemma_index_round_trip(vy, 0);
    crate::display::lemma_drawn(
        state.display,
        state.reg(vx) as int,
        state.reg(vy) as int,
        state.sprite(n),
    );
}

/// Every instruction leaves each part of the state at the size that the
/// machine has for it.
pub proof fn lemma_step_keeps_wf(
    state: VmState,
    instruction: Instruction,
    keys: Seq<bool>,
    random: u8,
)
    requires
        state.wf(),
    ensures
        state.step(instruction, keys, random) matches Ok(after) ==> after.wf(),
{
    match instruction {
        Instruction::Draw { vx, vy, n } => {
            lemma_draw_keeps_wf(state, vx, vy, n);
        },
        _ => {},
    }
}

} // verus!
