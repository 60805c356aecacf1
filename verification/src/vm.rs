//! The machine: memory, registers, stack, timers and display, and the
//! fetch-decode-execute cycle over them.

use vstd::prelude::*;
use byteorder::{BigEndian, ByteOrder};
use crate::display::Display;
use crate::env::{random_byte, Env};
use crate::error::Error;
use crate::instruction::{Addr, Fun, Imm4, Instruction, InstructionWord, Reg};
use crate::regfile::RegFile;
use crate::stack::Stack;
use crate::state::{
    advance, apply_flag, apply_result, first_pressed, VmState, FONT_BASE, GLYPH_SIZE, KEY_COUNT,
    MEMORY_SIZE, PROGRAM_START,
};
use crate::timer::Timer;

verus! {

/// The number of bytes of the font: sixteen sprites of five bytes.
pub const FONT_SIZE: usize = 80;

/// The font sprites of the sixteen hexadecimal digits, five bytes each.
pub const FONT_SPRITES: [u8; 80] = [
    0xF0, 0x90, 0x90, 0x90, 0xF0,
    0x20, 0x60, 0x20, 0x20, 0x70,
    0xF0, 0x10, 0xF0, 0x80, 0xF0,
    0xF0, 0x10, 0xF0, 0x10, 0xF0,
    0x90, 0x90, 0xF0, 0x10, 0x10,
    0xF0, 0x80, 0xF0, 0x10, 0xF0,
    0xF0, 0x80, 0xF0, 0x90, 0xF0,
    0xF0, 0x10, 0x20, 0x40, 0x40,
    0xF0, 0x90, 0xF0, 0x90, 0xF0,
    0xF0, 0x90, 0xF0, 0x10, 0xF0,
    0xF0, 0x90, 0xF0, 0x90, 0x90,
    0xE0, 0x90, 0xE0, 0x90, 0xE0,
    0xF0, 0x80, 0x80, 0x80, 0xF0,
    0xE0, 0x90, 0x90, 0x90, 0xE0,
    0xF0, 0x80, 0xF0, 0x80, 0xF0,
    0xF0, 0x80, 0xF0, 0x80, 0x80,
];

/// The memory of a machine that has just been made: the font at its base,
/// the program from `PROGRAM_START` on, zero elsewhere.
pub open spec fn initial_memory(rom: Seq<u8>) -> Seq<u8> {
    Seq::new(
        MEMORY_SIZE as nat,
        |a: int|
            if a < FONT_SIZE {
                FONT_SPRITES@[a]
            } else if PROGRAM_START <= a < PROGRAM_START + rom.len() {
                rom[a - PROGRAM_START]
            } else {
                0u8
            },
    )
}

/// The state of a machine that has just been made with the given program.
pub open spec fn initial_state(rom: Seq<u8>) -> VmState {
    VmState {
        memory: initial_memory(rom),
        registers: Seq::new(16, |i: int| 0u8),
        stack: Seq::empty(),
        pc: PROGRAM_START,
        index: 0,
        delay: 0,
        sound: 0,
        display: crate::display::cleared(),
        index_advances: false,
    }
}

/// An outcome `r` with the state `after` is what `expected` asks for: on
/// success the new state, on an error that error and the state `before`.
pub open spec fn carried_out(
    before: VmState,
    expected: Result<VmState, Error>,
    r: Result<(), Error>,
    after: VmState,
) -> bool {
    match expected {
        Ok(state) => r is Ok && after == state,
        Err(e) => r == Err::<(), Error>(e) && after == before,
    }
}

/// `BigEndian::read_u16` of the `byteorder` crate, on the memory from `at`
/// on: the 16-bit value of the two bytes there, the first the high one.
#[verifier::external_body]
fn read_u16_be(memory: &[u8], at: usize) -> (word: u16)
    requires
        at + 2 <= memory@.len(),
    ensures
        word == memory@[at as int] * 0x100 + memory@[at + 1],
{
    BigEndian::read_u16(&memory[at..])
}

/// The CHIP-8 virtual machine.
#[derive(Debug)]
pub struct Vm {
    memory: [u8; 4096],
    gpr: RegFile,
    stack: Stack,
    pc: u16,
    i: u16,
    dt: Timer,
    st: Timer,
    display: Display,
    index_advances: bool,
}

impl View for Vm {
    type V = VmState;

    closed spec fn view(&self) -> VmState {
        VmState {
            memory: self.memory@,
            registers: self.gpr@,
            stack: self.stack@,
            pc: self.pc,
            index: self.i,
            delay: self.dt@,
            sound: self.st@,
            display: self.display@,
            index_advances: self.index_advances,
        }
    }
}

impl Vm {
    /// A machine with the font in memory and no program.
    pub fn new() -> (vm: Vm)
        ensures
            vm@ == initial_state(Seq::empty()),
            vm@.wf(),
    {
        let mut vm = Vm {
            memory: [0;4096],
            gpr: RegFile::new(),
            stack: Stack::new(),
            pc: PROGRAM_START,
            i: 0,
            dt: Timer::new(),
            st: Timer::new(),
            display: Display::new(),
            index_advances: false,
        };
        let mut a: usize = 0;
        while a < FONT_SIZE
            invariant
                a <= FONT_SIZE,
                forall|k: int| 0 <= k < a ==> vm.memory@[k] == FONT_SPRITES@[k],
                forall|k: int| a <= k < MEMORY_SIZE ==> vm.memory@[k] == 0,
                vm.gpr@ == Seq::new(16, |i: int| 0u8),
                vm.stack@ == Seq::<u16>::empty(),
                vm.pc == PROGRAM_START,
                vm.i == 0,
                vm.dt@ == 0,
                vm.st@ == 0,
                vm.display@ == crate::display::cleared(),
                !vm.index_advances,
            decreases FONT_SIZE - a,
        {
            vm.memory[a] = FONT_SPRITES[a];
            a = a + 1;
        }
        assert(vm.memory@ =~= initial_memory(Seq::empty()));
        vm.sizes();
        vm
    }

    /// A machine with the font in memory and the program `rom_data` from
    /// `PROGRAM_START` on. The program has to fit in the memory above that
    /// address.
    pub fn with_rom(rom_data: &[u8]) -> (vm: Vm)
        requires
            rom_data@.len() <= MEMORY_SIZE - PROGRAM_START,
        ensures
            vm@ == initial_state(rom_data@),
            vm@.wf(),
    {
        let mut vm = Vm::new();
        let start: usize = PROGRAM_START as usize;
        let mut k: usize = 0;
        while k < rom_data.len()
            invariant
                start == PROGRAM_START,
                k <= rom_data@.len() <= MEMORY_SIZE - PROGRAM_START,
                vm@ == (VmState { memory: vm.memory@, ..initial_state(Seq::empty()) }),
                forall|a: int|
                    0 <= a < MEMORY_SIZE ==> vm.memory@[a] == (if start <= a < start + k {
                        rom_data@[a - start]
                    } else {
                        initial_memory(Seq::empty())[a]
                    }),
            decreases rom_data@.len() - k,
        {
            vm.memory[start + k] = rom_data[k];
            k = k + 1;
        }
        assert(vm.memory@ =~= initial_memory(rom_data@));
        vm.sizes();
        vm
    }

    /// The sizes of the parts of the state are those of the machine. The
    /// parts keep them by themselves; asking each brings them to light.
    fn sizes(&self)
        ensures
            self@.wf(),
    {
        proof {
            self.gpr.lemma_len();
            self.display.lemma_len();
        }
        let _ = self.stack.depth();
        let _ = self.dt.get();
        let _ = self.st.get();
    }

    /// The program counter.
    pub fn pc(&self) -> (pc: u16)
        ensures
            pc == self@.pc,
    {
        self.pc
    }

    /// The index register `I`.
    pub fn index(&self) -> (index: u16)
        ensures
            index == self@.index,
    {
        self.i
    }

    /// The memory.
    pub fn memory(&self) -> (memory: &[u8; 4096])
        ensures
            memory@ == self@.memory,
    {
        &self.memory
    }

    /// The display.
    pub fn display(&self) -> (display: &Display)
        ensures
            display@ == self@.display,
    {
        &self.display
    }

    /// The value of a register.
    pub fn read_gpr(&self, reg: Reg) -> (value: u8)
        ensures
            value == self@.reg(reg),
    {
        self.gpr.read(reg)
    }

    /// Sets a register.
    pub fn write_gpr(&mut self, reg: Reg, value: u8)
        ensures
            final(self)@ == old(self)@.with_reg(reg, value),
    {
        self.gpr.write(reg, value);
    }

    /// The number of return addresses on the stack.
    pub fn stack_depth(&self) -> (depth: usize)
        ensures
            depth == self@.stack.len(),
    {
        self.stack.depth()
    }

    /// The ticks left on the delay timer.
    pub fn delay(&self) -> (ticks: u8)
        ensures
            ticks == self@.delay / (crate::timer::UNITS_PER_TICK as nat),
    {
        self.dt.get()
    }

    /// Chooses whether storing and loading a block of registers moves `I`
    /// past the block, as later variants of the machine do, or leaves it.
    pub fn set_index_advances(&mut self, advances: bool)
        ensures
            final(self)@ == (VmState { index_advances: advances, ..old(self)@ }),
    {
        self.index_advances = advances;
    }

    /// Lets `elapsed` units of time, of 1/60000 of a second, pass on both
    /// timers.
    pub fn update_timers(&mut self, elapsed: u32)
        ensures
            final(self)@ == old(self)@.after_time(elapsed as nat),
            final(self)@.wf(),
    {
        self.dt.step(elapsed);
        self.st.step(elapsed);
        self.sizes();
    }

    /// Whether the sound timer has a tick left, so that the tone sounds.
    pub fn is_beeping(&self) -> (beeping: bool)
        ensures
            beeping == (self@.sound >= crate::timer::UNITS_PER_TICK),
    {
        self.st.get() != 0
    }
}

/// What an arithmetic function makes of the values of `Vx` and `Vy`: the new
/// value of `Vx`, and the flag for `VF` where the function has one.
fn apply(f: Fun, x: u8, y: u8) -> (r: (u8, Option<u8>))
    ensures
        r.0 == apply_result(f, x, y),
        r.1 == apply_flag(f, x, y),
{
    match f {
        Fun::Id => (y, None),
        Fun::Or => (x | y, None),
        Fun::And => (x & y, None),
        Fun::Xor => (x ^ y, None),
        Fun::Add => {
            let sum: u16 = x as u16 + y as u16;
            ((sum % 0x100) as u8, Some(if sum > 0xFF { 1 } else { 0 }))
        },
        Fun::Subtract => subtract(x, y),
        Fun::ShiftRight => {
            assert(y >> 1 == y / 2) by (bit_vector);
            assert(y & 1 == y % 2) by (bit_vector);
            (y >> 1, Some(y & 1))
        },
        Fun::SubtractInv => subtract(y, x),
        Fun::ShiftLeft => {
            assert(y >> 7 == y / 0x80) by (bit_vector);
            (((y as u16 * 2) % 0x100) as u8, Some(y >> 7))
        },
    }
}

/// `a - b` as a byte wraps, with the flag 0 where the subtraction borrowed
/// and 1 where it did not.
fn subtract(a: u8, b: u8) -> (r: (u8, Option<u8>))
    ensures
        r.0 == ((a - b) % 0x100) as u8,
        r.1 == Some(if a < b { 0u8 } else { 1u8 }),
{
    if a < b {
        ((0x100 + a as u16 - b as u16) as u8, Some(0))
    } else {
        (a - b, Some(1))
    }
}

/// The number of the lowest key that is pressed.
fn lowest_pressed(keyboard: &[bool; 16]) -> (r: Option<u8>)
    ensures
        r == first_pressed(keyboard@, 0),
{
    let mut k: u8 = 0;
    while k < 16
        invariant
            k <= 16,
            first_pressed(keyboard@, 0) == first_pressed(keyboard@, k as int),
        decreases 16 - k,
    {
        if keyboard[k as usize] {
            return Some(k);
        }
        k = k + 1;
    }
    None
}

impl Vm {
    /// Moves the program counter forward.
    fn advance_pc(&mut self, by: u16)
        ensures
            final(self)@ == (VmState { pc: advance(old(self)@.pc, by as int), ..old(self)@ }),
    {
        self.pc = ((self.pc as u32 + by as u32) % 0x10000) as u16;
    }

    /// Moves the program counter to the next instruction, or past it.
    fn next_or_skip(&mut self, skip: bool)
        ensures
            final(self)@ == old(self)@.next_or_skip(skip),
    {
        self.advance_pc(if skip { 4 } else { 2 });
    }

    /// `Ret`: back to the newest return address.
    fn exec_ret(
        &mut self,
        instruction: Instruction,
        Ghost(keys): Ghost<Seq<bool>>,
        Ghost(random): Ghost<u8>,
    ) -> (r: Result<(), Error>)
        requires
            instruction is Ret,
        ensures
            carried_out(old(self)@, old(self)@.step(instruction, keys, random), r, final(self)@),
    {
        if self.stack.is_empty() {
            return Err(Error::StackUnderflow { pc: self.pc, instruction });
        }
        self.pc = self.stack.pop();
        Ok(())
    }

    /// `Call`: the address of the next instruction goes on the stack.
    fn exec_call(
        &mut self,
        instruction: Instruction,
        addr: Addr,
        Ghost(keys): Ghost<Seq<bool>>,
        Ghost(random): Ghost<u8>,
    ) -> (r: Result<(), Error>)
        requires
            instruction == Instruction::Call(addr),
        ensures
            carried_out(old(self)@, old(self)@.step(instruction, keys, random), r, final(self)@),
    {
        if self.stack.is_full() {
            return Err(Error::StackOverflow { pc: self.pc, instruction });
        }
        let return_to: u16 = ((self.pc as u32 + 2) % 0x10000) as u16;
        self.stack.push(return_to);
        self.pc = addr.0;
        Ok(())
    }

    /// `Apply`: the result into `Vx`, then the flag into `VF`.
    fn exec_apply(&mut self, vx: Reg, vy: Reg, f: Fun)
        ensures
            final(self)@ == old(self)@.after_apply(vx, vy, f),
    {
        let x: u8 = self.gpr.read(vx);
        let y: u8 = self.gpr.read(vy);
        let (result, flag) = apply(f, x, y);
        self.gpr.write(vx, result);
        match flag {
            Some(flag) => self.gpr.write(Reg::Vf, flag),
            None => {},
        }
        self.advance_pc(2);
    }

    /// `Draw`: the sprite at `I` onto the display, the collision into `VF`.
    fn exec_draw(
        &mut self,
        instruction: Instruction,
        vx: Reg,
        vy: Reg,
        n: Imm4,
        Ghost(keys): Ghost<Seq<bool>>,
        Ghost(random): Ghost<u8>,
    ) -> (r: Result<(), Error>)
        requires
            instruction == (Instruction::Draw { vx, vy, n }),
        ensures
            carried_out(old(self)@, old(self)@.step(instruction, keys, random), r, final(self)@),
    {
        let from: usize = self.i as usize;
        let to: usize = from + n.0 as usize;
        if to > MEMORY_SIZE {
            return Err(Error::OutOfBoundsMemoryAccess { pc: self.pc, instruction });
        }
        let x: usize = self.gpr.read(vx) as usize;
        let y: usize = self.gpr.read(vy) as usize;
        let collided = self.display.draw(x, y, &self.memory[from..to]);
        self.gpr.write(Reg::Vf, if collided { 1 } else { 0 });
        self.advance_pc(2);
        Ok(())
    }

    /// `SkipPressed`: a skip by the state of the key whose number is in `Vx`.
    fn exec_skip_pressed(
        &mut self,
        instruction: Instruction,
        vx: Reg,
        inv: bool,
        keyboard: &[bool; 16],
        Ghost(random): Ghost<u8>,
    ) -> (r: Result<(), Error>)
        requires
            instruction == (Instruction::SkipPressed { vx, inv }),
        ensures
            carried_out(old(self)@, old(self)@.step(instruction, keyboard@, random), r, final(self)@),
    {
        let key: usize = self.gpr.read(vx) as usize;
        if key >= KEY_COUNT {
            return Err(Error::KeyOutOfRange { pc: self.pc, instruction });
        }
        let pressed: bool = keyboard[key];
        self.next_or_skip(pressed != inv);
        Ok(())
    }

    /// `WaitKey`: the lowest pressed key into `Vx`, or no change at all.
    fn exec_wait_key(&mut self, vx: Reg, keyboard: &[bool; 16])
        ensures
            final(self)@ == old(self)@.after_wait_key(vx, keyboard@),
    {
        match lowest_pressed(keyboard) {
            Some(key) => {
                self.gpr.write(vx, key);
                self.advance_pc(2);
            },
            None => {},
        }
    }

    /// `StoreBCD`: the three decimal digits of `Vx` to memory at `I`.
    fn exec_store_bcd(
        &mut self,
        instruction: Instruction,
        vx: Reg,
        Ghost(keys): Ghost<Seq<bool>>,
        Ghost(random): Ghost<u8>,
    ) -> (r: Result<(), Error>)
        requires
            instruction == Instruction::StoreBCD(vx),
        ensures
            carried_out(old(self)@, old(self)@.step(instruction, keys, random), r, final(self)@),
    {
        let i: usize = self.i as usize;
        if i + 3 > MEMORY_SIZE {
            return Err(Error::OutOfBoundsMemoryAccess { pc: self.pc, instruction });
        }
        let v: u8 = self.gpr.read(vx);
        self.memory[i] = v / 100;
        self.memory[i + 1] = (v / 10) % 10;
        self.memory[i + 2] = v % 10;
        self.advance_pc(2);
        Ok(())
    }

    /// Moves the index register past a block of `count` registers, where the
    /// machine is set to do so.
    fn advance_index(&mut self, count: u16)
        requires
            old(self)@.index + count <= MEMORY_SIZE,
        ensures
            final(self)@ == (VmState {
                index: old(self)@.index_after_block(count as int),
                ..old(self)@
            }),
    {
        if self.index_advances {
            self.i = self.i + count;
        }
    }

    /// `StoreRegisterBlock`: `V0..=Vx` to memory at `I`.
    fn exec_store_block(
        &mut self,
        instruction: Instruction,
        vx: Reg,
        Ghost(keys): Ghost<Seq<bool>>,
        Ghost(random): Ghost<u8>,
    ) -> (r: Result<(), Error>)
        requires
            instruction == Instruction::StoreRegisterBlock(vx),
        ensures
            carried_out(old(self)@, old(self)@.step(instruction, keys, random), r, final(self)@),
    {
        let i: usize = self.i as usize;
        let count: usize = vx.index() as usize + 1;
        if i + count > MEMORY_SIZE {
            return Err(Error::OutOfBoundsMemoryAccess { pc: self.pc, instruction });
        }
        proof {
            self.gpr.lemma_len();
        }
        let mut offset: usize = 0;
        while offset < count
            invariant
                offset <= count <= 16,
                i + count <= MEMORY_SIZE,
                i == old(self)@.index,
                self@ == (VmState { memory: self@.memory, ..old(self)@ }),
                self@.memory.len() == MEMORY_SIZE,
                forall|a: int|
                    0 <= a < MEMORY_SIZE ==> self@.memory[a] == (if i <= a < i + offset {
                        old(self)@.registers[a - i]
                    } else {
                        old(self)@.memory[a]
                    }),
            decreases count - offset,
        {
            self.memory[i + offset] = self.gpr.read_at_index(offset);
            offset = offset + 1;
        }
        assert(self@.memory =~= old(self)@.after_store_block(vx).memory);
        self.advance_index(count as u16);
        self.advance_pc(2);
        Ok(())
    }

    /// `LoadRegisterBlock`: `V0..=Vx` from memory at `I`.
    fn exec_load_block(
        &mut self,
        instruction: Instruction,
        vx: Reg,
        Ghost(keys): Ghost<Seq<bool>>,
        Ghost(random): Ghost<u8>,
    ) -> (r: Result<(), Error>)
        requires
            instruction == Instruction::LoadRegisterBlock(vx),
        ensures
            carried_out(old(self)@, old(self)@.step(instruction, keys, random), r, final(self)@),
    {
        let i: usize = self.i as usize;
        let count: usize = vx.index() as usize + 1;
        if i + count > MEMORY_SIZE {
            return Err(Error::OutOfBoundsMemoryAccess { pc: self.pc, instruction });
        }
        proof {
            self.gpr.lemma_len();
        }
        let mut offset: usize = 0;
        while offset < count
            invariant
                offset <= count <= 16,
                i + count <= MEMORY_SIZE,
                i == old(self)@.index,
                self@ == (VmState { registers: self@.registers, ..old(self)@ }),
                self@.registers.len() == 16,
                forall|r: int|
                    0 <= r < 16 ==> self@.registers[r] == (if r < offset {
                        old(self)@.memory[i + r]
                    } else {
                        old(self)@.registers[r]
                    }),
            decreases count - offset,
        {
            self.gpr.write_at_index(offset, self.memory[i + offset]);
            proof {
                self.gpr.lemma_len();
            }
            offset = offset + 1;
        }
        assert(self@.registers =~= old(self)@.after_load_block(vx).registers);
        self.advance_index(count as u16);
        self.advance_pc(2);
        Ok(())
    }

    /// The instructions that only move the program counter or stop.
    fn exec_flow(
        &mut self,
        instruction: Instruction,
        Ghost(keys): Ghost<Seq<bool>>,
        Ghost(random): Ghost<u8>,
    ) -> (r: Result<(), Error>)
        requires
            instruction is ClearScreen || instruction is Sys || instruction is Jump
                || instruction is JumpPlusV0,
        ensures
            carried_out(old(self)@, old(self)@.step(instruction, keys, random), r, final(self)@),
    {
        match instruction {
            Instruction::ClearScreen => {
                self.display.clear();
                self.advance_pc(2);
                Ok(())
            },
            Instruction::Jump(addr) => {
                self.pc = addr.0;
                Ok(())
            },
            Instruction::JumpPlusV0(addr) => {
                let offset: u32 = self.gpr.read(Reg::V0) as u32;
                self.pc = ((addr.0 as u32 + offset) % 0x10000) as u16;
                Ok(())
            },
            _ => Err(Error::UnsupportedInstruction { pc: self.pc, instruction }),
        }
    }

    /// The instructions that compare registers and skip.
    fn exec_skip(
        &mut self,
        instruction: Instruction,
        Ghost(keys): Ghost<Seq<bool>>,
        Ghost(random): Ghost<u8>,
    ) -> (r: Result<(), Error>)
        requires
            instruction is SkipEqImm || instruction is SkipEqReg,
        ensures
            carried_out(old(self)@, old(self)@.step(instruction, keys, random), r, final(self)@),
    {
        match instruction {
            Instruction::SkipEqImm { vx, imm, inv } => {
                let equal: bool = self.gpr.read(vx) == imm.0;
                self.next_or_skip(equal != inv);
            },
            Instruction::SkipEqReg { vx, vy, inv } => {
                let equal: bool = self.gpr.read(vx) == self.gpr.read(vy);
                self.next_or_skip(equal != inv);
            },
            _ => {},
        }
        Ok(())
    }

    /// The instructions that set one register.
    fn exec_set_register(
        &mut self,
        instruction: Instruction,
        random_byte: u8,
        Ghost(keys): Ghost<Seq<bool>>,
    ) -> (r: Result<(), Error>)
        requires
            instruction is PutImm || instruction is AddImm || instruction is Randomize
                || instruction is GetDelay,
        ensures
            carried_out(
                old(self)@,
                old(self)@.step(instruction, keys, random_byte),
                r,
                final(self)@,
            ),
    {
        match instruction {
            Instruction::PutImm { vx, imm } => {
                self.gpr.write(vx, imm.0);
            },
            Instruction::AddImm { vx, imm } => {
                let sum: u16 = self.gpr.read(vx) as u16 + imm.0 as u16;
                self.gpr.write(vx, (sum % 0x100) as u8);
            },
            Instruction::Randomize { vx, imm } => {
                self.gpr.write(vx, random_byte & imm.0);
            },
            Instruction::GetDelay(vx) => {
                let ticks: u8 = self.dt.get();
                self.gpr.write(vx, ticks);
            },
            _ => {},
        }
        self.advance_pc(2);
        Ok(())
    }

    /// The instructions that set a timer or the index register.
    fn exec_set_special(
        &mut self,
        instruction: Instruction,
        Ghost(keys): Ghost<Seq<bool>>,
        Ghost(random): Ghost<u8>,
    ) -> (r: Result<(), Error>)
        requires
            instruction is SetDelay || instruction is SetSound || instruction is SetIndex
                || instruction is AddToIndex || instruction is LoadGlyphAddress,
        ensures
            carried_out(old(self)@, old(self)@.step(instruction, keys, random), r, final(self)@),
    {
        match instruction {
            Instruction::SetDelay(vx) => {
                let ticks: u8 = self.gpr.read(vx);
                self.dt.set(ticks);
            },
            Instruction::SetSound(vx) => {
                let ticks: u8 = self.gpr.read(vx);
                self.st.set(ticks);
            },
            Instruction::SetIndex(addr) => {
                self.i = addr.0;
            },
            Instruction::AddToIndex(vx) => {
                let sum: u32 = self.i as u32 + self.gpr.read(vx) as u32;
                self.i = (sum % 0x10000) as u16;
            },
            Instruction::LoadGlyphAddress(vx) => {
                self.i = FONT_BASE + self.gpr.read(vx) as u16 * GLYPH_SIZE;
            },
            _ => {},
        }
        self.advance_pc(2);
        Ok(())
    }

    /// `Apply` and `WaitKey`, which never fail.
    fn exec_apply_or_wait(
        &mut self,
        instruction: Instruction,
        keyboard: &[bool; 16],
        Ghost(random): Ghost<u8>,
    ) -> (r: Result<(), Error>)
        requires
            instruction is Apply || instruction is WaitKey,
        ensures
            carried_out(
                old(self)@,
                old(self)@.step(instruction, keyboard@, random),
                r,
                final(self)@,
            ),
    {
        match instruction {
            Instruction::Apply { vx, vy, f } => self.exec_apply(vx, vy, f),
            Instruction::WaitKey(vx) => self.exec_wait_key(vx, keyboard),
            _ => {},
        }
        Ok(())
    }

    /// Carries one instruction out. The state becomes what `step` makes of
    /// it; on an error it stays as it was.
    pub fn execute_instruction(
        &mut self,
        instruction: Instruction,
        keyboard: &[bool; 16],
        random_byte: u8,
    ) -> (r: Result<(), Error>)
        ensures
            carried_out(
                old(self)@,
                old(self)@.step(instruction, keyboard@, random_byte),
                r,
                final(self)@,
            ),
            final(self)@.wf(),
    {
        let r = self.dispatch(instruction, keyboard, random_byte);
        self.sizes();
        r
    }

    /// Hands an instruction to the function that carries its kind out.
    fn dispatch(&mut self, instruction: Instruction, keyboard: &[bool; 16], random_byte: u8) -> (r:
        Result<(), Error>)
        ensures
            carried_out(
                old(self)@,
                old(self)@.step(instruction, keyboard@, random_byte),
                r,
                final(self)@,
            ),
    {
        let keys = Ghost(keyboard@);
        let random = Ghost(random_byte);
        match instruction {
            Instruction::ClearScreen
            | Instruction::Sys(_)
            | Instruction::Jump(_)
            | Instruction::JumpPlusV0(_) => self.exec_flow(instruction, keys, random),
            Instruction::Ret => self.exec_ret(instruction, keys, random),
            Instruction::Call(addr) => self.exec_call(instruction, addr, keys, random),
            Instruction::SkipEqImm { .. } | Instruction::SkipEqReg { .. } => self.exec_skip(
                instruction,
                keys,
                random,
            ),
            Instruction::PutImm { .. }
            | Instruction::AddImm { .. }
            | Instruction::Randomize { .. }
            | Instruction::GetDelay(_) => self.exec_set_register(instruction, random_byte, keys),
            Instruction::SetDelay(_)
            | Instruction::SetSound(_)
            | Instruction::SetIndex(_)
            | Instruction::AddToIndex(_)
            | Instruction::LoadGlyphAddress(_) => self.exec_set_special(instruction, keys, random),
            Instruction::Apply { .. } | Instruction::WaitKey(_) => self.exec_apply_or_wait(
                instruction,
                keyboard,
                random,
            ),
            Instruction::Draw { vx, vy, n } => self.exec_draw(instruction, vx, vy, n, keys, random),
            Instruction::SkipPressed { vx, inv } => self.exec_skip_pressed(
                instruction,
                vx,
                inv,
                keyboard,
                random,
            ),
            Instruction::StoreBCD(vx) => self.exec_store_bcd(instruction, vx, keys, random),
            Instruction::StoreRegisterBlock(vx) => self.exec_store_block(
                instruction,
                vx,
                keys,
                random,
            ),
            Instruction::LoadRegisterBlock(vx) => self.exec_load_block(
                instruction,
                vx,
                keys,
                random,
            ),
        }
    }
}

impl Vm {
    /// Fetches the word that the program counter points at.
    pub fn fetch(&self) -> (r: Result<InstructionWord, Error>)
        ensures
            match self@.fetch() {
                Ok(word) => r == Ok::<InstructionWord, Error>(InstructionWord(word)),
                Err(e) => r == Err::<InstructionWord, Error>(e),
            },
    {
        let pc: usize = self.pc as usize;
        if pc + 2 > MEMORY_SIZE {
            return Err(Error::FetchOutOfBounds { pc: self.pc });
        }
        Ok(InstructionWord(read_u16_be(self.memory.as_slice(), pc)))
    }

    /// Fetches and decodes the instruction that the program counter points
    /// at.
    pub fn fetch_decode(&self) -> (r: Result<Instruction, Error>)
        ensures
            r == self@.fetch_decode(),
    {
        match self.fetch() {
            Ok(word) => Instruction::decode(word),
            Err(e) => Err(e),
        }
    }

    /// Runs one cycle with the given keys and the given random byte: the
    /// instruction at the program counter is fetched, decoded and carried
    /// out. On an error the state stays as it was.
    pub fn cycle_with(&mut self, keyboard: &[bool; 16], random_byte: u8) -> (r: Result<(), Error>)
        ensures
            carried_out(
                old(self)@,
                old(self)@.cycle(keyboard@, random_byte),
                r,
                final(self)@,
            ),
            final(self)@.wf(),
    {
        self.sizes();
        match self.fetch_decode() {
            Ok(instruction) => self.execute_instruction(instruction, keyboard, random_byte),
            Err(e) => Err(e),
        }
    }

    /// Runs one cycle in the given surroundings. A random byte is drawn from
    /// the generator only where the instruction is `Randomize`; the outcome
    /// is that of `cycle_with` for the byte that was drawn, and for every
    /// other instruction it is the same for all bytes.
    pub fn cycle(&mut self, env: &mut Env) -> (r: Result<(), Error>)
        ensures
            final(env).keyboard == old(env).keyboard,
            final(self)@.wf(),
            exists|random: u8|
                carried_out(
                    old(self)@,
                    #[trigger] old(self)@.cycle(old(env).keyboard@, random),
                    r,
                    final(self)@,
                ),
            !(old(self)@.fetch_decode() matches Ok(Instruction::Randomize { .. })) ==> forall|
                random: u8,
            |
                carried_out(
                    old(self)@,
                    #[trigger] old(self)@.cycle(old(env).keyboard@, random),
                    r,
                    final(self)@,
                ),
    {
        self.sizes();
        let instruction = match self.fetch_decode() {
            Ok(instruction) => instruction,
            Err(e) => {
                assert(self@.cycle(env.keyboard@, 0) == Err::<VmState, Error>(e));
                return Err(e);
            },
        };
        let random_byte: u8 = match instruction {
            Instruction::Randomize { .. } => random_byte(&mut env.rng),
            _ => 0,
        };
        let r = self.execute_instruction(instruction, &env.keyboard, random_byte);
        proof {
            let before = old(self)@;
            let keys = env.keyboard@;
            assert(before.cycle(keys, random_byte) == before.step(instruction, keys, random_byte));
            if !(instruction is Randomize) {
                assert forall|random: u8|
                    carried_out(before, #[trigger] before.cycle(keys, random), r, self@) by {
                    lemma_random_byte_matters_to_randomize_only(
                        before,
                        instruction,
                        keys,
                        random_byte,
                        random,
                    );
                }
            }
        }
        r
    }
}

/// Only `Randomize` looks at the random byte: every other instruction makes
/// the same of a state whatever the byte.
pub proof fn lemma_random_byte_matters_to_randomize_only(
    state: VmState,
    instruction: Instruction,
    keys: Seq<bool>,
    one: u8,
    other: u8,
)
    requires
        !(instruction is Randomize),
    ensures
        state.step(instruction, keys, one) == state.step(instruction, keys, other),
{
}

} // verus!
