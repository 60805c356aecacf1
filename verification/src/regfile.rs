//! The register file: sixteen 8-bit registers.

use vstd::prelude::*;
use crate::instruction::Reg;

verus! {

/// The sixteen general-purpose registers `V0` to `VF`.
#[derive(Debug)]
pub struct RegFile {
    gpr: [u8; 16],
}

impl View for RegFile {
    type V = Seq<u8>;

    /// The values of the registers, `V0` first. There are sixteen.
    closed spec fn view(&self) -> Seq<u8> {
        self.gpr@
    }
}

impl RegFile {
    /// A register file has sixteen registers.
    pub proof fn lemma_len(&self)
        ensures
            self@.len() == 16,
    {
    }

    /// The register file with every register at zero.
    pub fn new() -> (r: RegFile)
        ensures
            r@ == Seq::new(16, |i: int| 0u8),
    {
        let r = RegFile { gpr: [0;16] };
        assert(r@ =~= Seq::new(16, |i: int| 0u8));
        r
    }

    /// The value of the register with the given number.
    pub fn read_at_index(&self, index: usize) -> (value: u8)
        requires
            index < 16,
        ensures
            value == self@[index as int],
    {
        self.gpr[index]
    }

    /// Sets the register with the given number, and no other.
    pub fn write_at_index(&mut self, index: usize, value: u8)
        requires
            index < 16,
        ensures
            final(self)@ == old(self)@.update(index as int, value),
    {
        self.gpr[index] = value;
    }

    /// The value of a register.
    pub fn read(&self, reg: Reg) -> (value: u8)
        ensures
            value == self@[reg.spec_index() as int],
    {
        self.gpr[reg.index() as usize]
    }

    /// Sets a register, and no other.
    pub fn write(&mut self, reg: Reg, value: u8)
        ensures
            final(self)@ == old(self)@.update(reg.spec_index() as int, value),
            final(self)@.len() == 16,
    {
        let index: usize = reg.index() as usize;
        self.gpr[index] = value;
    }
}

} // verus!
