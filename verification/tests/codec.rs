use chip8::error::Error;
use chip8::instruction::{Addr, Fun, Imm, Imm4, Instruction, InstructionWord, Reg};

#[test]
fn every_word_that_decodes_encodes_back() {
    let mut decoded = 0;
    for value in 0..=0xFFFFu16 {
        let word = InstructionWord(value);
        match Instruction::decode(word) {
            Ok(instruction) => {
                decoded += 1;
                assert!(instruction.is_well_formed());
                assert_eq!(instruction.encode(), word);
                assert_eq!(Instruction::decode(instruction.encode()), Ok(instruction));
            }
            Err(e) => assert_eq!(e, Error::UnrecognizedInstruction(word)),
        }
    }
    // 0nnn..2nnn, 3xkk, 4xkk, 6xkk, 7xkk, Annn..Dxyn whole; 5xy0, 9xy0 a
    // sixteenth; 8xy_ nine of sixteen; Ex__ two of 256; Fx__ nine of 256.
    assert_eq!(decoded, 11 * 4096 + 2 * 256 + 9 * 256 + 2 * 16 + 9 * 16);
}

#[test]
fn decode_reads_the_fields() {
    assert_eq!(Instruction::decode(InstructionWord(0x00E0)), Ok(Instruction::ClearScreen));
    assert_eq!(Instruction::decode(InstructionWord(0x00EE)), Ok(Instruction::Ret));
    assert_eq!(Instruction::decode(InstructionWord(0x00E1)), Ok(Instruction::Sys(Addr(0x0E1))));
    assert_eq!(Instruction::decode(InstructionWord(0x1ABC)), Ok(Instruction::Jump(Addr(0xABC))));
    assert_eq!(
        Instruction::decode(InstructionWord(0x4A7F)),
        Ok(Instruction::SkipEqImm { vx: Reg::Va, imm: Imm(0x7F), inv: true })
    );
    assert_eq!(
        Instruction::decode(InstructionWord(0x9AB0)),
        Ok(Instruction::SkipEqReg { vx: Reg::Va, vy: Reg::Vb, inv: true })
    );
    assert_eq!(
        Instruction::decode(InstructionWord(0x8ABE)),
        Ok(Instruction::Apply { vx: Reg::Va, vy: Reg::Vb, f: Fun::ShiftLeft })
    );
    assert_eq!(
        Instruction::decode(InstructionWord(0xD12F)),
        Ok(Instruction::Draw { vx: Reg::V1, vy: Reg::V2, n: Imm4(0xF) })
    );
    assert_eq!(Instruction::decode(InstructionWord(0xF90A)), Ok(Instruction::WaitKey(Reg::V9)));
}

#[test]
fn unrecognized_words_are_errors() {
    for value in [0x5AB1u16, 0x9AB1, 0x8AB8, 0x8ABF, 0xE19F, 0xE1A2, 0xF100, 0xF1FF, 0xF0E0] {
        assert_eq!(
            Instruction::decode(InstructionWord(value)),
            Err(Error::UnrecognizedInstruction(InstructionWord(value)))
        );
    }
}

#[test]
fn shadowed_sys_encodes_to_the_word_of_clear_screen() {
    let sys = Instruction::Sys(Addr(0x0E0));
    assert!(sys.is_well_formed());
    assert_eq!(sys.encode(), InstructionWord(0x00E0));
    assert_eq!(Instruction::decode(sys.encode()), Ok(Instruction::ClearScreen));
}

#[test]
fn well_formed_means_fields_fit() {
    assert!(!Instruction::Jump(Addr(0x1000)).is_well_formed());
    assert!(Instruction::Jump(Addr(0x0FFF)).is_well_formed());
    assert!(!Instruction::Draw { vx: Reg::V0, vy: Reg::V0, n: Imm4(16) }.is_well_formed());
    assert!(Instruction::Ret.is_well_formed());
}

#[test]
fn word_accessors() {
    let word = InstructionWord(0xD12F);
    assert_eq!(word.nnn(), 0x12F);
    assert_eq!(word.kk(), 0x2F);
    assert_eq!(word.n(), 0xF);
    assert_eq!(word.x_reg(), 1);
    assert_eq!(word.y_reg(), 2);
    assert_eq!(word.family(), 0xD);
}

#[test]
fn registers_are_numbered() {
    for index in 0..16u8 {
        assert_eq!(Reg::from_index(index).index(), index);
    }
    assert_eq!(Reg::Vf.index(), 15);
    assert_eq!(Reg::from_index(10), Reg::Va);
    assert_eq!(Fun::from_selector(0xE), Some(Fun::ShiftLeft));
    assert_eq!(Fun::from_selector(0x8), None);
    assert_eq!(Fun::SubtractInv.selector(), 7);
}

#[test]
fn error_descriptions() {
    assert_eq!(
        Error::UnrecognizedInstruction(InstructionWord(0xFFFF)).description(),
        "unrecognized instruction"
    );
    assert_eq!(Error::FetchOutOfBounds { pc: 4095 }.description(), "program counter out of bounds");
    let instruction = Instruction::Ret;
    assert_eq!(Error::StackOverflow { pc: 0, instruction }.description(), "stack overflow");
    assert_eq!(Error::StackUnderflow { pc: 0, instruction }.description(), "stack underflow");
    assert_eq!(
        Error::OutOfBoundsMemoryAccess { pc: 0, instruction }.description(),
        "out of bounds memory access"
    );
    assert_eq!(Error::KeyOutOfRange { pc: 0, instruction }.description(), "key out of range");
    assert_eq!(
        Error::UnsupportedInstruction { pc: 0, instruction }.description(),
        "unsupported instruction"
    );
}
