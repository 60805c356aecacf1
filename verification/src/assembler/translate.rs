//! From statements to opcode words: labels are given addresses, each
//! instruction statement is matched against the operand forms of its
//! mnemonic, and the instructions are written out big end first.

use vstd::prelude::*;
use crate::assembler::labels::{text_eq, LabelTable};
use crate::assembler::parse::{
    operand_views, statement_views, LiteralValue, Operand, OperandView, Statement, StatementView,
};
use crate::instruction::{Addr, Fun, Imm, Imm4, Instruction, Reg};
use crate::state::PROGRAM_START;

verus! {

/// Why a list of statements stands for no program.
#[derive(Clone, Copy, Debug, PartialEq, Eq, Structural)]
pub enum TranslateError {
    /// A label is defined a second time.
    DuplicateLabel,
    /// A label would name an address above `0xFFF`.
    AddressOutOfRange,
    /// An operand names a label that the program does not define.
    UndefinedLabel,
    /// The mnemonic is none of the instruction set.
    UnknownMnemonic,
    /// The mnemonic has no form with these operands.
    UnsupportedOperands,
    /// A number does not fit the operand field that it stands in.
    LiteralOutOfRange,
}

/// The highest address that an instruction can name.
pub const ADDRESS_MAX: u16 = 0x0FFF;

impl LiteralValue {
    /// The byte operand that the literal stands for, if it fits in a byte.
    pub open spec fn imm_spec(value: u16) -> Result<Imm, TranslateError> {
        if value <= 0xFF {
            Ok(Imm(value as u8))
        } else {
            Err(TranslateError::LiteralOutOfRange)
        }
    }

    /// The nibble operand that the literal stands for, if it fits in four
    /// bits.
    pub open spec fn imm4_spec(value: u16) -> Result<Imm4, TranslateError> {
        if value <= 0x0F {
            Ok(Imm4(value as u8))
        } else {
            Err(TranslateError::LiteralOutOfRange)
        }
    }

    /// The address operand that the literal stands for, if it fits in twelve
    /// bits.
    pub open spec fn addr_spec(value: u16) -> Result<Addr, TranslateError> {
        if value <= ADDRESS_MAX {
            Ok(Addr(value))
        } else {
            Err(TranslateError::LiteralOutOfRange)
        }
    }

    /// The literal as a byte operand.
    fn as_imm(&self) -> (r: Result<Imm, TranslateError>)
        ensures
            r == LiteralValue::imm_spec(self.value()),
    {
        if self.raw() <= 0xFF {
            Ok(Imm(self.as_u8()))
        } else {
            Err(TranslateError::LiteralOutOfRange)
        }
    }

    /// The literal as a nibble operand.
    fn as_imm4(&self) -> (r: Result<Imm4, TranslateError>)
        ensures
            r == LiteralValue::imm4_spec(self.value()),
    {
        if self.raw() <= 0x0F {
            Ok(Imm4(self.as_u4()))
        } else {
            Err(TranslateError::LiteralOutOfRange)
        }
    }

    /// The literal as an address operand.
    fn as_addr(&self) -> (r: Result<Addr, TranslateError>)
        ensures
            r == LiteralValue::addr_spec(self.value()),
    {
        if self.raw() <= ADDRESS_MAX {
            Ok(Addr(self.as_u16()))
        } else {
            Err(TranslateError::LiteralOutOfRange)
        }
    }
}

/// Every address of the table fits in the twelve bits that an opcode has for
/// it.
pub open spec fn addresses_fit(labels: Map<Seq<char>, Addr>) -> bool {
    forall|name: Seq<char>| labels.contains_key(name) ==> (#[trigger] labels[name]).wf()
}

/// The address that an operand names: a number that fits in twelve bits, or
/// a label of the table.
pub open spec fn address_of(operand: OperandView, labels: Map<Seq<char>, Addr>) -> Result<
    Addr,
    TranslateError,
> {
    match operand {
        OperandView::Literal(value) => LiteralValue::addr_spec(value),
        OperandView::Label(name) => if labels.contains_key(name) {
            Ok(labels[name])
        } else {
            Err(TranslateError::UndefinedLabel)
        },
        _ => Err(TranslateError::UnsupportedOperands),
    }
}

/// The instruction of a mnemonic that takes one address: `make` applied to
/// the address that the only operand names.
pub open spec fn with_address(
    operands: Seq<OperandView>,
    labels: Map<Seq<char>, Addr>,
    make: spec_fn(Addr) -> Instruction,
) -> Result<Instruction, TranslateError> {
    if operands.len() != 1 {
        Err(TranslateError::UnsupportedOperands)
    } else {
        match address_of(operands[0], labels) {
            Ok(addr) => Ok(make(addr)),
            Err(e) => Err(e),
        }
    }
}

/// `JP addr` jumps to an address; `JP V0, addr` jumps to it plus `V0`.
pub open spec fn jump_for(operands: Seq<OperandView>, labels: Map<Seq<char>, Addr>) -> Result<
    Instruction,
    TranslateError,
> {
    if operands.len() == 2 && operands[0] == OperandView::Register(Reg::V0) {
        match address_of(operands[1], labels) {
            Ok(addr) => Ok(Instruction::JumpPlusV0(addr)),
            Err(e) => Err(e),
        }
    } else {
        with_address(operands, labels, |addr: Addr| Instruction::Jump(addr))
    }
}

/// `SE` and `SNE` compare a register with a byte or with a register.
pub open spec fn skip_for(operands: Seq<OperandView>, inv: bool) -> Result<
    Instruction,
    TranslateError,
> {
    if operands.len() != 2 {
        Err(TranslateError::UnsupportedOperands)
    } else {
        match (operands[0], operands[1]) {
            (OperandView::Register(vx), OperandView::Literal(value)) => match LiteralValue::imm_spec(
                value,
            ) {
                Ok(imm) => Ok(Instruction::SkipEqImm { vx, imm, inv }),
                Err(e) => Err(e),
            },
            (OperandView::Register(vx), OperandView::Register(vy)) => Ok(
                Instruction::SkipEqReg { vx, vy, inv },
            ),
            _ => Err(TranslateError::UnsupportedOperands),
        }
    }
}

/// The twelve forms of `LD`.
pub open spec fn load_for(operands: Seq<OperandView>, labels: Map<Seq<char>, Addr>) -> Result<
    Instruction,
    TranslateError,
> {
    if operands.len() != 2 {
        Err(TranslateError::UnsupportedOperands)
    } else {
        match (operands[0], operands[1]) {
            (OperandView::Register(vx), OperandView::Literal(value)) => match LiteralValue::imm_spec(
                value,
            ) {
                Ok(imm) => Ok(Instruction::PutImm { vx, imm }),
                Err(e) => Err(e),
            },
            (OperandView::Register(vx), OperandView::Register(vy)) => Ok(
                Instruction::Apply { vx, vy, f: Fun::Id },
            ),
            (OperandView::IndexReg, OperandView::Literal(_))
            | (OperandView::IndexReg, OperandView::Label(_)) => match address_of(
                operands[1],
                labels,
            ) {
                Ok(addr) => Ok(Instruction::SetIndex(addr)),
                Err(e) => Err(e),
            },
            (OperandView::Register(vx), OperandView::DT) => Ok(Instruction::GetDelay(vx)),
            (OperandView::Register(vx), OperandView::K) => Ok(Instruction::WaitKey(vx)),
            (OperandView::DT, OperandView::Register(vx)) => Ok(Instruction::SetDelay(vx)),
            (OperandView::ST, OperandView::Register(vx)) => Ok(Instruction::SetSound(vx)),
            (OperandView::F, OperandView::Register(vx)) => Ok(Instruction::LoadGlyphAddress(vx)),
            (OperandView::B, OperandView::Register(vx)) => Ok(Instruction::StoreBCD(vx)),
            (OperandView::DerefIndexReg, OperandView::Register(vx)) => Ok(
                Instruction::StoreRegisterBlock(vx),
            ),
            (OperandView::Register(vx), OperandView::DerefIndexReg) => Ok(
                Instruction::LoadRegisterBlock(vx),
            ),
            _ => Err(TranslateError::UnsupportedOperands),
        }
    }
}

/// The three forms of `ADD`.
pub open spec fn add_for(operands: Seq<OperandView>) -> Result<Instruction, TranslateError> {
    if operands.len() != 2 {
        Err(TranslateError::UnsupportedOperands)
    } else {
        match (operands[0], operands[1]) {
            (OperandView::Register(vx), OperandView::Literal(value)) => match LiteralValue::imm_spec(
                value,
            ) {
                Ok(imm) => Ok(Instruction::AddImm { vx, imm }),
                Err(e) => Err(e),
            },
            (OperandView::IndexReg, OperandView::Register(vx)) => Ok(Instruction::AddToIndex(vx)),
            (OperandView::Register(vx), OperandView::Register(vy)) => Ok(
                Instruction::Apply { vx, vy, f: Fun::Add },
            ),
            _ => Err(TranslateError::UnsupportedOperands),
        }
    }
}

/// A mnemonic that applies `f` to two registers.
pub open spec fn apply_for(operands: Seq<OperandView>, f: Fun) -> Result<
    Instruction,
    TranslateError,
> {
    if operands.len() != 2 {
        Err(TranslateError::UnsupportedOperands)
    } else {
        match (operands[0], operands[1]) {
            (OperandView::Register(vx), OperandView::Register(vy)) => Ok(
                Instruction::Apply { vx, vy, f },
            ),
            _ => Err(TranslateError::UnsupportedOperands),
        }
    }
}

/// `SKP` and `SKNP` take one register.
pub open spec fn key_skip_for(operands: Seq<OperandView>, inv: bool) -> Result<
    Instruction,
    TranslateError,
> {
    if operands.len() != 1 {
        Err(TranslateError::UnsupportedOperands)
    } else {
        match operands[0] {
            OperandView::Register(vx) => Ok(Instruction::SkipPressed { vx, inv }),
            _ => Err(TranslateError::UnsupportedOperands),
        }
    }
}

/// `DRW` takes two registers and a number of rows.
pub open spec fn draw_for(operands: Seq<OperandView>) -> Result<Instruction, TranslateError> {
    if operands.len() != 3 {
        Err(TranslateError::UnsupportedOperands)
    } else {
        match (operands[0], operands[1], operands[2]) {
            (
                OperandView::Register(vx),
                OperandView::Register(vy),
                OperandView::Literal(value),
            ) => match LiteralValue::imm4_spec(value) {
                Ok(n) => Ok(Instruction::Draw { vx, vy, n }),
                Err(e) => Err(e),
            },
            _ => Err(TranslateError::UnsupportedOperands),
        }
    }
}

/// `RND` takes a register and a byte.
pub open spec fn random_for(operands: Seq<OperandView>) -> Result<Instruction, TranslateError> {
    if operands.len() != 2 {
        Err(TranslateError::UnsupportedOperands)
    } else {
        match (operands[0], operands[1]) {
            (OperandView::Register(vx), OperandView::Literal(value)) => match LiteralValue::imm_spec(
                value,
            ) {
                Ok(imm) => Ok(Instruction::Randomize { vx, imm }),
                Err(e) => Err(e),
            },
            _ => Err(TranslateError::UnsupportedOperands),
        }
    }
}

/// The instruction that a mnemonic with its operands stands for. `CLS` and
/// `RET` take no operand and look at none.
pub open spec fn instruction_for(
    mnemonic: Seq<char>,
    operands: Seq<OperandView>,
    labels: Map<Seq<char>, Addr>,
) -> Result<Instruction, TranslateError> {
    if mnemonic == "CLS"@ {
        Ok(Instruction::ClearScreen)
    } else if mnemonic == "RET"@ {
        Ok(Instruction::Ret)
    } else if mnemonic == "SYS"@ {
        with_address(operands, labels, |addr: Addr| Instruction::Sys(addr))
    } else if mnemonic == "JP"@ {
        jump_for(operands, labels)
    } else if mnemonic == "CALL"@ {
        with_address(operands, labels, |addr: Addr| Instruction::Call(addr))
    } else if mnemonic == "SE"@ {
        skip_for(operands, false)
    } else if mnemonic == "SNE"@ {
        skip_for(operands, true)
    } else if mnemonic == "LD"@ {
        load_for(operands, labels)
    } else if mnemonic == "ADD"@ {
        add_for(operands)
    } else if mnemonic == "OR"@ {
        apply_for(operands, Fun::Or)
    } else if mnemonic == "AND"@ {
        apply_for(operands, Fun::And)
    } else if mnemonic == "XOR"@ {
        apply_for(operands, Fun::Xor)
    } else if mnemonic == "SUB"@ {
        apply_for(operands, Fun::Subtract)
    } else if mnemonic == "SHR"@ {
        apply_for(operands, Fun::ShiftRight)
    } else if mnemonic == "SHL"@ {
        apply_for(operands, Fun::ShiftLeft)
    } else if mnemonic == "SUBN"@ {
        apply_for(operands, Fun::SubtractInv)
    } else if mnemonic == "SKP"@ {
        key_skip_for(operands, false)
    } else if mnemonic == "SKNP"@ {
        key_skip_for(operands, true)
    } else if mnemonic == "DRW"@ {
        draw_for(operands)
    } else if mnemonic == "RND"@ {
        random_for(operands)
    } else {
        Err(TranslateError::UnknownMnemonic)
    }
}

/// The register that an operand is, if it is one.
fn register_of(operand: &Operand) -> (r: Option<Reg>)
    ensures
        r == (match operand@ {
            OperandView::Register(reg) => Some(reg),
            _ => None,
        }),
{
    match operand {
        Operand::Register(reg) => Some(*reg),
        _ => None,
    }
}

/// The address that an operand names.
fn operand_address(operand: &Operand, labels: &LabelTable) -> (r: Result<Addr, TranslateError>)
    ensures
        r == address_of(operand@, labels@),
{
    match operand {
        Operand::Literal(literal) => literal.as_addr(),
        Operand::Label(name) => match labels.lookup(name.as_str()) {
            Some(addr) => Ok(addr),
            None => Err(TranslateError::UndefinedLabel),
        },
        _ => Err(TranslateError::UnsupportedOperands),
    }
}

/// The address that the only operand names.
fn only_address(operands: &Vec<Operand>, labels: &LabelTable) -> (r: Result<Addr, TranslateError>)
    ensures
        r == (if operands@.len() != 1 {
            Err(TranslateError::UnsupportedOperands)
        } else {
            address_of(operands@[0]@, labels@)
        }),
{
    if operands.len() != 1 {
        Err(TranslateError::UnsupportedOperands)
    } else {
        operand_address(&operands[0], labels)
    }
}

/// The forms of `JP`.
fn match_jump(operands: &Vec<Operand>, labels: &LabelTable) -> (r: Result<
    Instruction,
    TranslateError,
>)
    ensures
        r == jump_for(operand_views(operands@), labels@),
{
    if operands.len() == 2 {
        if let Some(Reg::V0) = register_of(&operands[0]) {
            return match operand_address(&operands[1], labels) {
                Ok(addr) => Ok(Instruction::JumpPlusV0(addr)),
                Err(e) => Err(e),
            };
        }
    }
    match only_address(operands, labels) {
        Ok(addr) => Ok(Instruction::Jump(addr)),
        Err(e) => Err(e),
    }
}

/// The forms of `SE` and `SNE`.
fn match_skip(operands: &Vec<Operand>, inv: bool) -> (r: Result<Instruction, TranslateError>)
    ensures
        r == skip_for(operand_views(operands@), inv),
{
    if operands.len() != 2 {
        return Err(TranslateError::UnsupportedOperands);
    }
    match (&operands[0], &operands[1]) {
        (Operand::Register(vx), Operand::Literal(literal)) => match literal.as_imm() {
            Ok(imm) => Ok(Instruction::SkipEqImm { vx: *vx, imm, inv }),
            Err(e) => Err(e),
        },
        (Operand::Register(vx), Operand::Register(vy)) => Ok(
            Instruction::SkipEqReg { vx: *vx, vy: *vy, inv },
        ),
        _ => Err(TranslateError::UnsupportedOperands),
    }
}

/// The forms of `LD`.
fn match_load(operands: &Vec<Operand>, labels: &LabelTable) -> (r: Result<
    Instruction,
    TranslateError,
>)
    ensures
        r == load_for(operand_views(operands@), labels@),
{
    if operands.len() != 2 {
        return Err(TranslateError::UnsupportedOperands);
    }
    match (&operands[0], &operands[1]) {
        (Operand::Register(vx), Operand::Literal(literal)) => match literal.as_imm() {
            Ok(imm) => Ok(Instruction::PutImm { vx: *vx, imm }),
            Err(e) => Err(e),
        },
        (Operand::Register(vx), Operand::Register(vy)) => Ok(
            Instruction::Apply { vx: *vx, vy: *vy, f: Fun::Id },
        ),
        (Operand::IndexReg, Operand::Literal(_)) | (Operand::IndexReg, Operand::Label(_)) => {
            match operand_address(&operands[1], labels) {
                Ok(addr) => Ok(Instruction::SetIndex(addr)),
                Err(e) => Err(e),
            }
        },
        (Operand::Register(vx), Operand::DT) => Ok(Instruction::GetDelay(*vx)),
        (Operand::Register(vx), Operand::K) => Ok(Instruction::WaitKey(*vx)),
        (Operand::DT, Operand::Register(vx)) => Ok(Instruction::SetDelay(*vx)),
        (Operand::ST, Operand::Register(vx)) => Ok(Instruction::SetSound(*vx)),
        (Operand::F, Operand::Register(vx)) => Ok(Instruction::LoadGlyphAddress(*vx)),
        (Operand::B, Operand::Register(vx)) => Ok(Instruction::StoreBCD(*vx)),
        (Operand::DerefIndexReg, Operand::Register(vx)) => Ok(Instruction::StoreRegisterBlock(*vx)),
        (Operand::Register(vx), Operand::DerefIndexReg) => Ok(Instruction::LoadRegisterBlock(*vx)),
        _ => Err(TranslateError::UnsupportedOperands),
    }
}

/// The forms of `ADD`.
fn match_add(operands: &Vec<Operand>) -> (r: Result<Instruction, TranslateError>)
    ensures
        r == add_for(operand_views(operands@)),
{
    if operands.len() != 2 {
        return Err(TranslateError::UnsupportedOperands);
    }
    match (&operands[0], &operands[1]) {
        (Operand::Register(vx), Operand::Literal(literal)) => match literal.as_imm() {
            Ok(imm) => Ok(Instruction::AddImm { vx: *vx, imm }),
            Err(e) => Err(e),
        },
        (Operand::IndexReg, Operand::Register(vx)) => Ok(Instruction::AddToIndex(*vx)),
        (Operand::Register(vx), Operand::Register(vy)) => Ok(
            Instruction::Apply { vx: *vx, vy: *vy, f: Fun::Add },
        ),
        _ => Err(TranslateError::UnsupportedOperands),
    }
}

/// The form of the mnemonics that apply a function to two registers.
fn match_apply(operands: &Vec<Operand>, f: Fun) -> (r: Result<Instruction, TranslateError>)
    ensures
        r == apply_for(operand_views(operands@), f),
{
    if operands.len() != 2 {
        return Err(TranslateError::UnsupportedOperands);
    }
    match (&operands[0], &operands[1]) {
        (Operand::Register(vx), Operand::Register(vy)) => Ok(
            Instruction::Apply { vx: *vx, vy: *vy, f },
        ),
        _ => Err(TranslateError::UnsupportedOperands),
    }
}

/// The form of `SKP` and `SKNP`.
fn match_key_skip(operands: &Vec<Operand>, inv: bool) -> (r: Result<Instruction, TranslateError>)
    ensures
        r == key_skip_for(operand_views(operands@), inv),
{
    if operands.len() != 1 {
        return Err(TranslateError::UnsupportedOperands);
    }
    match &operands[0] {
        Operand::Register(vx) => Ok(Instruction::SkipPressed { vx: *vx, inv }),
        _ => Err(TranslateError::UnsupportedOperands),
    }
}

/// The form of `DRW`.
fn match_draw(operands: &Vec<Operand>) -> (r: Result<Instruction, TranslateError>)
    ensures
        r == draw_for(operand_views(operands@)),
{
    if operands.len() != 3 {
        return Err(TranslateError::UnsupportedOperands);
    }
    match (&operands[0], &operands[1], &operands[2]) {
        (Operand::Register(vx), Operand::Register(vy), Operand::Literal(literal)) => {
            match literal.as_imm4() {
                Ok(n) => Ok(Instruction::Draw { vx: *vx, vy: *vy, n }),
                Err(e) => Err(e),
            }
        },
        _ => Err(TranslateError::UnsupportedOperands),
    }
}

/// The form of `RND`.
fn match_random(operands: &Vec<Operand>) -> (r: Result<Instruction, TranslateError>)
    ensures
        r == random_for(operand_views(operands@)),
{
    if operands.len() != 2 {
        return Err(TranslateError::UnsupportedOperands);
    }
    match (&operands[0], &operands[1]) {
        (Operand::Register(vx), Operand::Literal(literal)) => match literal.as_imm() {
            Ok(imm) => Ok(Instruction::Randomize { vx: *vx, imm }),
            Err(e) => Err(e),
        },
        _ => Err(TranslateError::UnsupportedOperands),
    }
}

/// Matches a mnemonic with its operands against the instruction set: the
/// instruction of the first form that fits, or the reason why none does.
pub fn match_instruction(mnemonic: &str, operands: &Vec<Operand>, labels: &LabelTable) -> (r:
    Result<Instruction, TranslateError>)
    ensures
        r == instruction_for(mnemonic@, operand_views(operands@), labels@),
        addresses_fit(labels@) ==> (r matches Ok(instruction) ==> instruction.wf()),
{
    let r = if text_eq(mnemonic, "CLS") {
        Ok(Instruction::ClearScreen)
    } else if text_eq(mnemonic, "RET") {
        Ok(Instruction::Ret)
    } else if text_eq(mnemonic, "SYS") {
        match only_address(operands, labels) {
            Ok(addr) => Ok(Instruction::Sys(addr)),
            Err(e) => Err(e),
        }
    } else if text_eq(mnemonic, "JP") {
        match_jump(operands, labels)
    } else if text_eq(mnemonic, "CALL") {
        match only_address(operands, labels) {
            Ok(addr) => Ok(Instruction::Call(addr)),
            Err(e) => Err(e),
        }
    } else if text_eq(mnemonic, "SE") {
        match_skip(operands, false)
    } else if text_eq(mnemonic, "SNE") {
        match_skip(operands, true)
    } else if text_eq(mnemonic, "LD") {
        match_load(operands, labels)
    } else if text_eq(mnemonic, "ADD") {
        match_add(operands)
    } else if text_eq(mnemonic, "OR") {
        match_apply(operands, Fun::Or)
    } else if text_eq(mnemonic, "AND") {
        match_apply(operands, Fun::And)
    } else if text_eq(mnemonic, "XOR") {
        match_apply(operands, Fun::Xor)
    } else if text_eq(mnemonic, "SUB") {
        match_apply(operands, Fun::Subtract)
    } else if text_eq(mnemonic, "SHR") {
        match_apply(operands, Fun::ShiftRight)
    } else if text_eq(mnemonic, "SHL") {
        match_apply(operands, Fun::ShiftLeft)
    } else if text_eq(mnemonic, "SUBN") {
        match_apply(operands, Fun::SubtractInv)
    } else if text_eq(mnemonic, "SKP") {
        match_key_skip(operands, false)
    } else if text_eq(mnemonic, "SKNP") {
        match_key_skip(operands, true)
    } else if text_eq(mnemonic, "DRW") {
        match_draw(operands)
    } else if text_eq(mnemonic, "RND") {
        match_random(operands)
    } else {
        Err(TranslateError::UnknownMnemonic)
    };
    proof {
        if addresses_fit(labels@) {
            lemma_instruction_for_wf(mnemonic@, operand_views(operands@), labels@);
        }
    }
    r
}

/// Every instruction that a statement stands for is well formed, provided
/// that the addresses of the labels are.
pub proof fn lemma_instruction_for_wf(
    mnemonic: Seq<char>,
    operands: Seq<OperandView>,
    labels: Map<Seq<char>, Addr>,
)
    requires
        addresses_fit(labels),
    ensures
        instruction_for(mnemonic, operands, labels) matches Ok(instruction) ==> instruction.wf(),
{
}

/// The labels of a program with their addresses, and the number of its
/// instructions. A label names the address of the instruction that follows
/// it: two bytes for each instruction before it, from `PROGRAM_START` on.
pub open spec fn layout_of(statements: Seq<StatementView>) -> Result<
    (Map<Seq<char>, Addr>, nat),
    TranslateError,
>
    decreases statements.len(),
{
    if statements.len() == 0 {
        Ok((Map::empty(), 0))
    } else {
        match layout_of(statements.drop_last()) {
            Err(e) => Err(e),
            Ok((labels, count)) => match statements.last() {
                StatementView::Instruction(_, _) => Ok((labels, count + 1)),
                StatementView::Label(name) => if PROGRAM_START + 2 * count > ADDRESS_MAX {
                    Err(TranslateError::AddressOutOfRange)
                } else if labels.contains_key(name) {
                    Err(TranslateError::DuplicateLabel)
                } else {
                    Ok((labels.insert(name, Addr((PROGRAM_START + 2 * count) as u16)), count))
                },
            },
        }
    }
}

/// The instructions that the instruction statements of a program stand for,
/// in their order, or the error of the first statement that stands for none.
pub open spec fn instructions_of(
    statements: Seq<StatementView>,
    labels: Map<Seq<char>, Addr>,
) -> Result<Seq<Instruction>, TranslateError>
    decreases statements.len(),
{
    if statements.len() == 0 {
        Ok(Seq::empty())
    } else {
        match instructions_of(statements.drop_last(), labels) {
            Err(e) => Err(e),
            Ok(instructions) => match statements.last() {
                StatementView::Label(_) => Ok(instructions),
                StatementView::Instruction(mnemonic, operands) => match instruction_for(
                    mnemonic,
                    operands,
                    labels,
                ) {
                    Ok(instruction) => Ok(instructions.push(instruction)),
                    Err(e) => Err(e),
                },
            },
        }
    }
}

/// The bytes of a list of instructions: the word of each, big end first.
pub open spec fn emitted(instructions: Seq<Instruction>) -> Seq<u8>
    decreases instructions.len(),
{
    if instructions.len() == 0 {
        Seq::empty()
    } else {
        let value = instructions.last().encode_value();
        emitted(instructions.drop_last()).push((value / 0x100) as u8).push((value % 0x100) as u8)
    }
}

/// The program that a list of statements stands for: the labels are laid
/// out first, then every instruction is matched, then the words are written.
pub open spec fn translate_spec(statements: Seq<StatementView>) -> Result<Seq<u8>, TranslateError> {
    match layout_of(statements) {
        Err(e) => Err(e),
        Ok((labels, _)) => match instructions_of(statements, labels) {
            Err(e) => Err(e),
            Ok(instructions) => Ok(emitted(instructions)),
        },
    }
}

/// The addresses that a layout gives to labels fit in twelve bits.
pub proof fn lemma_layout_addresses_fit(statements: Seq<StatementView>)
    ensures
        layout_of(statements) matches Ok((labels, count)) ==> addresses_fit(labels) && count
            <= statements.len(),
    decreases statements.len(),
{
    if statements.len() > 0 {
        lemma_layout_addresses_fit(statements.drop_last());
    }
}

/// The instructions of a program are well formed where the addresses of the
/// labels fit.
pub proof fn lemma_instructions_wf(statements: Seq<StatementView>, labels: Map<Seq<char>, Addr>)
    requires
        addresses_fit(labels),
    ensures
        instructions_of(statements, labels) matches Ok(instructions) ==> forall|i: int|
            0 <= i < instructions.len() ==> (#[trigger] instructions[i]).wf(),
    decreases statements.len(),
{
    if statements.len() > 0 {
        lemma_instructions_wf(statements.drop_last(), labels);
        if let StatementView::Instruction(mnemonic, operands) = statements.last() {
            lemma_instruction_for_wf(mnemonic, operands, labels);
        }
    }
}

/// Lays the labels of a program out.
fn collect_labels(statements: &Vec<Statement>) -> (r: Result<LabelTable, TranslateError>)
    ensures
        match layout_of(statement_views(statements@)) {
            Ok((labels, _)) => r matches Ok(table) && table@ == labels,
            Err(e) => r == Err::<LabelTable, TranslateError>(e),
        },
{
    let ghost views = statement_views(statements@);
    let mut table = LabelTable::new();
    let mut count: usize = 0;
    let mut i: usize = 0;
    assert(views.take(0) =~= Seq::empty());
    while i < statements.len()
        invariant
            views == statement_views(statements@),
            i <= statements@.len(),
            count <= i,
            layout_of(views.take(i as int)) == Ok::<(Map<Seq<char>, Addr>, nat), TranslateError>(
                (table@, count as nat),
            ),
        decreases statements@.len() - i,
    {
        proof {
            assert(views.take(i + 1).drop_last() =~= views.take(i as int));
            assert(views.take(i + 1).last() == statements@[i as int]@);
            assert(views.take(statements@.len() as int) =~= views);
            lemma_layout_error_stays(views, i + 1);
        }
        match &statements[i] {
            Statement::Instruction(_, _) => {
                count = count + 1;
            },
            Statement::Label(name) => {
                if count > ((ADDRESS_MAX - PROGRAM_START) / 2) as usize {
                    return Err(TranslateError::AddressOutOfRange);
                }
                if labels_has(&table, name) {
                    return Err(TranslateError::DuplicateLabel);
                }
                let addr = Addr(PROGRAM_START + 2 * (count as u16));
                table.insert(name.clone(), addr);
            },
        }
        i = i + 1;
    }
    assert(views.take(i as int) =~= views);
    Ok(table)
}

/// Whether the table has the name.
fn labels_has(table: &LabelTable, name: &String) -> (r: bool)
    ensures
        r == table@.contains_key(name@),
{
    table.lookup(name.as_str()).is_some()
}

/// Once the layout of a part of a program has failed, the layout of the
/// whole fails in the same way.
pub proof fn lemma_layout_error_stays(statements: Seq<StatementView>, upto: int)
    requires
        0 <= upto <= statements.len(),
    ensures
        layout_of(statements.take(upto)) matches Err(e) ==> layout_of(statements) == Err::<
            (Map<Seq<char>, Addr>, nat),
            TranslateError,
        >(e),
    decreases statements.len() - upto,
{
    if upto < statements.len() {
        assert(statements.take(upto + 1).drop_last() =~= statements.take(upto));
        lemma_layout_error_stays(statements, upto + 1);
    } else {
        assert(statements.take(upto) =~= statements);
    }
}

/// Once the matching of a part of a program has failed, the matching of the
/// whole fails in the same way.
pub proof fn lemma_instructions_error_stays(
    statements: Seq<StatementView>,
    labels: Map<Seq<char>, Addr>,
    upto: int,
)
    requires
        0 <= upto <= statements.len(),
    ensures
        instructions_of(statements.take(upto), labels) matches Err(e) ==> instructions_of(
            statements,
            labels,
        ) == Err::<Seq<Instruction>, TranslateError>(e),
    decreases statements.len() - upto,
{
    if upto < statements.len() {
        assert(statements.take(upto + 1).drop_last() =~= statements.take(upto));
        lemma_instructions_error_stays(statements, labels, upto + 1);
    } else {
        assert(statements.take(upto) =~= statements);
    }
}

/// Matches every instruction statement of a program.
fn match_all(statements: &Vec<Statement>, labels: &LabelTable) -> (r: Result<
    Vec<Instruction>,
    TranslateError,
>)
    ensures
        match instructions_of(statement_views(statements@), labels@) {
            Ok(instructions) => r matches Ok(v) && v@ == instructions,
            Err(e) => r == Err::<Vec<Instruction>, TranslateError>(e),
        },
{
    let ghost views = statement_views(statements@);
    let mut instructions: Vec<Instruction> = Vec::new();
    let mut i: usize = 0;
    assert(views.take(0) =~= Seq::empty());
    while i < statements.len()
        invariant
            views == statement_views(statements@),
            i <= statements@.len(),
            instructions_of(views.take(i as int), labels@) == Ok::<
                Seq<Instruction>,
                TranslateError,
            >(instructions@),
        decreases statements@.len() - i,
    {
        proof {
            assert(views.take(i + 1).drop_last() =~= views.take(i as int));
            assert(views.take(i + 1).last() == statements@[i as int]@);
            lemma_instructions_error_stays(views, labels@, i + 1);
        }
        match &statements[i] {
            Statement::Label(_) => {},
            Statement::Instruction(mnemonic, operands) => {
                match match_instruction(mnemonic.as_str(), operands, labels) {
                    Ok(instruction) => instructions.push(instruction),
                    Err(e) => {
                        return Err(e);
                    },
                }
            },
        }
        i = i + 1;
    }
    assert(views.take(i as int) =~= views);
    Ok(instructions)
}

/// Writes the words of the instructions out, big end first.
pub fn emit_instructions(instructions: Vec<Instruction>) -> (bytes: Vec<u8>)
    requires
        forall|i: int| 0 <= i < instructions@.len() ==> (#[trigger] instructions@[i]).wf(),
    ensures
        bytes@ == emitted(instructions@),
        bytes@.len() == 2 * instructions@.len(),
{
    let mut bytes: Vec<u8> = Vec::new();
    let mut i: usize = 0;
    assert(instructions@.take(0) =~= Seq::empty());
    while i < instructions.len()
        invariant
            i <= instructions@.len(),
            forall|k: int| 0 <= k < instructions@.len() ==> (#[trigger] instructions@[k]).wf(),
            bytes@ == emitted(instructions@.take(i as int)),
            bytes@.len() == 2 * i,
        decreases instructions@.len() - i,
    {
        proof {
            assert(instructions@.take(i + 1).drop_last() =~= instructions@.take(i as int));
            assert(instructions@.take(i + 1).last() == instructions@[i as int]);
            instructions@[i as int].lemma_encode_value_in_range();
        }
        let word: u16 = instructions[i].encode().0;
        bytes.push((word / 0x100) as u8);
        bytes.push((word % 0x100) as u8);
        i = i + 1;
    }
    assert(instructions@.take(i as int) =~= instructions@);
    bytes
}

/// Translates a list of statements into the bytes of a program, or says why
/// the statements stand for none.
pub fn try_translate(statements: &Vec<Statement>) -> (r: Result<Vec<u8>, TranslateError>)
    ensures
        match translate_spec(statement_views(statements@)) {
            Ok(bytes) => r matches Ok(v) && v@ == bytes,
            Err(e) => r == Err::<Vec<u8>, TranslateError>(e),
        },
{
    let labels = match collect_labels(statements) {
        Ok(labels) => labels,
        Err(e) => {
            return Err(e);
        },
    };
    let instructions = match match_all(statements, &labels) {
        Ok(instructions) => instructions,
        Err(e) => {
            return Err(e);
        },
    };
    proof {
        lemma_layout_addresses_fit(statement_views(statements@));
        lemma_instructions_wf(statement_views(statements@), labels@);
    }
    Ok(emit_instructions(instructions))
}

/// `Vec::into_boxed_slice` of std: the box holds the elements of the vector,
/// in their order.
#[verifier::external_body]
fn into_boxed_slice(bytes: Vec<u8>) -> (boxed: Box<[u8]>)
    ensures
        boxed@ == bytes@,
{
    bytes.into_boxed_slice()
}

/// Translates a list of statements that stands for a program into its bytes.
pub fn translate(statements: Vec<Statement>) -> (binary: Box<[u8]>)
    requires
        translate_spec(statement_views(statements@)) is Ok,
    ensures
        binary@ == translate_spec(statement_views(statements@))->Ok_0,
{
    match try_translate(&statements) {
        Ok(bytes) => into_boxed_slice(bytes),
        Err(_) => into_boxed_slice(Vec::new()),
    }
}

} // verus!
