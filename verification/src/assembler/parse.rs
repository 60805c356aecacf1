//! The statements of an assembly source and the parser that reads them.

use vstd::prelude::*;
use vstd::string::StringSliceAdditionalSpecFns;
use crate::assembler::grammar::{
    hex_value, instruction_at, is_digit, is_hex_digit, label_at, lemma_operand_at, lemma_run_end,
    more_operands, number_at, number_of, operand_at, program_at, run_end, starts_operand, stmt_at,
    text_of, upper_text_of, word_at, ByteKind,
};
use crate::instruction::Reg;

verus! {

/// A number written in the source, before it is known which operand field
/// it has to fit.
#[derive(Debug, Copy, Clone, PartialEq)]
pub struct LiteralValue {
    raw: u16,
}

impl LiteralValue {
    /// The number that was written.
    pub closed spec fn value(self) -> u16 {
        self.raw
    }

    /// The literal with the given value.
    pub fn new(raw: u16) -> (r: LiteralValue)
        ensures
            r.value() == raw,
    {
        LiteralValue { raw }
    }

    /// The value of the literal.
    pub fn raw(&self) -> (r: u16)
        ensures
            r == self.value(),
    {
        self.raw
    }

    /// The value as a nibble. The value has to fit in four bits.
    pub fn as_u4(&self) -> (r: u8)
        requires
            self.value() <= 0x0F,
        ensures
            r == self.value(),
    {
        self.raw as u8
    }

    /// The value as a byte. The value has to fit in eight bits.
    pub fn as_u8(&self) -> (r: u8)
        requires
            self.value() <= 0xFF,
        ensures
            r == self.value(),
    {
        self.raw as u8
    }

    /// The value as a 16-bit word.
    pub fn as_u16(&self) -> (r: u16)
        ensures
            r == self.value(),
    {
        self.raw
    }
}

/// An operand of an instruction statement.
#[derive(Clone, Debug, PartialEq)]
pub enum Operand {
    /// A number.
    Literal(LiteralValue),
    /// The name of a label.
    Label(String),
    /// A general-purpose register, `V0` to `VF`.
    Register(Reg),
    /// `I`, the index register.
    IndexReg,
    /// `[I]`, the memory that the index register points at.
    DerefIndexReg,
    /// `F`, the font designator.
    F,
    /// `B`, the designator of the decimal digits.
    B,
    /// `K`, the keyboard designator.
    K,
    /// `DT`, the delay timer.
    DT,
    /// `ST`, the sound timer.
    ST,
}

/// What an operand is, with its text as a sequence of characters.
pub enum OperandView {
    Literal(u16),
    Label(Seq<char>),
    Register(Reg),
    IndexReg,
    DerefIndexReg,
    F,
    B,
    K,
    DT,
    ST,
}

impl View for Operand {
    type V = OperandView;

    open spec fn view(&self) -> OperandView {
        match *self {
            Operand::Literal(literal) => OperandView::Literal(literal.value()),
            Operand::Label(name) => OperandView::Label(name@),
            Operand::Register(reg) => OperandView::Register(reg),
            Operand::IndexReg => OperandView::IndexReg,
            Operand::DerefIndexReg => OperandView::DerefIndexReg,
            Operand::F => OperandView::F,
            Operand::B => OperandView::B,
            Operand::K => OperandView::K,
            Operand::DT => OperandView::DT,
            Operand::ST => OperandView::ST,
        }
    }
}

impl Operand {
    /// The operand that is the number `value`.
    pub fn new_literal(value: u16) -> (r: Operand)
        ensures
            r@ == OperandView::Literal(value),
    {
        Operand::Literal(LiteralValue::new(value))
    }

    /// The operand that is the label `name`.
    pub fn new_label(name: String) -> (r: Operand)
        ensures
            r@ == OperandView::Label(name@),
    {
        Operand::Label(name)
    }
}

/// A statement of the source: a label definition or an instruction.
#[derive(Clone, Debug, PartialEq)]
pub enum Statement {
    /// `name:` gives the address of the next instruction the name `name`.
    Label(String),
    /// A mnemonic, in upper case, with its operands.
    Instruction(String, Vec<Operand>),
}

/// What a statement is, with its texts as sequences of characters.
pub enum StatementView {
    Label(Seq<char>),
    Instruction(Seq<char>, Seq<OperandView>),
}

/// The views of the operands of a list.
pub open spec fn operand_views(operands: Seq<Operand>) -> Seq<OperandView> {
    Seq::new(operands.len(), |i: int| operands[i]@)
}

impl View for Statement {
    type V = StatementView;

    open spec fn view(&self) -> StatementView {
        match *self {
            Statement::Label(name) => StatementView::Label(name@),
            Statement::Instruction(mnemonic, operands) => StatementView::Instruction(
                mnemonic@,
                operand_views(operands@),
            ),
        }
    }
}

/// The views of the statements of a list.
pub open spec fn statement_views(statements: Seq<Statement>) -> Seq<StatementView> {
    Seq::new(statements.len(), |i: int| statements[i]@)
}

impl ByteKind {
    /// Whether a byte is of the kind.
    pub fn test(self, b: u8) -> (r: bool)
        ensures
            r == self.accepts(b),
    {
        let letter: bool = (0x41 <= b && b <= 0x5A) || (0x61 <= b && b <= 0x7A);
        match self {
            ByteKind::Blank => b == 0x20 || b == 0x09,
            ByteKind::Letter => letter,
            ByteKind::Name => letter || b == 0x5F,
            ByteKind::Digit => 0x30 <= b && b <= 0x39,
        }
    }
}

/// Where the longest run of bytes of one kind that starts at `start` ends.
fn scan(input: &[u8], start: usize, kind: ByteKind) -> (end: usize)
    requires
        start <= input@.len(),
    ensures
        end == run_end(input@, start as int, kind),
        start <= end <= input@.len(),
{
    let mut end: usize = start;
    while end < input.len() && kind.test(input[end])
        invariant
            start <= end <= input@.len(),
            run_end(input@, start as int, kind) == run_end(input@, end as int, kind),
        decreases input@.len() - end,
    {
        end = end + 1;
    }
    end
}

/// `String::push` of std: the character is appended to the text.
#[verifier::external_body]
fn push_char(text: &mut String, c: char)
    ensures
        final(text)@ == old(text)@.push(c),
{
    text.push(c)
}

/// The text that the bytes from `from` to `to` spell, in upper case where
/// `uppercase` is set.
fn text_between(input: &[u8], from: usize, to: usize, uppercase: bool) -> (text: String)
    requires
        from <= to <= input@.len(),
    ensures
        text@ == (if uppercase {
            upper_text_of(input@.subrange(from as int, to as int))
        } else {
            text_of(input@.subrange(from as int, to as int))
        }),
{
    let ghost bytes = input@.subrange(from as int, to as int);
    let ghost whole = if uppercase {
        upper_text_of(bytes)
    } else {
        text_of(bytes)
    };
    let mut text = String::new();
    let mut i: usize = from;
    while i < to
        invariant
            from <= i <= to <= input@.len(),
            bytes == input@.subrange(from as int, to as int),
            whole == (if uppercase {
                upper_text_of(bytes)
            } else {
                text_of(bytes)
            }),
            text@ == whole.take(i - from),
        decreases to - i,
    {
        let b: u8 = input[i];
        let shown: u8 = if uppercase && 0x61 <= b && b <= 0x7A {
            b - 0x20
        } else {
            b
        };
        push_char(&mut text, shown as char);
        proof {
            assert(bytes[i - from] == b);
            assert(whole.take(i + 1 - from) =~= whole.take(i - from).push(shown as char));
        }
        i = i + 1;
    }
    assert(whole.take(to - from) =~= whole);
    text
}

/// A number read so far, held at `0x10000` once it has passed 16 bits.
spec fn capped(value: nat) -> nat {
    if value > 0xFFFF {
        0x10000
    } else {
        value
    }
}

/// The number written from `start` on, in the given radix.
fn number(input: &[u8], start: usize, radix: u32) -> (r: Option<(Operand, usize)>)
    requires
        start <= input@.len(),
        radix == 10 || radix == 16,
    ensures
        match number_at(input@, start as int, radix as nat) {
            Some((operand, end)) => r matches Some((found, stop)) && found@ == operand && stop
                == end,
            None => r is None,
        },
{
    let end: usize = scan(input, start, ByteKind::Digit);
    proof {
        lemma_run_end(input@, start as int, ByteKind::Digit);
    }
    let mut value: u32 = 0;
    let mut i: usize = start;
    assert(input@.subrange(start as int, start as int) =~= Seq::<u8>::empty());
    while i < end
        invariant
            start <= i <= end <= input@.len(),
            radix == 10 || radix == 16,
            forall|k: int| start <= k < end ==> is_digit(#[trigger] input@[k]),
            value == capped(number_of(input@.subrange(start as int, i as int), radix as nat)),
        decreases end - i,
    {
        let digit: u32 = (input[i] - 0x30) as u32;
        proof {
            let longer = input@.subrange(start as int, i + 1);
            assert(longer.drop_last() =~= input@.subrange(start as int, i as int));
            assert(longer.last() == input@[i as int]);
            let before = number_of(input@.subrange(start as int, i as int), radix as nat);
            assert(before > 0xFFFF ==> before * radix + digit > 0xFFFF) by (nonlinear_arith)
                requires
                    radix >= 1,
            ;
        }
        value = value * radix + digit;
        if value > 0xFFFF {
            value = 0x10000;
        }
        i = i + 1;
    }
    if end > start && value <= 0xFFFF {
        Some((Operand::new_literal(value as u16), end))
    } else {
        None
    }
}

/// The operand that stands at `start`, with the place where it ends.
pub fn operand(input: &[u8], start: usize) -> (r: Option<(Operand, usize)>)
    ensures
        match operand_at(input@, start as int) {
            Some((view, end)) => r matches Some((found, stop)) && found@ == view && stop == end
                && start < end <= input@.len(),
            None => r is None,
        },
{
    if start >= input.len() {
        return None;
    }
    proof {
        lemma_operand_at(input@, start as int);
    }
    let b: u8 = input[start];
    if b == 0x23 {
        number(input, start + 1, 16)
    } else if 0x30 <= b && b <= 0x39 {
        number(input, start, 10)
    } else if b == 0x49 {
        Some((Operand::IndexReg, start + 1))
    } else if b == 0x5B {
        if input.len() - start > 2 && input[start + 1] == 0x49 && input[start + 2] == 0x5D {
            assert(input@.subrange(start as int, start + 3) =~= seq![0x5Bu8, 0x49u8, 0x5Du8]);
            Some((Operand::DerefIndexReg, start + 3))
        } else {
            proof {
                let word = seq![0x5Bu8, 0x49u8, 0x5Du8];
                if word_at(input@, start as int, word) {
                    assert(input@.subrange(start as int, start + 3)[1] == word[1]);
                    assert(input@.subrange(start as int, start + 3)[2] == word[2]);
                }
            }
            None
        }
    } else if b == 0x46 {
        Some((Operand::F, start + 1))
    } else if b == 0x42 {
        Some((Operand::B, start + 1))
    } else if b == 0x4B {
        Some((Operand::K, start + 1))
    } else if b == 0x44 || b == 0x53 {
        if start + 1 < input.len() && input[start + 1] == 0x54 {
            assert(input@.subrange(start as int, start + 2) =~= seq![b, 0x54u8]);
            Some((if b == 0x44 { Operand::DT } else { Operand::ST }, start + 2))
        } else {
            proof {
                let word = seq![b, 0x54u8];
                if word_at(input@, start as int, word) {
                    assert(input@.subrange(start as int, start + 2)[1] == word[1]);
                }
            }
            None
        }
    } else if b == 0x56 {
        if start + 1 < input.len() {
            match hex_digit(input[start + 1]) {
                Some(index) => Some((Operand::Register(Reg::from_index(index)), start + 2)),
                None => None,
            }
        } else {
            None
        }
    } else if ByteKind::Name.test(b) {
        let end: usize = scan(input, start, ByteKind::Name);
        Some((Operand::new_label(text_between(input, start, end, false)), end))
    } else {
        None
    }
}

/// The value of a hexadecimal digit, if the byte is one.
fn hex_digit(b: u8) -> (r: Option<u8>)
    ensures
        r is Some == is_hex_digit(b),
        r matches Some(value) ==> value == hex_value(b) && value < 16,
{
    if 0x30 <= b && b <= 0x39 {
        Some(b - 0x30)
    } else if 0x41 <= b && b <= 0x46 {
        Some(b - 0x41 + 10)
    } else if 0x61 <= b && b <= 0x66 {
        Some(b - 0x61 + 10)
    } else {
        None
    }
}

/// The operands that follow the first.
fn operands_after(input: &[u8], start: usize, first: Operand) -> (r: Option<
    (Vec<Operand>, usize),
>)
    requires
        start <= input@.len(),
    ensures
        match more_operands(input@, start as int, seq![first@]) {
            Some((views, end)) => r matches Some((found, stop)) && operand_views(found@) == views
                && stop == end && start <= end <= input@.len(),
            None => r is None,
        },
{
    let mut found: Vec<Operand> = Vec::new();
    found.push(first);
    let mut pos: usize = start;
    assert(operand_views(found@) =~= seq![first@]);
    loop
        invariant
            start <= pos <= input@.len(),
            more_operands(input@, start as int, seq![first@]) == more_operands(
                input@,
                pos as int,
                operand_views(found@),
            ),
        decreases input@.len() - pos,
    {
        if pos >= input.len() || input[pos] != 0x2C {
            return Some((found, pos));
        }
        let next: usize = scan(input, pos + 1, ByteKind::Blank);
        match operand(input, next) {
            Some((one, end)) => {
                let ghost before = operand_views(found@);
                found.push(one);
                assert(operand_views(found@) =~= before.push(one@));
                pos = scan(input, end, ByteKind::Blank);
            },
            None => {
                return None;
            },
        }
    }
}

/// The instruction statement that stands at `start`, with the place where
/// it ends.
pub fn instruction(input: &[u8], start: usize) -> (r: Option<(Statement, usize)>)
    ensures
        match instruction_at(input@, start as int) {
            Some((view, end)) => r matches Some((found, stop)) && found@ == view && stop == end
                && start < end <= input@.len(),
            None => r is None,
        },
{
    if start >= input.len() {
        return None;
    }
    let mnemonic_end: usize = scan(input, start, ByteKind::Letter);
    if mnemonic_end <= start {
        return None;
    }
    let mnemonic = text_between(input, start, mnemonic_end, true);
    let first: usize = scan(input, mnemonic_end, ByteKind::Blank);
    if first < input.len() && can_start_operand(input[first]) {
        match operand(input, first) {
            Some((one, end)) => {
                let after: usize = scan(input, end, ByteKind::Blank);
                match operands_after(input, after, one) {
                    Some((operands, stop)) => Some((Statement::Instruction(mnemonic, operands), stop)),
                    None => None,
                }
            },
            None => None,
        }
    } else {
        let operands: Vec<Operand> = Vec::new();
        assert(operand_views(operands@) =~= Seq::empty());
        Some((Statement::Instruction(mnemonic, operands), first))
    }
}

/// Whether an operand can start with the byte.
fn can_start_operand(b: u8) -> (r: bool)
    ensures
        r == starts_operand(b),
{
    b == 0x23 || ByteKind::Digit.test(b) || b == 0x5B || ByteKind::Name.test(b)
}

/// The label definition that stands at `start`, with the place where it
/// ends.
pub fn label(input: &[u8], start: usize) -> (r: Option<(Statement, usize)>)
    ensures
        match label_at(input@, start as int) {
            Some((view, end)) => r matches Some((found, stop)) && found@ == view && stop == end
                && start < end <= input@.len(),
            None => r is None,
        },
{
    if start >= input.len() {
        return None;
    }
    let end: usize = scan(input, start, ByteKind::Name);
    if end > start && end < input.len() && input[end] == 0x3A {
        Some((Statement::Label(text_between(input, start, end, false)), end + 1))
    } else {
        None
    }
}

/// The statement that stands at `start`, after spaces and tabs, with the
/// place where it ends.
pub fn stmt(input: &[u8], start: usize) -> (r: Option<(Statement, usize)>)
    ensures
        match stmt_at(input@, start as int) {
            Some((view, end)) => r matches Some((found, stop)) && found@ == view && stop == end
                && start < end <= input@.len(),
            None => r is None,
        },
{
    if start >= input.len() {
        return None;
    }
    let begin: usize = scan(input, start, ByteKind::Blank);
    match label(input, begin) {
        Some(found) => Some(found),
        None => instruction(input, begin),
    }
}

/// The statements of the program that stands at `start`, with the place
/// where it ends.
pub fn program(input: &[u8], start: usize) -> (r: (Vec<Statement>, usize))
    ensures
        statement_views(r.0@) == program_at(input@, start as int).0,
        r.1 == program_at(input@, start as int).1,
{
    let mut statements: Vec<Statement> = Vec::new();
    if start > input.len() {
        assert(statement_views(statements@) =~= Seq::empty());
        return (statements, start);
    }
    let mut pos: usize = start;
    assert(statement_views(statements@) =~= Seq::empty());
    loop
        invariant
            pos <= input@.len(),
            program_at(input@, start as int).0 == statement_views(statements@) + program_at(
                input@,
                pos as int,
            ).0,
            program_at(input@, start as int).1 == program_at(input@, pos as int).1,
        decreases input@.len() - pos,
    {
        match stmt(input, pos) {
            Some((statement, end)) => {
                let ghost before = statement_views(statements@);
                let ghost rest = program_at(input@, end as int).0;
                statements.push(statement);
                assert(statement_views(statements@) =~= before.push(statement@));
                assert(before + (seq![statement@] + rest) =~= before.push(statement@) + rest);
                pos = end;
            },
            None => {
                if pos >= input.len() {
                    assert(statement_views(statements@) + Seq::empty() =~= statement_views(
                        statements@,
                    ));
                    return (statements, pos);
                }
                let end: usize = scan(input, pos, ByteKind::Blank);
                if end < input.len() && input[end] == 0x0A {
                    pos = end + 1;
                } else {
                    assert(statement_views(statements@) + Seq::empty() =~= statement_views(
                        statements@,
                    ));
                    return (statements, pos);
                }
            },
        }
    }
}

/// The statements of a source text: those of the program that stands at its
/// start. What follows the place where the program ends is not read.
pub fn parse_source(source: &str) -> (statements: Vec<Statement>)
    ensures
        statement_views(statements@) == program_at(source.spec_bytes(), 0).0,
{
    program(source.as_bytes(), 0).0
}

} // verus!
