//! The grammar of the assembly source, over the bytes of the text.
//!
//! A program is a sequence of statements and blank lines. A statement is a
//! label definition, `name:`, or an instruction: a mnemonic of letters and,
//! after it, operands separated by commas. Spaces and tabs may stand before
//! a statement and around operands. Letters are the ASCII letters.

use vstd::prelude::*;
use crate::assembler::parse::{OperandView, StatementView};
use crate::instruction::Reg;

verus! {

/// An ASCII letter.
pub open spec fn is_letter(b: u8) -> bool {
    (0x41 <= b <= 0x5A) || (0x61 <= b <= 0x7A)
}

/// A decimal digit.
pub open spec fn is_digit(b: u8) -> bool {
    0x30 <= b <= 0x39
}

/// A hexadecimal digit, in either case.
pub open spec fn is_hex_digit(b: u8) -> bool {
    is_digit(b) || (0x41 <= b <= 0x46) || (0x61 <= b <= 0x66)
}

/// A space or a tab.
pub open spec fn is_blank(b: u8) -> bool {
    b == 0x20 || b == 0x09
}

/// A byte of a name: a letter or an underscore.
pub open spec fn is_name_byte(b: u8) -> bool {
    is_letter(b) || b == 0x5F
}

/// The kinds of bytes that the grammar has runs of.
#[derive(Clone, Copy)]
pub enum ByteKind {
    /// Spaces and tabs.
    Blank,
    /// Letters.
    Letter,
    /// Letters and underscores.
    Name,
    /// Decimal digits.
    Digit,
}

impl ByteKind {
    /// Whether a byte is of the kind.
    pub open spec fn accepts(self, b: u8) -> bool {
        match self {
            ByteKind::Blank => is_blank(b),
            ByteKind::Letter => is_letter(b),
            ByteKind::Name => is_name_byte(b),
            ByteKind::Digit => is_digit(b),
        }
    }
}

/// The value of a hexadecimal digit.
pub open spec fn hex_value(b: u8) -> u8 {
    if is_digit(b) {
        (b - 0x30) as u8
    } else if 0x41 <= b <= 0x46 {
        (b - 0x41 + 10) as u8
    } else {
        (b - 0x61 + 10) as u8
    }
}

/// A letter in upper case; any other byte as it is.
pub open spec fn upper(b: u8) -> u8 {
    if 0x61 <= b <= 0x7A {
        (b - 0x20) as u8
    } else {
        b
    }
}

/// The text that ASCII bytes spell.
pub open spec fn text_of(bytes: Seq<u8>) -> Seq<char> {
    Seq::new(bytes.len(), |i: int| bytes[i] as char)
}

/// The text that ASCII bytes spell, in upper case.
pub open spec fn upper_text_of(bytes: Seq<u8>) -> Seq<char> {
    Seq::new(bytes.len(), |i: int| upper(bytes[i]) as char)
}

/// Where the longest run of bytes of one kind that starts at `pos` ends.
pub open spec fn run_end(input: Seq<u8>, pos: int, kind: ByteKind) -> int
    decreases input.len() - pos,
{
    if 0 <= pos < input.len() && kind.accepts(input[pos]) {
        run_end(input, pos + 1, kind)
    } else {
        pos
    }
}

/// Where the spaces and tabs that start at `pos` end.
pub open spec fn blanks_end(input: Seq<u8>, pos: int) -> int {
    run_end(input, pos, ByteKind::Blank)
}

/// The number that decimal digits spell in the given radix.
pub open spec fn number_of(digits: Seq<u8>, radix: nat) -> nat
    decreases digits.len(),
{
    if digits.len() == 0 {
        0
    } else {
        number_of(digits.drop_last(), radix) * radix + (digits.last() - 0x30) as nat
    }
}

/// The number written from `pos` on: all the digits that follow, read in
/// the given radix, where there is at least one and the number fits in 16
/// bits.
pub open spec fn number_at(input: Seq<u8>, pos: int, radix: nat) -> Option<(OperandView, int)> {
    let end = run_end(input, pos, ByteKind::Digit);
    let value = number_of(input.subrange(pos, end), radix);
    if end > pos && value <= 0xFFFF {
        Some((OperandView::Literal(value as u16), end))
    } else {
        None
    }
}

/// Whether the bytes of `word` stand in the input from `pos` on.
pub open spec fn word_at(input: Seq<u8>, pos: int, word: Seq<u8>) -> bool {
    0 <= pos && pos + word.len() <= input.len() && input.subrange(pos, pos + word.len()) == word
}

/// Whether an operand can start with the byte: no alternative of the
/// grammar accepts an operand that starts with any other.
pub open spec fn starts_operand(b: u8) -> bool {
    b == 0x23 || is_digit(b) || b == 0x5B || is_name_byte(b)
}

/// The operand that stands at `pos`, with the place where it ends. The
/// alternatives are tried in this order, and the first whose first byte
/// fits decides: `#` and digits, a hexadecimal number; digits, a decimal
/// number; `I`; `[I]`; `F`; `B`; `K`; `DT`; `ST`; `V` and a hexadecimal
/// digit, a register; a name, a label. So a name that starts with one of
/// the capitals `I`, `F`, `B`, `K`, `D`, `S`, `V` is never read as a label.
pub open spec fn operand_at(input: Seq<u8>, pos: int) -> Option<(OperandView, int)> {
    if pos < 0 || pos >= input.len() {
        None
    } else {
        let b = input[pos];
        if b == 0x23 {
            number_at(input, pos + 1, 16)
        } else if is_digit(b) {
            number_at(input, pos, 10)
        } else if b == 0x49 {
            Some((OperandView::IndexReg, pos + 1))
        } else if b == 0x5B {
            if word_at(input, pos, seq![0x5Bu8, 0x49u8, 0x5Du8]) {
                Some((OperandView::DerefIndexReg, pos + 3))
            } else {
                None
            }
        } else if b == 0x46 {
            Some((OperandView::F, pos + 1))
        } else if b == 0x42 {
            Some((OperandView::B, pos + 1))
        } else if b == 0x4B {
            Some((OperandView::K, pos + 1))
        } else if b == 0x44 {
            if word_at(input, pos, seq![0x44u8, 0x54u8]) {
                Some((OperandView::DT, pos + 2))
            } else {
                None
            }
        } else if b == 0x53 {
            if word_at(input, pos, seq![0x53u8, 0x54u8]) {
                Some((OperandView::ST, pos + 2))
            } else {
                None
            }
        } else if b == 0x56 {
            if pos + 1 < input.len() && is_hex_digit(input[pos + 1]) {
                Some((OperandView::Register(Reg::spec_from_index(hex_value(input[pos + 1]))), pos + 2))
            } else {
                None
            }
        } else if is_name_byte(b) {
            let end = run_end(input, pos, ByteKind::Name);
            Some((OperandView::Label(text_of(input.subrange(pos, end))), end))
        } else {
            None
        }
    }
}

/// The operands that follow the first: each after a comma, with spaces and
/// tabs around it. After a comma an operand has to follow.
pub open spec fn more_operands(input: Seq<u8>, pos: int, found: Seq<OperandView>) -> Option<
    (Seq<OperandView>, int),
>
    decreases input.len() - pos,
{
    if 0 <= pos < input.len() && input[pos] == 0x2C {
        match operand_at(input, blanks_end(input, pos + 1)) {
            Some((operand, end)) => if pos < blanks_end(input, end) <= input.len() {
                more_operands(input, blanks_end(input, end), found.push(operand))
            } else {
                None
            },
            None => None,
        }
    } else {
        Some((found, pos))
    }
}

/// The instruction statement that stands at `pos`: a mnemonic of one letter
/// or more, put in upper case, then spaces and tabs, then the operands, if
/// any. The spaces and tabs after the last operand belong to the statement.
pub open spec fn instruction_at(input: Seq<u8>, pos: int) -> Option<(StatementView, int)> {
    let mnemonic_end = run_end(input, pos, ByteKind::Letter);
    let mnemonic = upper_text_of(input.subrange(pos, mnemonic_end));
    let first = blanks_end(input, mnemonic_end);
    if mnemonic_end <= pos {
        None
    } else if first < input.len() && starts_operand(input[first]) {
        match operand_at(input, first) {
            Some((operand, end)) => match more_operands(
                input,
                blanks_end(input, end),
                seq![operand],
            ) {
                Some((operands, end)) => Some((StatementView::Instruction(mnemonic, operands), end)),
                None => None,
            },
            None => None,
        }
    } else {
        Some((StatementView::Instruction(mnemonic, Seq::empty()), first))
    }
}

/// The label definition that stands at `pos`: a name and a colon.
pub open spec fn label_at(input: Seq<u8>, pos: int) -> Option<(StatementView, int)> {
    let end = run_end(input, pos, ByteKind::Name);
    if end > pos && end < input.len() && input[end] == 0x3A {
        Some((StatementView::Label(text_of(input.subrange(pos, end))), end + 1))
    } else {
        None
    }
}

/// The statement that stands at `pos`, after spaces and tabs: a label
/// definition, or else an instruction.
pub open spec fn stmt_at(input: Seq<u8>, pos: int) -> Option<(StatementView, int)> {
    let start = blanks_end(input, pos);
    match label_at(input, start) {
        Some(found) => Some(found),
        None => instruction_at(input, start),
    }
}

/// Where the blank line that starts at `pos` ends: after the line feed that
/// follows its spaces and tabs.
pub open spec fn blank_line_at(input: Seq<u8>, pos: int) -> Option<int> {
    let end = blanks_end(input, pos);
    if 0 <= end < input.len() && input[end] == 0x0A {
        Some(end + 1)
    } else {
        None
    }
}

/// The statements of the program that stands at `pos`, with the place where
/// it ends: that is where neither a statement nor a blank line follows.
pub open spec fn program_at(input: Seq<u8>, pos: int) -> (Seq<StatementView>, int)
    decreases input.len() - pos,
{
    match stmt_at(input, pos) {
        Some((statement, end)) => if pos < end <= input.len() {
            let (rest, stop) = program_at(input, end);
            (seq![statement] + rest, stop)
        } else {
            (Seq::empty(), pos)
        },
        None => match blank_line_at(input, pos) {
            Some(end) => if pos < end <= input.len() {
                program_at(input, end)
            } else {
                (Seq::empty(), pos)
            },
            None => (Seq::empty(), pos),
        },
    }
}

/// A run ends at or after its start, inside the input, on a byte of another
/// kind, and holds bytes of its kind only.
pub proof fn lemma_run_end(input: Seq<u8>, pos: int, kind: ByteKind)
    requires
        0 <= pos <= input.len(),
    ensures
        pos <= run_end(input, pos, kind) <= input.len(),
        run_end(input, pos, kind) < input.len() ==> !kind.accepts(input[run_end(input, pos, kind)]),
        forall|i: int| pos <= i < run_end(input, pos, kind) ==> kind.accepts(#[trigger] input[i]),
    decreases input.len() - pos,
{
    if pos < input.len() && kind.accepts(input[pos]) {
        lemma_run_end(input, pos + 1, kind);
    }
}

/// An operand that stands at `pos` starts with a byte that can start one,
/// and ends after `pos`, inside the input.
pub proof fn lemma_operand_at(input: Seq<u8>, pos: int)
    ensures
        operand_at(input, pos) matches Some((_, end)) ==> 0 <= pos < end <= input.len()
            && starts_operand(input[pos]),
{
    if 0 <= pos < input.len() {
        lemma_run_end(input, pos, ByteKind::Digit);
        lemma_run_end(input, pos + 1, ByteKind::Digit);
        lemma_run_end(input, pos, ByteKind::Name);
    }
}

} // verus!
