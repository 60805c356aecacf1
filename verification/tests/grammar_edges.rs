use chip8::assembler::parse::{
    instruction, label, operand, parse_source, program, stmt, Operand, Statement,
};
use chip8::instruction::Reg;

fn operand_of(input: &str) -> Option<(Operand, usize)> {
    operand(input.as_bytes(), 0)
}

#[test]
fn operand_needs_a_starting_byte() {
    assert_eq!(operand_of(""), None);
    assert_eq!(operand_of(","), None);
    assert_eq!(operand_of(" V1"), None);
}

#[test]
fn hexadecimal_literal_reads_decimal_digits_only() {
    assert_eq!(operand_of("#74"), Some((Operand::new_literal(0x74), 3)));
    assert_eq!(operand_of("#"), None);
    assert_eq!(operand_of("#FF"), None);
    assert_eq!(operand_of("#12AB"), Some((Operand::new_literal(0x12), 3)));
}

#[test]
fn literal_has_to_fit_sixteen_bits() {
    assert_eq!(operand_of("65535"), Some((Operand::new_literal(65535), 5)));
    assert_eq!(operand_of("65536"), None);
    assert_eq!(operand_of("99999999999999999999999"), None);
    assert_eq!(operand_of("0000000000000000000070"), Some((Operand::new_literal(70), 22)));
    assert_eq!(operand_of("#9999"), Some((Operand::new_literal(0x9999), 5)));
    assert_eq!(operand_of("#10000"), None);
}

#[test]
fn registers_take_one_hexadecimal_digit() {
    assert_eq!(operand_of("V0"), Some((Operand::Register(Reg::V0), 2)));
    assert_eq!(operand_of("Va"), Some((Operand::Register(Reg::Va), 2)));
    assert_eq!(operand_of("VF"), Some((Operand::Register(Reg::Vf), 2)));
    assert_eq!(operand_of("V12"), Some((Operand::Register(Reg::V1), 2)));
    assert_eq!(operand_of("Vx"), None);
    assert_eq!(operand_of("V"), None);
}

#[test]
fn designators_win_over_labels() {
    assert_eq!(operand_of("Init"), Some((Operand::IndexReg, 1)));
    assert_eq!(operand_of("Foo"), Some((Operand::F, 1)));
    assert_eq!(operand_of("Done"), None);
    assert_eq!(operand_of("Start"), None);
    assert_eq!(operand_of("[I"), None);
    assert_eq!(operand_of("[X]"), None);
    assert_eq!(operand_of("start"), Some((Operand::new_label("start".to_string()), 5)));
    assert_eq!(operand_of("_x1"), Some((Operand::new_label("_x".to_string()), 2)));
}

#[test]
fn start_past_the_end_finds_nothing() {
    let input = "CLS".as_bytes();
    assert_eq!(operand(input, 7), None);
    assert_eq!(instruction(input, 7), None);
    assert_eq!(label(input, 7), None);
    assert_eq!(stmt(input, 7), None);
    assert_eq!(program(input, 7), (vec![], 7));
}

#[test]
fn comma_asks_for_an_operand() {
    assert_eq!(instruction("SE V1,".as_bytes(), 0), None);
    assert_eq!(instruction("SE V1, ,".as_bytes(), 0), None);
    assert_eq!(
        instruction("SE V1 V2".as_bytes(), 0),
        Some((Statement::Instruction("SE".to_string(), vec![Operand::Register(Reg::V1)]), 6))
    );
}

#[test]
fn instruction_with_a_malformed_first_operand_fails() {
    assert_eq!(instruction("JP Start".as_bytes(), 0), None);
    assert_eq!(instruction("LD V0, #".as_bytes(), 0), None);
    assert_eq!(instruction("LD #".as_bytes(), 0), None);
}

#[test]
fn mnemonic_is_put_in_upper_case_and_label_is_not() {
    assert_eq!(
        parse_source("loop: jp loop"),
        vec![
            Statement::Label("loop".to_string()),
            Statement::Instruction("JP".to_string(), vec![Operand::new_label("loop".to_string())]),
        ]
    );
}

#[test]
fn program_stops_where_nothing_fits() {
    let input = "CLS\n???\nRET";
    let (statements, end) = program(input.as_bytes(), 0);
    assert_eq!(statements, vec![Statement::Instruction("CLS".to_string(), vec![])]);
    assert_eq!(&input[end..], "???\nRET");
    assert_eq!(parse_source(input), statements);
}

#[test]
fn trailing_blanks_without_line_feed_are_left() {
    let input = "CLS\n  ";
    let (statements, end) = program(input.as_bytes(), 0);
    assert_eq!(statements.len(), 1);
    assert_eq!(&input[end..], "  ");
}

#[test]
fn letters_are_ascii() {
    let input = "é: CLS";
    assert_eq!(label(input.as_bytes(), 0), None);
    assert_eq!(parse_source(input), vec![]);
}
