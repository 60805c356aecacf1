use byteorder::{BigEndian, ByteOrder};
use chip8::assembler::labels::{text_eq, LabelTable};
use chip8::assembler::parse::{LiteralValue, Operand, Statement};
use chip8::assembler::translate::{
    emit_instructions, match_instruction, translate, try_translate, TranslateError,
};
use chip8::assembler::{compile, try_compile};
use chip8::instruction::{Addr, Fun, Imm, Imm4, Instruction, Reg};

#[test]
fn test_compile_label_forwad() {
    let statements: Vec<Statement> = vec![
        Statement::Instruction("CALL".to_string(), vec![Operand::Label("foo".to_string())]),
        Statement::Label("foo".to_string()),
        Statement::Instruction("RET".to_string(), vec![]),
    ];
    let binary = translate(statements);

    assert_eq!(binary, vec![0x22, 0x02, 0x00, 0xEE].into_boxed_slice());
}

fn check_instruction(source: &str, expected: u16) {
    let mut buf = [0u8; 2];
    BigEndian::write_u16(&mut buf, expected);

    let compiled: Vec<u8> = compile(source).into_vec();
    let expected: Vec<u8> = buf.to_vec();
    assert_eq!(compiled, expected);
    assert_eq!(try_compile(source), Ok(expected));
}

#[test]
fn cls() {
    check_instruction("CLS", 0x00E0);
}

#[test]
fn ret() {
    check_instruction("RET", 0x00EE);
}

#[test]
fn jump() {
    check_instruction("JP 32", 0x1020);
}

#[test]
fn call() {
    check_instruction("CALL 32", 0x2020);
}

#[test]
fn se_reg_imm() {
    check_instruction("SE V1, 9", 0x3109);
}

#[test]
fn sne_reg_imm() {
    check_instruction("SNE V3, 32", 0x4320);
}

#[test]
fn se_reg_reg() {
    check_instruction("SE V4, V5", 0x5450);
}

#[test]
fn put_imm() {
    check_instruction("LD V4, 16", 0x6410);
}

#[test]
fn add_imm() {
    check_instruction("ADD V0, 40", 0x7028);
}

#[test]
fn apply_id() {
    check_instruction("LD V2, V7", 0x8270);
}

#[test]
fn apply_or() {
    check_instruction("OR V2, V7", 0x8271);
}

#[test]
fn apply_and() {
    check_instruction("AND V2, V7", 0x8272);
}

#[test]
fn apply_xor() {
    check_instruction("XOR V2, V7", 0x8273);
}

#[test]
fn apply_add() {
    check_instruction("ADD V2, V7", 0x8274);
}

#[test]
fn apply_sub() {
    check_instruction("SUB V2, V7", 0x8275);
}

#[test]
fn apply_shr() {
    check_instruction("SHR V6, V6", 0x8666);
}

#[test]
fn apply_subn() {
    check_instruction("SUBN V2, V7", 0x8277);
}

#[test]
fn apply_shl() {
    check_instruction("SHL V2, V7", 0x827E);
}

#[test]
fn sne_reg_reg() {
    check_instruction("SNE V2, V7", 0x9270);
}

#[test]
fn ld_i_addr() {
    check_instruction("LD I, 20", 0xA014);
}

#[test]
fn jump_plus_v0() {
    check_instruction("JP V0, 20", 0xB014);
}

#[test]
fn randomize() {
    check_instruction("RND V2, #74", 0xC274);
}

#[test]
fn draw() {
    check_instruction("DRW V2, V7, 4", 0xD274);
}

#[test]
fn skp() {
    check_instruction("SKP V2", 0xE29E);
}

#[test]
fn sknp() {
    check_instruction("SKNP V2", 0xE2A1);
}

#[test]
fn ld_reg_dt() {
    check_instruction("LD V2, DT", 0xF207);
}

#[test]
fn ld_reg_k() {
    check_instruction("LD V2, K", 0xF20A);
}

#[test]
fn ld_dt_reg() {
    check_instruction("LD DT, V2", 0xF215);
}

#[test]
fn ld_st_reg() {
    check_instruction("LD ST, V2", 0xF218);
}

#[test]
fn ld_add_i() {
    check_instruction("ADD I, V2", 0xF21E);
}

#[test]
fn ld_load_glpyh() {
    check_instruction("LD F, V2", 0xF229);
}

#[test]
fn ld_b_reg() {
    check_instruction("LD B, V2", 0xF233);
}

#[test]
fn ld_deref_i_reg() {
    check_instruction("LD [I], V2", 0xF255);
}

#[test]
fn ld_reg_deref_i() {
    check_instruction("LD V2, [I]", 0xF265);
}

#[test]
fn sys_takes_an_address() {
    check_instruction("SYS 228", 0x00E4);
}

#[test]
fn codec_scenario_bytes() {
    assert_eq!(try_compile("CLS"), Ok(vec![0x00, 0xE0]));
    assert_eq!(try_compile("CALL 32"), Ok(vec![0x20, 0x20]));
    assert_eq!(try_compile("SE V1, 9"), Ok(vec![0x31, 0x09]));
}

#[test]
fn labels_name_the_address_of_the_next_instruction() {
    let source = "start: CLS\nloop:\n  ADD V0, 1\n  SE V0, 10\n  JP loop\n  JP start\nend: JP end\n";
    assert_eq!(
        try_compile(source),
        Ok(vec![0x00, 0xE0, 0x70, 0x01, 0x30, 0x0A, 0x12, 0x02, 0x12, 0x00, 0x12, 0x0A])
    );
}

#[test]
fn empty_program_is_empty() {
    assert_eq!(try_compile(""), Ok(vec![]));
    assert_eq!(try_translate(&vec![]), Ok(vec![]));
    assert_eq!(compile("\n\n").into_vec(), Vec::<u8>::new());
}

fn one(mnemonic: &str, operands: Vec<Operand>) -> Result<Vec<u8>, TranslateError> {
    try_translate(&vec![Statement::Instruction(mnemonic.to_string(), operands)])
}

#[test]
fn duplicate_label_is_refused() {
    let statements = vec![
        Statement::Label("a".to_string()),
        Statement::Instruction("CLS".to_string(), vec![]),
        Statement::Label("a".to_string()),
    ];
    assert_eq!(try_translate(&statements), Err(TranslateError::DuplicateLabel));
}

#[test]
fn undefined_label_is_refused() {
    assert_eq!(
        one("JP", vec![Operand::new_label("nowhere".to_string())]),
        Err(TranslateError::UndefinedLabel)
    );
}

#[test]
fn unknown_mnemonic_is_refused() {
    assert_eq!(one("NOP", vec![]), Err(TranslateError::UnknownMnemonic));
    assert_eq!(one("cls", vec![]), Err(TranslateError::UnknownMnemonic));
}

#[test]
fn unsupported_operands_are_refused() {
    assert_eq!(one("JP", vec![]), Err(TranslateError::UnsupportedOperands));
    assert_eq!(one("SE", vec![Operand::Register(Reg::V0)]), Err(TranslateError::UnsupportedOperands));
    assert_eq!(
        one("OR", vec![Operand::Register(Reg::V0), Operand::new_literal(1)]),
        Err(TranslateError::UnsupportedOperands)
    );
    assert_eq!(
        one("JP", vec![Operand::Register(Reg::V1), Operand::new_literal(1)]),
        Err(TranslateError::UnsupportedOperands)
    );
    assert_eq!(
        one("LD", vec![Operand::DT, Operand::ST]),
        Err(TranslateError::UnsupportedOperands)
    );
}

#[test]
fn literal_out_of_range_is_refused() {
    assert_eq!(
        one("SE", vec![Operand::Register(Reg::V0), Operand::new_literal(256)]),
        Err(TranslateError::LiteralOutOfRange)
    );
    assert_eq!(one("JP", vec![Operand::new_literal(0x1000)]), Err(TranslateError::LiteralOutOfRange));
    assert_eq!(
        one(
            "DRW",
            vec![Operand::Register(Reg::V0), Operand::Register(Reg::V1), Operand::new_literal(16)]
        ),
        Err(TranslateError::LiteralOutOfRange)
    );
    assert_eq!(one("JP", vec![Operand::new_literal(0x0FFF)]), Ok(vec![0x1F, 0xFF]));
}

#[test]
fn label_address_has_to_fit_twelve_bits() {
    let mut statements: Vec<Statement> = Vec::new();
    for _ in 0..1791 {
        statements.push(Statement::Instruction("CLS".to_string(), vec![]));
    }
    statements.push(Statement::Label("last".to_string()));
    statements.push(Statement::Instruction("JP".to_string(), vec![Operand::new_label("last".to_string())]));
    let binary = try_translate(&statements).unwrap();
    assert_eq!(binary.len(), 2 * 1792);
    assert_eq!(&binary[2 * 1791..], &[0x1F, 0xFE]);

    let mut statements: Vec<Statement> = Vec::new();
    for _ in 0..1792 {
        statements.push(Statement::Instruction("CLS".to_string(), vec![]));
    }
    statements.push(Statement::Label("beyond".to_string()));
    assert_eq!(try_translate(&statements), Err(TranslateError::AddressOutOfRange));
}

#[test]
fn layout_errors_come_before_matching_errors() {
    let statements = vec![
        Statement::Instruction("NOP".to_string(), vec![]),
        Statement::Label("a".to_string()),
        Statement::Label("a".to_string()),
    ];
    assert_eq!(try_translate(&statements), Err(TranslateError::DuplicateLabel));
}

#[test]
fn cls_and_ret_look_at_no_operand() {
    assert_eq!(one("CLS", vec![Operand::Register(Reg::V1)]), Ok(vec![0x00, 0xE0]));
    assert_eq!(one("RET", vec![Operand::new_literal(7)]), Ok(vec![0x00, 0xEE]));
}

#[test]
fn match_instruction_resolves_labels() {
    let mut labels = LabelTable::new();
    labels.insert("foo".to_string(), Addr(0x234));
    assert_eq!(labels.lookup("foo"), Some(Addr(0x234)));
    assert_eq!(labels.lookup("fo"), None);
    assert_eq!(
        match_instruction("LD", &vec![Operand::IndexReg, Operand::new_label("foo".to_string())], &labels),
        Ok(Instruction::SetIndex(Addr(0x234)))
    );
    assert_eq!(
        match_instruction("SUBN", &vec![Operand::Register(Reg::V1), Operand::Register(Reg::Vf)], &labels),
        Ok(Instruction::Apply { vx: Reg::V1, vy: Reg::Vf, f: Fun::SubtractInv })
    );
    assert_eq!(
        match_instruction("SYS", &vec![Operand::new_label("bar".to_string())], &labels),
        Err(TranslateError::UndefinedLabel)
    );
}

#[test]
fn emit_writes_big_end_first() {
    let instructions = vec![
        Instruction::Draw { vx: Reg::V1, vy: Reg::V2, n: Imm4(5) },
        Instruction::PutImm { vx: Reg::Vf, imm: Imm(0xAB) },
    ];
    assert_eq!(emit_instructions(instructions), vec![0xD1, 0x25, 0x6F, 0xAB]);
}

#[test]
fn text_eq_compares_characters() {
    assert!(text_eq("CLS", "CLS"));
    assert!(!text_eq("CLS", "CLs"));
    assert!(!text_eq("CL", "CLS"));
    assert!(text_eq("", ""));
    assert!(text_eq("é", "é"));
}

#[test]
fn literal_value_conversions() {
    let literal = LiteralValue::new(0x0A);
    assert_eq!(literal.as_u4(), 0x0A);
    assert_eq!(literal.as_u8(), 0x0A);
    assert_eq!(literal.as_u16(), 0x0A);
    assert_eq!(LiteralValue::new(0xFFFF).as_u16(), 0xFFFF);
    assert_eq!(LiteralValue::new(0xFF).as_u8(), 0xFF);
}
