use chip8::env::Env;
use chip8::error::Error;
use chip8::frame::cycles_for;
use chip8::instruction::{Addr, Fun, Imm, Imm4, Instruction, InstructionWord, Reg};
use chip8::keypad::map_keycode;
use chip8::vm::{Vm, FONT_SPRITES};
use rand::rngs::StdRng;
use rand::SeedableRng;

const NO_KEYS: [bool; 16] = [false; 16];

fn execute(vm: &mut Vm, word: u16) {
    let instruction = Instruction::decode(InstructionWord(word)).unwrap();
    vm.execute_instruction(instruction, &NO_KEYS, 0).unwrap();
}

fn is_borrow_bit_set(vm: &Vm) -> bool {
    vm.read_gpr(Reg::Vf) == 0x00
}

#[test]
fn op_sub_eq() {
    let mut chip8 = Vm::new();

    execute(&mut chip8, 0x6105); // LD  V1,  5
    execute(&mut chip8, 0x6205); // LD  V2,  5
    execute(&mut chip8, 0x8125); // SUB V1, V2

    let result = chip8.read_gpr(Reg::V1);
    let borrowed = is_borrow_bit_set(&chip8);

    assert_eq!(result, 0);
    assert_eq!(borrowed, false);
}

#[test]
fn op_sub_normal() {
    let mut chip8 = Vm::new();

    execute(&mut chip8, 0x610A); // LD  V1, 10
    execute(&mut chip8, 0x6205); // LD  V2,  5
    execute(&mut chip8, 0x8125); // SUB V1, V2

    let result = chip8.read_gpr(Reg::V1);

    assert_eq!(result, 5);
    assert_eq!(is_borrow_bit_set(&chip8), false);
}

#[test]
fn op_sub_borrow() {
    let mut chip8 = Vm::new();

    execute(&mut chip8, 0x6105); // LD  V1,  5
    execute(&mut chip8, 0x620A); // LD  V2, 10
    execute(&mut chip8, 0x8125); // SUB V1, V2

    let result = chip8.read_gpr(Reg::V1);

    assert_eq!(result, -5i8 as u8);
    assert_eq!(is_borrow_bit_set(&chip8), true);
}

#[test]
fn op_shr_shifted_1() {
    let mut chip8 = Vm::new();

    execute(&mut chip8, 0x6103); // LD   V1, 0b0000_0011
    execute(&mut chip8, 0x8216); // SHR  V2, V1

    let result = chip8.read_gpr(Reg::V2);
    let shifted_bit = chip8.read_gpr(Reg::Vf);

    assert_eq!(result, 1);
    assert_eq!(shifted_bit, 1);
}

#[test]
fn op_shr_shifted_0() {
    let mut chip8 = Vm::new();

    execute(&mut chip8, 0x6106); // LD   V1, 0b0000_0110
    execute(&mut chip8, 0x8216); // SHR  V2, V1

    let result = chip8.read_gpr(Reg::V2);
    let shifted_bit = chip8.read_gpr(Reg::Vf);

    assert_eq!(result, 3);
    assert_eq!(shifted_bit, 0);
}

#[test]
fn op_subn_eq() {
    let mut chip8 = Vm::new();

    execute(&mut chip8, 0x6105); // LD   V1,  5
    execute(&mut chip8, 0x6205); // LD   V2,  5
    execute(&mut chip8, 0x8127); // SUBN V1, V2

    let result = chip8.read_gpr(Reg::V1);

    assert_eq!(result, 0);
    assert_eq!(is_borrow_bit_set(&chip8), false);
}

#[test]
fn op_subn_normal() {
    let mut chip8 = Vm::new();

    execute(&mut chip8, 0x6105); // LD   V1,  5
    execute(&mut chip8, 0x620A); // LD   V2, 10
    execute(&mut chip8, 0x8127); // SUBN V1, V2

    let result = chip8.read_gpr(Reg::V1);

    assert_eq!(result, 5);
    assert_eq!(is_borrow_bit_set(&chip8), false);
}

#[test]
fn op_subn_borrow() {
    let mut chip8 = Vm::new();

    execute(&mut chip8, 0x610A); // LD   V1, 10
    execute(&mut chip8, 0x6205); // LD   V2,  5
    execute(&mut chip8, 0x8127); // SUBN V1, V2

    let result = chip8.read_gpr(Reg::V1);

    assert_eq!(result, -5i8 as u8);
    assert_eq!(is_borrow_bit_set(&chip8), true);
}

#[test]
fn op_shl_shifted_1() {
    let mut chip8 = Vm::new();

    execute(&mut chip8, 0x61C0); // LD   V1, 0b1100_0000
    execute(&mut chip8, 0x821E); // SHL  V2, V1

    let result = chip8.read_gpr(Reg::V2);
    let shifted_bit = chip8.read_gpr(Reg::Vf);

    assert_eq!(result, 0x80);
    assert_eq!(shifted_bit, 1);
}

#[test]
fn op_shl_shifted_0() {
    let mut chip8 = Vm::new();

    execute(&mut chip8, 0x6160); // LD   V1, 0b0110_0000
    execute(&mut chip8, 0x821E); // SHL  V2, V1

    let result = chip8.read_gpr(Reg::V2);
    let shifted_bit = chip8.read_gpr(Reg::Vf);

    assert_eq!(result, 0xC0);
    assert_eq!(shifted_bit, 0);
}

#[test]
fn new_machine_holds_the_font() {
    let vm = Vm::new();
    assert_eq!(vm.pc(), 0x200);
    assert_eq!(vm.index(), 0);
    assert_eq!(&vm.memory()[..80], &FONT_SPRITES[..]);
    assert!(vm.memory()[80..].iter().all(|b| *b == 0));
    assert_eq!(vm.stack_depth(), 0);
    assert!(!vm.is_beeping());
    for index in 0..16 {
        assert_eq!(vm.read_gpr(Reg::from_index(index)), 0);
    }
    assert!((0..32).all(|y| (0..64).all(|x| !vm.display().get(x, y))));
}

#[test]
fn rom_is_loaded_at_program_start() {
    let vm = Vm::with_rom(&[0x12, 0x34, 0x56]);
    assert_eq!(&vm.memory()[0x200..0x203], &[0x12, 0x34, 0x56]);
    assert_eq!(vm.memory()[0x203], 0);
    assert_eq!(&vm.memory()[..80], &FONT_SPRITES[..]);
    let full = vec![0xAB; 4096 - 0x200];
    let vm = Vm::with_rom(&full);
    assert_eq!(vm.memory()[4095], 0xAB);
}

#[test]
fn add_imm_wraps_without_flag() {
    let mut vm = Vm::new();
    execute(&mut vm, 0x7028); // ADD V0, 40
    assert_eq!(vm.read_gpr(Reg::V0), 40);
    assert_eq!(vm.pc(), 0x202);
    execute(&mut vm, 0x6FAA); // LD VF, 0xAA
    execute(&mut vm, 0x70F0); // ADD V0, 240
    assert_eq!(vm.read_gpr(Reg::V0), 24);
    assert_eq!(vm.read_gpr(Reg::Vf), 0xAA);
}

#[test]
fn apply_add_sets_carry() {
    let mut vm = Vm::new();
    execute(&mut vm, 0x60FF);
    execute(&mut vm, 0x6101);
    execute(&mut vm, 0x8014); // ADD V0, V1
    assert_eq!(vm.read_gpr(Reg::V0), 0x00);
    assert_eq!(vm.read_gpr(Reg::Vf), 1);

    let mut vm = Vm::new();
    execute(&mut vm, 0x6001);
    execute(&mut vm, 0x6101);
    execute(&mut vm, 0x8014);
    assert_eq!(vm.read_gpr(Reg::V0), 0x02);
    assert_eq!(vm.read_gpr(Reg::Vf), 0);
}

#[test]
fn apply_subtract_sets_not_borrow() {
    let mut vm = Vm::new();
    execute(&mut vm, 0x6105);
    execute(&mut vm, 0x620A);
    execute(&mut vm, 0x8125);
    assert_eq!(vm.read_gpr(Reg::V1), 0xFB);
    assert_eq!(vm.read_gpr(Reg::Vf), 0);

    let mut vm = Vm::new();
    execute(&mut vm, 0x610A);
    execute(&mut vm, 0x6205);
    execute(&mut vm, 0x8125);
    assert_eq!(vm.read_gpr(Reg::V1), 5);
    assert_eq!(vm.read_gpr(Reg::Vf), 1);
}

#[test]
fn flag_is_written_after_the_result() {
    let mut vm = Vm::new();
    execute(&mut vm, 0x6FFF); // LD VF, 0xFF
    execute(&mut vm, 0x6102); // LD V1, 2
    execute(&mut vm, 0x8F14); // ADD VF, V1
    assert_eq!(vm.read_gpr(Reg::Vf), 1);
    execute(&mut vm, 0x6F07);
    execute(&mut vm, 0x8F16); // SHR VF, V1
    assert_eq!(vm.read_gpr(Reg::Vf), 0);
}

#[test]
fn bitwise_functions() {
    let mut vm = Vm::new();
    for (selector, expected) in [(0u16, 0x0Fu8), (1, 0xFF), (2, 0x00), (3, 0xFF)] {
        execute(&mut vm, 0x60F0);
        execute(&mut vm, 0x610F);
        execute(&mut vm, 0x6FAA);
        execute(&mut vm, 0x8010 | selector);
        assert_eq!(vm.read_gpr(Reg::V0), expected);
        assert_eq!(vm.read_gpr(Reg::Vf), 0xAA);
    }
}

#[test]
fn call_and_ret() {
    let mut vm = Vm::new();
    execute(&mut vm, 0x2300); // CALL 0x300
    assert_eq!(vm.pc(), 0x300);
    assert_eq!(vm.stack_depth(), 1);
    execute(&mut vm, 0x00EE); // RET
    assert_eq!(vm.pc(), 0x202);
    assert_eq!(vm.stack_depth(), 0);
}

#[test]
fn stack_errors_leave_the_state() {
    let mut vm = Vm::new();
    assert_eq!(
        vm.execute_instruction(Instruction::Ret, &NO_KEYS, 0),
        Err(Error::StackUnderflow { pc: 0x200, instruction: Instruction::Ret })
    );
    assert_eq!(vm.pc(), 0x200);
    for _ in 0..16 {
        execute(&mut vm, 0x2300);
    }
    let call = Instruction::Call(Addr(0x400));
    assert_eq!(
        vm.execute_instruction(call, &NO_KEYS, 0),
        Err(Error::StackOverflow { pc: 0x300, instruction: call })
    );
    assert_eq!(vm.pc(), 0x300);
    assert_eq!(vm.stack_depth(), 16);
}

#[test]
fn sys_is_not_carried_out() {
    let mut vm = Vm::new();
    let sys = Instruction::Sys(Addr(0x123));
    assert_eq!(
        vm.execute_instruction(sys, &NO_KEYS, 0),
        Err(Error::UnsupportedInstruction { pc: 0x200, instruction: sys })
    );
    assert_eq!(vm.pc(), 0x200);
}

#[test]
fn jumps() {
    let mut vm = Vm::new();
    execute(&mut vm, 0x1ABC);
    assert_eq!(vm.pc(), 0xABC);
    execute(&mut vm, 0x6010);
    execute(&mut vm, 0xB300); // JP V0, 0x300
    assert_eq!(vm.pc(), 0x310);
}

#[test]
fn skips() {
    let mut vm = Vm::new();
    execute(&mut vm, 0x6005);
    let pc = vm.pc();
    execute(&mut vm, 0x3005); // SE V0, 5
    assert_eq!(vm.pc(), pc + 4);
    execute(&mut vm, 0x3006);
    assert_eq!(vm.pc(), pc + 6);
    execute(&mut vm, 0x4005); // SNE V0, 5
    assert_eq!(vm.pc(), pc + 8);
    execute(&mut vm, 0x4006);
    assert_eq!(vm.pc(), pc + 12);
    execute(&mut vm, 0x5010); // SE V0, V1
    assert_eq!(vm.pc(), pc + 14);
    execute(&mut vm, 0x9010); // SNE V0, V1
    assert_eq!(vm.pc(), pc + 18);
}

#[test]
fn skip_pressed_looks_at_the_keys() {
    let mut vm = Vm::new();
    let mut keys = NO_KEYS;
    keys[7] = true;
    execute(&mut vm, 0x6007);
    let skp = Instruction::SkipPressed { vx: Reg::V0, inv: false };
    let sknp = Instruction::SkipPressed { vx: Reg::V0, inv: true };
    let pc = vm.pc();
    vm.execute_instruction(skp, &keys, 0).unwrap();
    assert_eq!(vm.pc(), pc + 4);
    vm.execute_instruction(sknp, &keys, 0).unwrap();
    assert_eq!(vm.pc(), pc + 6);
    vm.execute_instruction(skp, &NO_KEYS, 0).unwrap();
    assert_eq!(vm.pc(), pc + 8);
    execute(&mut vm, 0x6010);
    let pc = vm.pc();
    assert_eq!(
        vm.execute_instruction(skp, &keys, 0),
        Err(Error::KeyOutOfRange { pc, instruction: skp })
    );
    assert_eq!(vm.pc(), pc);
}

#[test]
fn wait_key_waits() {
    let mut vm = Vm::new();
    let wait = Instruction::WaitKey(Reg::V3);
    vm.execute_instruction(wait, &NO_KEYS, 0).unwrap();
    assert_eq!(vm.pc(), 0x200);
    assert_eq!(vm.read_gpr(Reg::V3), 0);
    let mut keys = NO_KEYS;
    keys[0xC] = true;
    keys[0x5] = true;
    vm.execute_instruction(wait, &keys, 0).unwrap();
    assert_eq!(vm.pc(), 0x202);
    assert_eq!(vm.read_gpr(Reg::V3), 5);
}

#[test]
fn randomize_masks_the_byte() {
    let mut vm = Vm::new();
    let instruction = Instruction::Randomize { vx: Reg::V4, imm: Imm(0x3C) };
    vm.execute_instruction(instruction, &NO_KEYS, 0xA5).unwrap();
    assert_eq!(vm.read_gpr(Reg::V4), 0x24);
}

#[test]
fn index_instructions() {
    let mut vm = Vm::new();
    execute(&mut vm, 0xA123);
    assert_eq!(vm.index(), 0x123);
    execute(&mut vm, 0x60FF);
    execute(&mut vm, 0xF01E); // ADD I, V0
    assert_eq!(vm.index(), 0x222);
    execute(&mut vm, 0x600A);
    execute(&mut vm, 0xF029); // LD F, V0
    assert_eq!(vm.index(), 50);
    execute(&mut vm, 0x60FF);
    execute(&mut vm, 0xF029);
    assert_eq!(vm.index(), 1275);
}

#[test]
fn add_to_index_wraps() {
    let mut vm = Vm::new();
    vm.execute_instruction(Instruction::SetIndex(Addr(0xFFFF)), &NO_KEYS, 0).unwrap();
    execute(&mut vm, 0x6002);
    execute(&mut vm, 0xF01E);
    assert_eq!(vm.index(), 1);
}

#[test]
fn store_bcd() {
    let mut vm = Vm::new();
    execute(&mut vm, 0x60FE); // 254
    execute(&mut vm, 0xA300);
    execute(&mut vm, 0xF033);
    assert_eq!(&vm.memory()[0x300..0x303], &[2, 5, 4]);
    execute(&mut vm, 0x6007);
    execute(&mut vm, 0xF033);
    assert_eq!(&vm.memory()[0x300..0x303], &[0, 0, 7]);
    execute(&mut vm, 0xAFFD);
    execute(&mut vm, 0xF033);
    assert_eq!(&vm.memory()[0xFFD..], &[0, 0, 7]);
    execute(&mut vm, 0xAFFE);
    let pc = vm.pc();
    let bcd = Instruction::StoreBCD(Reg::V0);
    assert_eq!(
        vm.execute_instruction(bcd, &NO_KEYS, 0),
        Err(Error::OutOfBoundsMemoryAccess { pc, instruction: bcd })
    );
    assert_eq!(vm.memory()[0xFFE], 0);
}

#[test]
fn register_blocks() {
    let mut vm = Vm::new();
    execute(&mut vm, 0x6011);
    execute(&mut vm, 0x6122);
    execute(&mut vm, 0x6233);
    execute(&mut vm, 0x6344);
    execute(&mut vm, 0xA400);
    execute(&mut vm, 0xF255); // LD [I], V2
    assert_eq!(&vm.memory()[0x400..0x404], &[0x11, 0x22, 0x33, 0x00]);
    assert_eq!(vm.index(), 0x400);
    execute(&mut vm, 0xA401);
    execute(&mut vm, 0xF165); // LD V1, [I]
    assert_eq!(vm.read_gpr(Reg::V0), 0x22);
    assert_eq!(vm.read_gpr(Reg::V1), 0x33);
    assert_eq!(vm.read_gpr(Reg::V2), 0x33);
    assert_eq!(vm.read_gpr(Reg::V3), 0x44);
    assert_eq!(vm.index(), 0x401);
}

#[test]
fn register_blocks_may_advance_the_index() {
    let mut vm = Vm::new();
    vm.set_index_advances(true);
    execute(&mut vm, 0xA400);
    execute(&mut vm, 0xF255);
    assert_eq!(vm.index(), 0x403);
    execute(&mut vm, 0xFF65);
    assert_eq!(vm.index(), 0x413);
}

#[test]
fn register_blocks_stay_inside_memory() {
    let mut vm = Vm::new();
    execute(&mut vm, 0xAFF0);
    execute(&mut vm, 0xFF55);
    execute(&mut vm, 0xFF65);
    execute(&mut vm, 0xAFF1);
    let store = Instruction::StoreRegisterBlock(Reg::Vf);
    let load = Instruction::LoadRegisterBlock(Reg::Vf);
    let pc = vm.pc();
    assert_eq!(
        vm.execute_instruction(store, &NO_KEYS, 0),
        Err(Error::OutOfBoundsMemoryAccess { pc, instruction: store })
    );
    assert_eq!(
        vm.execute_instruction(load, &NO_KEYS, 0),
        Err(Error::OutOfBoundsMemoryAccess { pc, instruction: load })
    );
    execute(&mut vm, 0xFE55);
}

#[test]
fn draw_sets_the_collision_flag() {
    let mut vm = Vm::new();
    execute(&mut vm, 0x6001); // x = 1
    execute(&mut vm, 0x6102); // y = 2
    execute(&mut vm, 0xA000); // glyph 0
    execute(&mut vm, 0xD015);
    assert_eq!(vm.read_gpr(Reg::Vf), 0);
    assert!(vm.display().get(1, 2));
    assert!(vm.display().get(4, 2));
    assert!(!vm.display().get(5, 2));
    assert!(!vm.display().get(2, 3));
    execute(&mut vm, 0xD015);
    assert_eq!(vm.read_gpr(Reg::Vf), 1);
    assert!((0..32).all(|y| (0..64).all(|x| !vm.display().get(x, y))));
    execute(&mut vm, 0xD015);
    execute(&mut vm, 0x00E0);
    assert!((0..32).all(|y| (0..64).all(|x| !vm.display().get(x, y))));
}

#[test]
fn draw_stays_inside_memory() {
    let mut vm = Vm::new();
    execute(&mut vm, 0xAFFF);
    execute(&mut vm, 0xD001);
    execute(&mut vm, 0xD000);
    let draw = Instruction::Draw { vx: Reg::V0, vy: Reg::V0, n: Imm4(2) };
    let pc = vm.pc();
    assert_eq!(
        vm.execute_instruction(draw, &NO_KEYS, 0),
        Err(Error::OutOfBoundsMemoryAccess { pc, instruction: draw })
    );
    assert_eq!(vm.pc(), pc);
}

#[test]
fn timers_count_down() {
    let mut vm = Vm::new();
    execute(&mut vm, 0x6003);
    execute(&mut vm, 0xF015); // LD DT, V0
    execute(&mut vm, 0xF018); // LD ST, V0
    assert!(vm.is_beeping());
    assert_eq!(vm.delay(), 3);
    vm.update_timers(1000);
    execute(&mut vm, 0xF107); // LD V1, DT
    assert_eq!(vm.read_gpr(Reg::V1), 2);
    vm.update_timers(1001);
    assert_eq!(vm.delay(), 0);
    assert!(!vm.is_beeping());
    vm.update_timers(u32::MAX);
    assert_eq!(vm.delay(), 0);
}

#[test]
fn cycle_runs_a_program() {
    let rom = chip8::assembler::try_compile(
        "LD V0, 3\nLD V1, 0\nloop: ADD V1, 2\nADD V0, 255\nSE V0, 0\nJP loop\nend: JP end\n",
    )
    .unwrap();
    let mut vm = Vm::with_rom(&rom);
    let mut env = Env::new(StdRng::seed_from_u64(1));
    for _ in 0..40 {
        vm.cycle(&mut env).unwrap();
    }
    assert_eq!(vm.read_gpr(Reg::V1), 6);
    assert_eq!(vm.read_gpr(Reg::V0), 0);
    assert_eq!(vm.pc(), 0x20C);
}

#[test]
fn cycle_reads_the_word_big_end_first() {
    let mut vm = Vm::with_rom(&[0x6A, 0xBC]);
    assert_eq!(vm.fetch(), Ok(InstructionWord(0x6ABC)));
    assert_eq!(vm.fetch_decode(), Ok(Instruction::PutImm { vx: Reg::Va, imm: Imm(0xBC) }));
    vm.cycle_with(&NO_KEYS, 0).unwrap();
    assert_eq!(vm.read_gpr(Reg::Va), 0xBC);
    assert_eq!(vm.pc(), 0x202);
}

#[test]
fn cycle_surfaces_decode_errors() {
    let mut vm = Vm::with_rom(&[0xFF, 0xFF]);
    let mut env = Env::new(StdRng::seed_from_u64(1));
    assert_eq!(vm.cycle(&mut env), Err(Error::UnrecognizedInstruction(InstructionWord(0xFFFF))));
    assert_eq!(vm.pc(), 0x200);
}

#[test]
fn cycle_stops_at_the_end_of_memory() {
    let mut vm = Vm::with_rom(&[0x1F, 0xFF]);
    vm.cycle_with(&NO_KEYS, 0).unwrap();
    assert_eq!(vm.pc(), 0xFFF);
    assert_eq!(vm.cycle_with(&NO_KEYS, 0), Err(Error::FetchOutOfBounds { pc: 0xFFF }));
    let mut vm = Vm::with_rom(&[0x1F, 0xFE]);
    vm.cycle_with(&NO_KEYS, 0).unwrap();
    let sys = Instruction::Sys(Addr(0));
    assert_eq!(
        vm.cycle_with(&NO_KEYS, 0),
        Err(Error::UnsupportedInstruction { pc: 0xFFE, instruction: sys })
    );
    assert_eq!(vm.pc(), 0xFFE);
}

#[test]
fn cycle_draws_random_bytes_for_randomize() {
    let mut vm = Vm::with_rom(&[0xC0, 0xFF, 0xC1, 0xFF, 0xC2, 0xFF, 0xC3, 0xFF, 0xC4, 0x0F]);
    let mut env = Env::new(StdRng::seed_from_u64(7));
    for _ in 0..5 {
        vm.cycle(&mut env).unwrap();
    }
    let mut again = Vm::with_rom(&[0xC0, 0xFF, 0xC1, 0xFF, 0xC2, 0xFF, 0xC3, 0xFF, 0xC4, 0x0F]);
    let mut env = Env::new(StdRng::seed_from_u64(7));
    for _ in 0..5 {
        again.cycle(&mut env).unwrap();
    }
    let drawn: Vec<u8> = (0..5).map(|i| vm.read_gpr(Reg::from_index(i))).collect();
    let drawn_again: Vec<u8> = (0..5).map(|i| again.read_gpr(Reg::from_index(i))).collect();
    assert_eq!(drawn, drawn_again);
    assert!(drawn[..4].iter().any(|b| *b != drawn[0]));
    assert!(drawn[4] <= 0x0F);
}

#[test]
fn write_gpr_sets_one_register() {
    let mut vm = Vm::new();
    vm.write_gpr(Reg::Vc, 9);
    for index in 0..16 {
        let expected = if index == 12 { 9 } else { 0 };
        assert_eq!(vm.read_gpr(Reg::from_index(index)), expected);
    }
    let _ = Fun::Id;
}

#[test]
fn run_shares_the_time_among_the_cycles() {
    // LD V0, 10; LD DT, V0; then a loop that reads the timer into V1.
    let rom = chip8::assembler::try_compile("LD V0, 10\nLD DT, V0\nloop: LD V1, DT\nJP loop\n")
        .unwrap();
    let mut vm = Vm::with_rom(&rom);
    let mut env = Env::new(StdRng::seed_from_u64(1));
    vm.run(&mut env, 2, 0).unwrap();
    assert_eq!(vm.delay(), 10);
    // Three cycles share 3001 units: 1000, 1000 and 1001.
    vm.run(&mut env, 3, 3001).unwrap();
    assert_eq!(vm.delay(), 6);
    assert_eq!(vm.read_gpr(Reg::V1), 8);
    vm.run(&mut env, 0, 999).unwrap();
    assert_eq!(vm.delay(), 6);
    vm.run(&mut env, 0, 1).unwrap();
    assert_eq!(vm.delay(), 5);
    assert_eq!(vm.pc(), 0x206);
}

#[test]
fn run_stops_at_the_first_error() {
    let mut vm = Vm::with_rom(&[0x60, 0x05, 0xF0, 0x15, 0xFF, 0xFF, 0x61, 0x01]);
    let mut env = Env::new(StdRng::seed_from_u64(1));
    assert_eq!(
        vm.run(&mut env, 4, 4000),
        Err(Error::UnrecognizedInstruction(InstructionWord(0xFFFF)))
    );
    assert_eq!(vm.pc(), 0x204);
    assert_eq!(vm.delay(), 4);
    assert_eq!(vm.read_gpr(Reg::V1), 0);
}

#[test]
fn cycles_per_stretch() {
    assert_eq!(cycles_for(16, 500), 8);
    assert_eq!(cycles_for(1, 500), 0);
    assert_eq!(cycles_for(2, 500), 1);
    assert_eq!(cycles_for(1000, 15000), 15000);
    assert_eq!(cycles_for(u32::MAX, u32::MAX), (u32::MAX as u64) * (u32::MAX as u64) / 1000);
}

#[test]
fn keypad_layout() {
    let keys = "x123qweasdzc4rfv";
    for (key, c) in keys.chars().enumerate() {
        assert_eq!(map_keycode(c as i32), Some(key));
    }
    assert_eq!(map_keycode('5' as i32), None);
    assert_eq!(map_keycode('Q' as i32), None);
    assert_eq!(map_keycode(-1), None);
    assert_eq!(map_keycode(27), None);
}
