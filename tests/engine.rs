use chip8::decode::{decode, fetch_instruction, Instruction};
use chip8::execute::{execute_instruction, process_instruction, step, Fault, FaultKind, StepOutcome};
use chip8::keypad::keypad_code;
use chip8::machine::Chip8State;

type Snapshot = (Vec<u8>, Vec<u8>, u16, u16, Vec<u8>, u8, u8, Vec<u16>, u16, Vec<bool>);

fn snapshot(s: &Chip8State) -> Snapshot {
    (
        s.memory.to_vec(),
        s.v.to_vec(),
        s.i,
        s.pc,
        s.gfx.to_vec(),
        s.delay_timer,
        s.sound_timer,
        s.stack.to_vec(),
        s.sp,
        s.key.to_vec(),
    )
}

fn run(s: &mut Chip8State, opcode: u16) -> Result<StepOutcome, Fault> {
    process_instruction(s, opcode, 0, None)
}

#[test]
fn new_state_is_zeroed_with_pc_at_program_start() {
    let s = Chip8State::new();
    assert_eq!(s.pc, 0x200);
    assert!(s.memory.iter().all(|&b| b == 0));
    assert!(s.v.iter().all(|&b| b == 0));
    assert!(s.gfx.iter().all(|&b| b == 0));
    assert_eq!(s.i, 0);
    assert_eq!(s.sp, 0);
    assert_eq!(s.delay_timer, 0);
    assert_eq!(s.sound_timer, 0);
    assert!(s.key.iter().all(|&k| !k));
}

#[test]
fn load_rom_copies_bytes_at_program_start() {
    let mut s = Chip8State::new();
    s.load_rom(&[0x12, 0x34, 0xAB]);
    assert_eq!(s.memory[0x1FF], 0);
    assert_eq!(&s.memory[0x200..0x203], &[0x12, 0x34, 0xAB]);
    assert_eq!(s.memory[0x203], 0);
    assert_eq!(fetch_instruction(&s), 0x1234);
}

#[test]
fn load_rom_fills_all_program_memory() {
    let mut s = Chip8State::new();
    let rom = vec![0x5Au8; 4096 - 0x200];
    s.load_rom(&rom);
    assert_eq!(s.memory[0x200], 0x5A);
    assert_eq!(s.memory[4095], 0x5A);
    assert_eq!(s.memory[0x1FF], 0);
}

#[test]
fn decode_extracts_fields() {
    assert_eq!(decode(0x00E0), Some(Instruction::Clear));
    assert_eq!(decode(0x00EE), Some(Instruction::Return));
    assert_eq!(decode(0x1ABC), Some(Instruction::Jump { addr: 0xABC }));
    assert_eq!(decode(0x2ABC), Some(Instruction::Call { addr: 0xABC }));
    assert_eq!(decode(0x3A42), Some(Instruction::SkipEqImm { x: 0xA, kk: 0x42 }));
    assert_eq!(decode(0x5AB0), Some(Instruction::SkipEqReg { x: 0xA, y: 0xB }));
    assert_eq!(decode(0x8AB4), Some(Instruction::AddReg { x: 0xA, y: 0xB }));
    assert_eq!(decode(0xD12F), Some(Instruction::Draw { x: 1, y: 2, n: 0xF }));
    assert_eq!(decode(0xE39E), Some(Instruction::SkipKey { x: 3 }));
    assert_eq!(decode(0xF465), Some(Instruction::Load { x: 4 }));
}

#[test]
fn decode_rejects_unknown_words() {
    assert_eq!(decode(0xF0FF), None);
    assert_eq!(decode(0x0123), None);
    assert_eq!(decode(0x8AB1), None);
    assert_eq!(decode(0x5AB1), None);
    assert_eq!(decode(0x9AB3), None);
    assert_eq!(decode(0xE3FF), None);
    assert_eq!(decode(0xF001), None);
}

#[test]
fn load_immediate_sets_register_and_advances() {
    for x in 0u16..16 {
        for kk in [0u16, 0x01, 0x7F, 0xFF] {
            let mut s = Chip8State::new();
            assert_eq!(run(&mut s, 0x6000 | (x << 8) | kk), Ok(StepOutcome::Executed));
            assert_eq!(s.v[x as usize], kk as u8);
            assert_eq!(s.pc, 0x202);
        }
    }
}

#[test]
fn add_with_carry_sets_flag() {
    let mut s = Chip8State::new();
    s.v[1] = 0xFF;
    s.v[2] = 0x02;
    assert_eq!(run(&mut s, 0x8124), Ok(StepOutcome::Executed));
    assert_eq!(s.v[1], 0x01);
    assert_eq!(s.v[0xF], 1);
    assert_eq!(s.pc, 0x202);
}

#[test]
fn add_without_carry_clears_flag() {
    let mut s = Chip8State::new();
    s.v[1] = 0x10;
    s.v[2] = 0x20;
    s.v[0xF] = 1;
    run(&mut s, 0x8124).unwrap();
    assert_eq!(s.v[1], 0x30);
    assert_eq!(s.v[0xF], 0);
}

#[test]
fn subtract_with_borrow_wraps() {
    let mut s = Chip8State::new();
    s.v[3] = 0x03;
    s.v[4] = 0x05;
    run(&mut s, 0x8345).unwrap();
    assert_eq!(s.v[0xF], 0);
    assert_eq!(s.v[3], 0xFE);
}

#[test]
fn subtract_without_borrow_sets_flag() {
    let mut s = Chip8State::new();
    s.v[3] = 0x09;
    s.v[4] = 0x05;
    run(&mut s, 0x8345).unwrap();
    assert_eq!(s.v[0xF], 1);
    assert_eq!(s.v[3], 0x04);
}

#[test]
fn reverse_subtract_sets_flag_and_wraps() {
    let mut s = Chip8State::new();
    s.v[3] = 0x03;
    s.v[4] = 0x05;
    run(&mut s, 0x8347).unwrap();
    assert_eq!(s.v[0xF], 1);
    assert_eq!(s.v[3], 0x02);
    let mut t = Chip8State::new();
    t.v[3] = 0x05;
    t.v[4] = 0x03;
    run(&mut t, 0x8347).unwrap();
    assert_eq!(t.v[0xF], 0);
    assert_eq!(t.v[3], 0xFE);
}

#[test]
fn add_immediate_wraps_without_flag() {
    let mut s = Chip8State::new();
    s.v[5] = 0xF0;
    run(&mut s, 0x7520).unwrap();
    assert_eq!(s.v[5], 0x10);
    assert_eq!(s.v[0xF], 0);
}

#[test]
fn move_copies_register() {
    let mut s = Chip8State::new();
    s.v[7] = 0x33;
    run(&mut s, 0x8170).unwrap();
    assert_eq!(s.v[1], 0x33);
}

#[test]
fn skip_if_equal_immediate() {
    let mut s = Chip8State::new();
    s.v[2] = 5;
    run(&mut s, 0x3205).unwrap();
    assert_eq!(s.pc, 0x204);
    let mut t = Chip8State::new();
    t.v[2] = 5;
    run(&mut t, 0x3206).unwrap();
    assert_eq!(t.pc, 0x202);
}

#[test]
fn skip_if_not_equal_and_register_compares() {
    let mut s = Chip8State::new();
    s.v[2] = 5;
    run(&mut s, 0x4206).unwrap();
    assert_eq!(s.pc, 0x204);
    s.v[3] = 5;
    run(&mut s, 0x5230).unwrap();
    assert_eq!(s.pc, 0x208);
    run(&mut s, 0x9230).unwrap();
    assert_eq!(s.pc, 0x20A);
}

#[test]
fn call_then_return_lands_after_call() {
    let mut s = Chip8State::new();
    run(&mut s, 0x2400).unwrap();
    assert_eq!(s.pc, 0x400);
    assert_eq!(s.sp, 1);
    assert_eq!(s.stack[0], 0x200);
    run(&mut s, 0x00EE).unwrap();
    assert_eq!(s.pc, 0x202);
    assert_eq!(s.sp, 0);
}

#[test]
fn stack_overflow_is_fatal_and_changes_nothing() {
    let mut s = Chip8State::new();
    for _ in 0..16 {
        run(&mut s, 0x2300).unwrap();
    }
    assert_eq!(s.sp, 16);
    let before = snapshot(&s);
    assert_eq!(
        run(&mut s, 0x2300),
        Err(Fault { kind: FaultKind::StackOverflow, opcode: 0x2300, pc: 0x300 })
    );
    assert_eq!(snapshot(&s), before);
}

#[test]
fn stack_underflow_is_fatal() {
    let mut s = Chip8State::new();
    assert_eq!(
        run(&mut s, 0x00EE),
        Err(Fault { kind: FaultKind::StackUnderflow, opcode: 0x00EE, pc: 0x200 })
    );
    assert_eq!(s.pc, 0x200);
}

#[test]
fn jumps_set_pc() {
    let mut s = Chip8State::new();
    run(&mut s, 0x1ABC).unwrap();
    assert_eq!(s.pc, 0xABC);
    s.pc = 0x200;
    s.v[0] = 0x10;
    run(&mut s, 0xB300).unwrap();
    assert_eq!(s.pc, 0x310);
}

#[test]
fn sprite_drawn_twice_erases_itself() {
    let mut s = Chip8State::new();
    s.i = 0x300;
    s.memory[0x300] = 0xFF;
    run(&mut s, 0xD001).unwrap();
    assert_eq!(s.v[0xF], 0);
    assert!(s.gfx[0..8].iter().all(|&c| c == 1));
    assert!(s.gfx[8..].iter().all(|&c| c == 0));
    run(&mut s, 0xD001).unwrap();
    assert_eq!(s.v[0xF], 1);
    assert!(s.gfx.iter().all(|&c| c == 0));
}

#[test]
fn sprite_wraps_each_axis_separately() {
    let mut s = Chip8State::new();
    s.i = 0x300;
    s.memory[0x300] = 0b1100_0000;
    s.memory[0x301] = 0b1000_0000;
    s.v[1] = 63;
    s.v[2] = 31;
    run(&mut s, 0xD122).unwrap();
    // Row 0 at y=31: x=63 and x=0 (wrapped on the same scanline).
    assert_eq!(s.gfx[31 * 64 + 63], 1);
    assert_eq!(s.gfx[31 * 64], 1);
    // Row 1 wraps to y=0, x=63.
    assert_eq!(s.gfx[63], 1);
    assert_eq!(s.gfx.iter().filter(|&&c| c == 1).count(), 3);
    assert_eq!(s.v[0xF], 0);
}

#[test]
fn sprite_reading_past_memory_is_fatal() {
    let mut s = Chip8State::new();
    s.i = 4095;
    let before = snapshot(&s);
    assert_eq!(
        run(&mut s, 0xD002),
        Err(Fault { kind: FaultKind::MemoryOutOfRange, opcode: 0xD002, pc: 0x200 })
    );
    assert_eq!(snapshot(&s), before);
}

#[test]
fn clear_screen_zeroes_framebuffer() {
    let mut s = Chip8State::new();
    s.gfx[5] = 1;
    s.gfx[2047] = 1;
    run(&mut s, 0x00E0).unwrap();
    assert!(s.gfx.iter().all(|&c| c == 0));
    assert_eq!(s.pc, 0x202);
}

#[test]
fn bcd_stores_three_digits() {
    let mut s = Chip8State::new();
    s.v[6] = 156;
    s.i = 0x300;
    run(&mut s, 0xF633).unwrap();
    assert_eq!(&s.memory[0x300..0x303], &[1, 5, 6]);
    assert_eq!(s.i, 0x300);
}

#[test]
fn bcd_past_memory_is_fatal() {
    let mut s = Chip8State::new();
    s.i = 4094;
    assert_eq!(run(&mut s, 0xF033).unwrap_err().kind, FaultKind::MemoryOutOfRange);
    assert_eq!(s.memory[4094], 0);
}

#[test]
fn store_and_load_registers() {
    let mut s = Chip8State::new();
    for k in 0..16 {
        s.v[k] = (k as u8) * 3 + 1;
    }
    s.i = 0x400;
    run(&mut s, 0xF355).unwrap();
    assert_eq!(&s.memory[0x400..0x405], &[1, 4, 7, 10, 0]);
    assert_eq!(s.i, 0x404);
    let mut t = Chip8State::new();
    t.memory[0x500] = 9;
    t.memory[0x501] = 8;
    t.memory[0x502] = 7;
    t.v[2] = 0x55;
    t.i = 0x500;
    run(&mut t, 0xF165).unwrap();
    assert_eq!(&t.v[0..3], &[9, 8, 0x55]);
    assert_eq!(t.i, 0x502);
}

#[test]
fn store_past_memory_is_fatal() {
    let mut s = Chip8State::new();
    s.i = 4090;
    assert_eq!(run(&mut s, 0xFF55).unwrap_err().kind, FaultKind::MemoryOutOfRange);
    assert_eq!(s.i, 4090);
}

#[test]
fn index_register_instructions() {
    let mut s = Chip8State::new();
    run(&mut s, 0xA123).unwrap();
    assert_eq!(s.i, 0x123);
    s.v[4] = 0x10;
    run(&mut s, 0xF41E).unwrap();
    assert_eq!(s.i, 0x133);
    s.v[4] = 0xF;
    run(&mut s, 0xF429).unwrap();
    assert_eq!(s.i, 75);
    s.i = 0xFFFF;
    s.v[4] = 2;
    run(&mut s, 0xF41E).unwrap();
    assert_eq!(s.i, 1);
}

#[test]
fn timers_set_read_and_tick() {
    let mut s = Chip8State::new();
    s.v[1] = 3;
    run(&mut s, 0xF115).unwrap();
    assert_eq!(s.delay_timer, 2);
    run(&mut s, 0xF118).unwrap();
    assert_eq!(s.sound_timer, 2);
    assert_eq!(s.delay_timer, 1);
    run(&mut s, 0xF207).unwrap();
    assert_eq!(s.v[2], 1);
    assert_eq!(s.delay_timer, 0);
}

#[test]
fn delay_timer_stops_at_zero() {
    let mut s = Chip8State::new();
    s.delay_timer = 1;
    s.sound_timer = 1;
    for _ in 0..5 {
        run(&mut s, 0x6000).unwrap();
        assert_eq!(s.delay_timer, 0);
        assert_eq!(s.sound_timer, 0);
    }
}

#[test]
fn wait_for_key_suspends_then_stores_code() {
    let mut s = Chip8State::new();
    s.gfx[3] = 1;
    s.delay_timer = 4;
    let before = snapshot(&s);
    assert_eq!(process_instruction(&mut s, 0xF50A, 0, None), Ok(StepOutcome::AwaitingKey));
    assert_eq!(snapshot(&s), before);
    assert_eq!(process_instruction(&mut s, 0xF50A, 0, Some(0xB)), Ok(StepOutcome::Executed));
    assert_eq!(s.v[5], 0xB);
    assert_eq!(s.pc, 0x202);
    assert_eq!(s.gfx[3], 1);
    assert_eq!(s.delay_timer, 3);
}

#[test]
fn wait_for_key_rejects_bad_code() {
    let mut s = Chip8State::new();
    assert_eq!(
        process_instruction(&mut s, 0xF50A, 0, Some(16)),
        Err(Fault { kind: FaultKind::KeyOutOfRange, opcode: 0xF50A, pc: 0x200 })
    );
    assert_eq!(s.v[5], 0);
}

#[test]
fn key_skips_follow_keypad() {
    let mut s = Chip8State::new();
    s.v[1] = 0xA;
    s.set_key(0xA, true);
    run(&mut s, 0xE19E).unwrap();
    assert_eq!(s.pc, 0x204);
    run(&mut s, 0xE1A1).unwrap();
    assert_eq!(s.pc, 0x206);
    s.set_key(0xA, false);
    run(&mut s, 0xE19E).unwrap();
    assert_eq!(s.pc, 0x208);
    run(&mut s, 0xE1A1).unwrap();
    assert_eq!(s.pc, 0x20C);
}

#[test]
fn key_skip_with_bad_code_is_fatal() {
    let mut s = Chip8State::new();
    s.v[1] = 0x10;
    assert_eq!(run(&mut s, 0xE19E).unwrap_err().kind, FaultKind::KeyOutOfRange);
    assert_eq!(s.pc, 0x200);
}

#[test]
fn unknown_opcode_is_fatal_and_changes_nothing() {
    let mut s = Chip8State::new();
    s.v[0] = 7;
    s.delay_timer = 9;
    let before = snapshot(&s);
    assert_eq!(
        run(&mut s, 0xF0FF),
        Err(Fault { kind: FaultKind::UnknownInstruction, opcode: 0xF0FF, pc: 0x200 })
    );
    assert_eq!(snapshot(&s), before);
}

#[test]
fn pc_past_memory_is_fatal() {
    let mut s = Chip8State::new();
    s.pc = 4095;
    assert_eq!(
        step(&mut s, None),
        Err(Fault { kind: FaultKind::PcOutOfRange, opcode: 0, pc: 4095 })
    );
    assert_eq!(run(&mut s, 0x6001).unwrap_err().kind, FaultKind::PcOutOfRange);
    assert_eq!(s.v[0], 0);
}

#[test]
fn random_uses_given_byte_masked() {
    let mut s = Chip8State::new();
    process_instruction(&mut s, 0xC30F, 0xAB, None).unwrap();
    assert_eq!(s.v[3], 0x0B);
    let mut t = Chip8State::new();
    assert_eq!(execute_instruction(&mut t, Instruction::Random { x: 3, kk: 0xF0 }, 0xAB, 0), Ok(()));
    assert_eq!(t.v[3], 0xA0);
}

#[test]
fn step_fetches_and_runs_program() {
    let mut s = Chip8State::new();
    s.load_rom(&[0x61, 0x2A, 0xC2, 0x0F, 0x12, 0x00]);
    assert_eq!(step(&mut s, None), Ok(StepOutcome::Executed));
    assert_eq!(s.v[1], 0x2A);
    assert_eq!(step(&mut s, None), Ok(StepOutcome::Executed));
    assert!(s.v[2] <= 0x0F);
    assert_eq!(s.pc, 0x204);
    assert_eq!(step(&mut s, None), Ok(StepOutcome::Executed));
    assert_eq!(s.pc, 0x200);
}

#[test]
fn keypad_layout_maps_keys() {
    assert_eq!(keypad_code('1'), Some(0x1));
    assert_eq!(keypad_code('4'), Some(0xC));
    assert_eq!(keypad_code('q'), Some(0x4));
    assert_eq!(keypad_code('R'), Some(0xD));
    assert_eq!(keypad_code('x'), Some(0x0));
    assert_eq!(keypad_code('V'), Some(0xF));
    assert_eq!(keypad_code('5'), None);
    assert_eq!(keypad_code('g'), None);
}
