use chip8::cpu::{CpuFault, CPU, MEMORY_SIZE, PROGRAM_START, VF};
use chip8::display::font_set;

const NO_KEYS: [bool; 16] = [false; 16];

fn loaded(program: &[u8]) -> CPU {
    let mut cpu = CPU::new();
    cpu.initialize(program);
    cpu
}

fn run(cpu: &mut CPU, op: u16) -> Result<(), CpuFault> {
    cpu.opcode = op;
    cpu.decode_opcode(0)
}

#[test]
fn new_is_all_zero() {
    let cpu = CPU::new();
    assert_eq!(cpu.pc, 0);
    assert_eq!(cpu.sp, 0);
    assert!(cpu.memory.iter().all(|&b| b == 0));
    assert!(!cpu.draw_flag);
    assert!(!cpu.key_wait);
}

#[test]
fn initialize_lays_out_memory() {
    let cpu = loaded(&[0xAB, 0xCD]);
    assert_eq!(cpu.pc, PROGRAM_START);
    assert_eq!(&cpu.memory[0..80], &font_set()[..]);
    assert_eq!(cpu.memory[79], 0x80);
    assert_eq!(cpu.memory[0x200], 0xAB);
    assert_eq!(cpu.memory[0x201], 0xCD);
    assert_eq!(cpu.memory[0x202], 0);
    assert_eq!(cpu.memory[80], 0);
}

#[test]
fn initialize_truncates_long_program() {
    let program = vec![7u8; 5000];
    let cpu = loaded(&program);
    assert_eq!(cpu.memory[MEMORY_SIZE - 1], 7);
    assert_eq!(cpu.memory[0x1FF], 0);
}

#[test]
fn initialize_clears_registers_and_timers() {
    let mut cpu = CPU::new();
    cpu.v[3] = 9;
    cpu.delay_timer = 5;
    cpu.sound_timer = 6;
    cpu.sp = 2;
    cpu.i = 0x300;
    cpu.initialize(&[]);
    assert_eq!(cpu.v[3], 0);
    assert_eq!(cpu.delay_timer, 0);
    assert_eq!(cpu.sound_timer, 0);
    assert_eq!(cpu.sp, 0);
    assert_eq!(cpu.i, 0);
}

#[test]
fn add_sets_carry() {
    let mut cpu = loaded(&[]);
    cpu.v[1] = 200;
    cpu.v[2] = 100;
    run(&mut cpu, 0x8124).unwrap();
    assert_eq!(cpu.v[1], 44);
    assert_eq!(cpu.v[VF], 1);
    cpu.v[1] = 100;
    cpu.v[2] = 155;
    run(&mut cpu, 0x8124).unwrap();
    assert_eq!(cpu.v[1], 255);
    assert_eq!(cpu.v[VF], 0);
}

#[test]
fn sub_sets_borrow() {
    let mut cpu = loaded(&[]);
    cpu.v[1] = 5;
    cpu.v[2] = 10;
    run(&mut cpu, 0x8125).unwrap();
    assert_eq!(cpu.v[1], 251);
    assert_eq!(cpu.v[VF], 0);
    cpu.v[1] = 10;
    cpu.v[2] = 10;
    run(&mut cpu, 0x8125).unwrap();
    assert_eq!(cpu.v[1], 0);
    assert_eq!(cpu.v[VF], 1);
}

#[test]
fn reverse_sub_sets_borrow() {
    let mut cpu = loaded(&[]);
    cpu.v[1] = 10;
    cpu.v[2] = 3;
    run(&mut cpu, 0x8127).unwrap();
    assert_eq!(cpu.v[1], 249);
    assert_eq!(cpu.v[VF], 0);
}

#[test]
fn shift_right_takes_vy() {
    let mut cpu = loaded(&[]);
    cpu.v[1] = 0b0000_0011;
    cpu.v[2] = 0b1000_0000;
    run(&mut cpu, 0x8126).unwrap();
    assert_eq!(cpu.v[1], 0b0100_0000);
    assert_eq!(cpu.v[VF], 1);
}

#[test]
fn shift_left_sets_msb_flag() {
    let mut cpu = loaded(&[]);
    cpu.v[1] = 0b1000_0001;
    run(&mut cpu, 0x810E).unwrap();
    assert_eq!(cpu.v[1], 0b0000_0010);
    assert_eq!(cpu.v[VF], 1);
}

#[test]
fn bitwise_ops() {
    let mut cpu = loaded(&[]);
    cpu.v[1] = 0b1100;
    cpu.v[2] = 0b1010;
    run(&mut cpu, 0x8121).unwrap();
    assert_eq!(cpu.v[1], 0b1110);
    cpu.v[1] = 0b1100;
    run(&mut cpu, 0x8122).unwrap();
    assert_eq!(cpu.v[1], 0b1000);
    cpu.v[1] = 0b1100;
    run(&mut cpu, 0x8123).unwrap();
    assert_eq!(cpu.v[1], 0b0110);
    run(&mut cpu, 0x8120).unwrap();
    assert_eq!(cpu.v[1], 0b1010);
}

#[test]
fn add_immediate_wraps() {
    let mut cpu = loaded(&[]);
    run(&mut cpu, 0x63F0).unwrap();
    run(&mut cpu, 0x7320).unwrap();
    assert_eq!(cpu.v[3], 0x10);
    assert_eq!(cpu.pc, PROGRAM_START + 4);
}

#[test]
fn skips_advance_four_or_two() {
    let mut cpu = loaded(&[]);
    cpu.v[1] = 7;
    cpu.v[2] = 7;
    let cases: [(u16, usize); 6] = [
        (0x3107, 4),
        (0x3108, 2),
        (0x4107, 2),
        (0x4108, 4),
        (0x5120, 4),
        (0x9120, 2),
    ];
    for (op, d) in cases {
        cpu.pc = 0x300;
        run(&mut cpu, op).unwrap();
        assert_eq!(cpu.pc, 0x300 + d, "opcode {:X}", op);
    }
}

#[test]
fn key_skips() {
    let mut cpu = loaded(&[]);
    cpu.v[4] = 0xA;
    cpu.keypad[0xA] = true;
    cpu.pc = 0x300;
    run(&mut cpu, 0xE49E).unwrap();
    assert_eq!(cpu.pc, 0x304);
    run(&mut cpu, 0xE4A1).unwrap();
    assert_eq!(cpu.pc, 0x306);
    cpu.keypad[0xA] = false;
    run(&mut cpu, 0xE4A1).unwrap();
    assert_eq!(cpu.pc, 0x30A);
}

#[test]
fn key_index_past_keypad_is_not_pressed() {
    let mut cpu = loaded(&[]);
    cpu.v[4] = 0x20;
    cpu.keypad = [true; 16];
    cpu.pc = 0x300;
    run(&mut cpu, 0xE49E).unwrap();
    assert_eq!(cpu.pc, 0x302);
    run(&mut cpu, 0xE4A1).unwrap();
    assert_eq!(cpu.pc, 0x306);
}

#[test]
fn call_and_return() {
    let mut cpu = loaded(&[0x23, 0x00]);
    cpu.emulate_cycle_with(NO_KEYS, 0).unwrap();
    assert_eq!(cpu.pc, 0x300);
    assert_eq!(cpu.sp, 1);
    assert_eq!(cpu.stack[0], 0x202);
    run(&mut cpu, 0x00EE).unwrap();
    assert_eq!(cpu.pc, 0x202);
    assert_eq!(cpu.sp, 0);
}

#[test]
fn return_on_empty_stack_faults() {
    let mut cpu = loaded(&[]);
    assert_eq!(run(&mut cpu, 0x00EE), Err(CpuFault::StackUnderflow));
    assert_eq!(cpu.pc, PROGRAM_START);
}

#[test]
fn call_on_full_stack_faults() {
    let mut cpu = loaded(&[]);
    for _ in 0..16 {
        run(&mut cpu, 0x2400).unwrap();
    }
    assert_eq!(cpu.sp, 16);
    assert_eq!(run(&mut cpu, 0x2400), Err(CpuFault::StackOverflow));
    assert_eq!(cpu.sp, 16);
}

#[test]
fn unknown_opcodes_fault() {
    let mut cpu = loaded(&[]);
    for op in [0x8128u16, 0xE100, 0xF1FF] {
        assert_eq!(run(&mut cpu, op), Err(CpuFault::UnknownOpcode(op)));
        assert_eq!(cpu.pc, PROGRAM_START);
    }
}

#[test]
fn memory_past_end_faults() {
    let mut cpu = loaded(&[]);
    cpu.i = 0xFFE;
    assert_eq!(run(&mut cpu, 0xF033), Err(CpuFault::MemoryOutOfRange));
    assert_eq!(run(&mut cpu, 0xF255), Err(CpuFault::MemoryOutOfRange));
    assert_eq!(run(&mut cpu, 0xF265), Err(CpuFault::MemoryOutOfRange));
    assert_eq!(run(&mut cpu, 0xD003), Err(CpuFault::MemoryOutOfRange));
    cpu.pc = 0xFFF;
    assert_eq!(cpu.emulate_cycle_with(NO_KEYS, 0), Err(CpuFault::MemoryOutOfRange));
}

#[test]
fn jumps() {
    let mut cpu = loaded(&[]);
    run(&mut cpu, 0x1ABC).unwrap();
    assert_eq!(cpu.pc, 0xABC);
    cpu.v[0] = 0x10;
    run(&mut cpu, 0xB300).unwrap();
    assert_eq!(cpu.pc, 0x310);
    run(&mut cpu, 0x0123).unwrap();
    assert_eq!(cpu.pc, 0x312);
}

#[test]
fn index_ops() {
    let mut cpu = loaded(&[]);
    run(&mut cpu, 0xA123).unwrap();
    assert_eq!(cpu.i, 0x123);
    cpu.v[5] = 0x10;
    run(&mut cpu, 0xF51E).unwrap();
    assert_eq!(cpu.i, 0x133);
    cpu.i = 0xFFFF;
    run(&mut cpu, 0xF51E).unwrap();
    assert_eq!(cpu.i, 0x0F);
    cpu.v[5] = 0xF;
    run(&mut cpu, 0xF529).unwrap();
    assert_eq!(cpu.i, 75);
}

#[test]
fn bcd_of_156() {
    let mut cpu = loaded(&[]);
    cpu.v[3] = 156;
    cpu.i = 0x300;
    run(&mut cpu, 0xF333).unwrap();
    assert_eq!(&cpu.memory[0x300..0x303], &[1, 5, 6]);
    assert_eq!(cpu.i, 0x300);
}

#[test]
fn store_and_load_registers() {
    let mut cpu = loaded(&[]);
    for k in 0..16 {
        cpu.v[k] = k as u8 + 1;
    }
    cpu.i = 0x300;
    run(&mut cpu, 0xF355).unwrap();
    assert_eq!(&cpu.memory[0x300..0x305], &[1, 2, 3, 4, 0]);
    assert_eq!(cpu.i, 0x300);
    cpu.v = [0; 16];
    run(&mut cpu, 0xF265).unwrap();
    assert_eq!(&cpu.v[0..4], &[1, 2, 3, 0]);
    assert_eq!(cpu.i, 0x300);
}

#[test]
fn timers_and_registers() {
    let mut cpu = loaded(&[]);
    cpu.v[2] = 3;
    run(&mut cpu, 0xF215).unwrap();
    run(&mut cpu, 0xF218).unwrap();
    assert_eq!(cpu.delay_timer, 3);
    assert_eq!(cpu.sound_timer, 3);
    cpu.decrement_timers();
    run(&mut cpu, 0xF407).unwrap();
    assert_eq!(cpu.v[4], 2);
    assert_eq!(cpu.sound_timer, 2);
    for _ in 0..5 {
        cpu.decrement_timers();
    }
    assert_eq!(cpu.delay_timer, 0);
    assert_eq!(cpu.sound_timer, 0);
}

#[test]
fn random_byte_is_masked() {
    let mut cpu = loaded(&[]);
    cpu.opcode = 0xC30F;
    cpu.decode_opcode(0xAB).unwrap();
    assert_eq!(cpu.v[3], 0x0B);
}

#[test]
fn random_byte_stays_below_255() {
    let program: Vec<u8> = [0xC3u8, 0xFF].repeat(1000);
    let mut cpu = loaded(&program);
    for _ in 0..1000 {
        cpu.emulate_cycle(NO_KEYS).unwrap();
        assert!(cpu.v[3] < 255);
    }
}

#[test]
fn draw_twice_restores_screen() {
    let mut cpu = loaded(&[]);
    cpu.v[1] = 62;
    cpu.v[2] = 30;
    cpu.i = 0;
    run(&mut cpu, 0xD125).unwrap();
    assert_eq!(cpu.v[VF], 0);
    assert!(cpu.draw_flag);
    // glyph 0 wraps onto the left edge and the top rows
    assert_eq!(cpu.gfx[30][62], 1);
    assert_eq!(cpu.gfx[30][1], 1);
    assert_eq!(cpu.gfx[0][1], 1);
    assert_eq!(cpu.gfx[0][0], 0);
    assert_eq!(cpu.gfx[1][62], 1);
    run(&mut cpu, 0xD125).unwrap();
    assert_eq!(cpu.v[VF], 1);
    assert!(cpu.gfx.iter().all(|row| row.iter().all(|&p| p == 0)));
}

#[test]
fn draw_with_no_rows_changes_nothing() {
    let mut cpu = loaded(&[]);
    cpu.v[VF] = 1;
    run(&mut cpu, 0xD120).unwrap();
    assert_eq!(cpu.v[VF], 0);
    assert!(cpu.draw_flag);
    assert!(cpu.gfx.iter().all(|row| row.iter().all(|&p| p == 0)));
}

#[test]
fn key_wait_blocks_until_press() {
    let mut cpu = loaded(&[0xF5, 0x0A, 0x65, 0x01]);
    cpu.emulate_cycle_with(NO_KEYS, 0).unwrap();
    assert!(cpu.key_wait);
    assert_eq!(cpu.pc, 0x202);
    for _ in 0..3 {
        cpu.emulate_cycle_with(NO_KEYS, 0).unwrap();
        assert_eq!(cpu.pc, 0x202);
        assert!(cpu.key_wait);
    }
    let mut keys = NO_KEYS;
    keys[3] = true;
    keys[9] = true;
    cpu.emulate_cycle_with(keys, 0).unwrap();
    assert!(!cpu.key_wait);
    assert_eq!(cpu.v[5], 9);
    assert_eq!(cpu.pc, 0x202);
    cpu.emulate_cycle_with(NO_KEYS, 0).unwrap();
    assert_eq!(cpu.v[5], 1);
}

#[test]
fn clear_then_jump_loop() {
    let mut cpu = loaded(&[0x00, 0xE0, 0x12, 0x00]);
    cpu.gfx[5][5] = 1;
    cpu.emulate_cycle_with(NO_KEYS, 0).unwrap();
    assert!(cpu.draw_flag);
    assert!(cpu.gfx.iter().all(|row| row.iter().all(|&p| p == 0)));
    cpu.draw_flag = false;
    cpu.emulate_cycle_with(NO_KEYS, 0).unwrap();
    assert_eq!(cpu.pc, PROGRAM_START);
    assert!(!cpu.draw_flag);
    for _ in 0..100 {
        cpu.emulate_cycle_with(NO_KEYS, 0).unwrap();
        assert!(cpu.gfx.iter().all(|row| row.iter().all(|&p| p == 0)));
        assert!(cpu.pc == PROGRAM_START || cpu.pc == PROGRAM_START + 2);
    }
}

#[test]
fn draws_glyph_two() {
    let mut cpu = loaded(&[0x6A, 0x02, 0xFA, 0x29, 0xD0, 0x01]);
    for _ in 0..3 {
        cpu.emulate_cycle_with(NO_KEYS, 0).unwrap();
    }
    assert_eq!(cpu.i, 10);
    assert_eq!(cpu.memory[10], 0xF0);
    assert_eq!(&cpu.gfx[0][0..8], &[1, 1, 1, 1, 0, 0, 0, 0]);
    assert!(cpu.gfx[1..].iter().all(|row| row.iter().all(|&p| p == 0)));
    assert_eq!(cpu.v[VF], 0);
    assert!(cpu.draw_flag);
    assert_eq!(cpu.pc, 0x206);
}
