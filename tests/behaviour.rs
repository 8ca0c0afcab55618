use chip8::{
    decode, Instruction, Mode, Processor, FONT_START, MAX_PROGRAM_SIZE, PC_START, STACK_SIZE,
    TIMER_PERIOD_MICROS, VF, VRAM_SIZE_BYTE, VRAM_START,
};

fn wait_millis(ms: u64) {
    let start = std::time::Instant::now();
    while start.elapsed() < std::time::Duration::from_millis(ms) {}
}

fn load_sprite(processor: &mut Processor, at: usize, rows: &[u8]) {
    for (k, row) in rows.iter().enumerate() {
        processor.ram[at + k] = *row;
    }
}

#[test]
fn new_loads_font_and_program() {
    let processor = Processor::new(vec![0x12, 0x34, 0x56]);
    assert_eq!(processor.ram[FONT_START], 0xF0);
    assert_eq!(processor.ram[FONT_START + 79], 0x80);
    assert_eq!(processor.ram[PC_START], 0x12);
    assert_eq!(processor.ram[PC_START + 2], 0x56);
    assert_eq!(processor.ram[PC_START + 3], 0);
    assert_eq!(processor.pc, PC_START);
    assert_eq!(processor.sp, 0);
    assert!(!processor.halt);
    assert_eq!(processor.mode, Mode::Running);
}

#[test]
fn new_leaves_out_what_does_not_fit() {
    let rom: Vec<u8> = (0..4000u32).map(|k| (k % 251) as u8 + 1).collect();
    let processor = Processor::new(rom.clone());
    assert_eq!(processor.ram[4095], rom[MAX_PROGRAM_SIZE - 1]);
    assert_eq!(processor.ram[PC_START], rom[0]);
    assert_eq!(processor.ram[FONT_START], 0xF0);
}

#[test]
fn decode_picks_fields() {
    assert_eq!(decode(0x8574), Instruction::Add { x: 5, y: 7 });
    assert_eq!(decode(0xd12f), Instruction::Draw { x: 1, y: 2, n: 15 });
    assert_eq!(decode(0xb123), Instruction::JumpOffset { addr: 0x123 });
    assert_eq!(decode(0xf365), Instruction::LoadRegisters { x: 3 });
    assert_eq!(decode(0x8578), Instruction::Unknown);
    assert_eq!(decode(0x0123), Instruction::Unknown);
    assert_eq!(decode(0xe3ff), Instruction::Unknown);
}

#[test]
fn unknown_code_only_advances_pc() {
    let mut processor = Processor::new(vec![]);
    processor.v[5] = 9;
    processor.execute_opcode(0x8578);
    assert_eq!(processor.pc, 0x202);
    assert_eq!(processor.v[5], 9);
    processor.execute_opcode(0xf3ff);
    assert_eq!(processor.pc, 0x204);
}

#[test]
fn pc_wraps_at_end_of_memory() {
    let mut processor = Processor::new(vec![]);
    processor.pc = 0xffe;
    processor.execute_opcode(0x6001);
    assert_eq!(processor.pc, 0);
    processor.pc = 0xffe;
    processor.v[1] = 1;
    processor.execute_opcode(0x3101);
    assert_eq!(processor.pc, 2);
}

#[test]
fn call_then_return_resumes_after_call() {
    let mut processor = Processor::new(vec![]);
    processor.pc = 0x240;
    processor.execute_opcode(0x2300);
    assert_eq!(processor.pc, 0x300);
    assert_eq!(processor.sp, 1);
    processor.execute_opcode(0x00ee);
    assert_eq!(processor.pc, 0x242);
    assert_eq!(processor.sp, 0);
}

#[test]
fn call_on_full_stack_halts() {
    let mut processor = Processor::new(vec![]);
    for _ in 0..STACK_SIZE {
        processor.execute_opcode(0x2400);
    }
    assert_eq!(processor.sp, STACK_SIZE);
    assert!(!processor.halt);
    processor.execute_opcode(0x2500);
    assert!(processor.halt);
    assert_eq!(processor.sp, STACK_SIZE);
    assert_eq!(processor.pc, 0x400);
}

#[test]
fn return_on_empty_stack_halts() {
    let mut processor = Processor::new(vec![]);
    processor.execute_opcode(0x00ee);
    assert!(processor.halt);
    assert_eq!(processor.pc, 0x200);
    assert_eq!(processor.sp, 0);
}

#[test]
fn add_carry_and_no_carry() {
    let mut processor = Processor::new(vec![]);
    processor.v[1] = 0xfe;
    processor.v[2] = 0x03;
    processor.execute_opcode(0x8124);
    assert_eq!((processor.v[1], processor.v[VF]), (0x01, 1));
    processor.v[1] = 0x0e;
    processor.v[2] = 0x03;
    processor.execute_opcode(0x8124);
    assert_eq!((processor.v[1], processor.v[VF]), (0x11, 0));
}

#[test]
fn sub_borrow_convention() {
    let mut processor = Processor::new(vec![]);
    processor.v[1] = 0x01;
    processor.v[2] = 0x02;
    processor.execute_opcode(0x8125);
    assert_eq!((processor.v[1], processor.v[VF]), (0xff, 0));
    processor.v[1] = 0x01;
    processor.v[2] = 0x01;
    processor.execute_opcode(0x8125);
    assert_eq!((processor.v[1], processor.v[VF]), (0x00, 1));
}

#[test]
fn sub_reversed_with_borrow() {
    let mut processor = Processor::new(vec![]);
    processor.v[1] = 0x05;
    processor.v[2] = 0x03;
    processor.execute_opcode(0x8127);
    assert_eq!((processor.v[1], processor.v[VF]), (0xfe, 0));
}

#[test]
fn shifts_report_evicted_bit() {
    let mut processor = Processor::new(vec![]);
    processor.v[4] = 0x03;
    processor.execute_opcode(0x8406);
    assert_eq!((processor.v[4], processor.v[VF]), (0x01, 1));
    processor.v[4] = 0x81;
    processor.execute_opcode(0x840e);
    assert_eq!((processor.v[4], processor.v[VF]), (0x02, 1));
    processor.v[4] = 0x40;
    processor.execute_opcode(0x840e);
    assert_eq!((processor.v[4], processor.v[VF]), (0x80, 0));
}

#[test]
fn add_immediate_wraps_without_flag() {
    let mut processor = Processor::new(vec![]);
    processor.v[2] = 0xff;
    processor.v[VF] = 7;
    processor.execute_opcode(0x7202);
    assert_eq!(processor.v[2], 0x01);
    assert_eq!(processor.v[VF], 7);
}

#[test]
fn xor_registers() {
    let mut processor = Processor::new(vec![]);
    processor.v[1] = 0b1100;
    processor.v[2] = 0b1010;
    processor.execute_opcode(0x8123);
    assert_eq!(processor.v[1], 0b0110);
}

#[test]
fn random_is_masked() {
    let mut processor = Processor::new(vec![]);
    processor.execute(0xc10f, 0xab);
    assert_eq!(processor.v[1], 0x0b);
    assert_eq!(processor.pc, 0x202);
    processor.execute_opcode(0xc100);
    assert_eq!(processor.v[1], 0);
}

#[test]
fn bcd_of_123() {
    let mut processor = Processor::new(vec![]);
    processor.v[6] = 123;
    processor.i = 0x400;
    processor.execute_opcode(0xf633);
    assert_eq!(&processor.ram[0x400..0x403], &[1, 2, 3]);
    assert_eq!(processor.i, 0x400);
}

#[test]
fn bcd_wraps_around_memory() {
    let mut processor = Processor::new(vec![]);
    processor.v[6] = 255;
    processor.i = 0xfff;
    processor.execute_opcode(0xf633);
    assert_eq!(processor.ram[0xfff], 2);
    assert_eq!(processor.ram[0], 5);
    assert_eq!(processor.ram[1], 5);
}

#[test]
fn add_index_wraps() {
    let mut processor = Processor::new(vec![]);
    processor.i = 0xfff;
    processor.v[2] = 2;
    processor.execute_opcode(0xf21e);
    assert_eq!(processor.i, 1);
}

#[test]
fn block_transfer_round_trip() {
    let mut processor = Processor::new(vec![]);
    for k in 0..16 {
        processor.v[k] = (k as u8) * 3 + 1;
    }
    processor.i = 0x500;
    processor.execute_opcode(0xf555);
    for k in 0..16 {
        processor.v[k] = 0xee;
    }
    processor.execute_opcode(0xf565);
    for k in 0..=5 {
        assert_eq!(processor.v[k], (k as u8) * 3 + 1);
    }
    assert_eq!(processor.v[6], 0xee);
    assert_eq!(processor.i, 0x500);
    assert_eq!(processor.ram[0x506], 0);
}

#[test]
fn font_glyph_address() {
    let mut processor = Processor::new(vec![]);
    processor.v[2] = 0xf;
    processor.execute_opcode(0xf229);
    assert_eq!(processor.i, FONT_START + 75);
    assert_eq!(processor.ram[processor.i], 0xF0);
}

#[test]
fn draw_twice_collides_and_clears() {
    let mut processor = Processor::new(vec![]);
    processor.v[1] = 62;
    processor.v[2] = 30;
    processor.i = 0x300;
    load_sprite(&mut processor, 0x300, &[0x81, 0xff, 0x18]);
    processor.execute_opcode(0xd123);
    assert_eq!(processor.v[VF], 0);
    assert!(processor.screen().iter().any(|b| *b != 0));
    processor.execute_opcode(0xd123);
    assert_eq!(processor.v[VF], 1);
    assert!(processor.screen().iter().all(|b| *b == 0));
}

#[test]
fn draw_wraps_columns_per_pixel() {
    let mut processor = Processor::new(vec![]);
    processor.v[1] = 60;
    processor.v[2] = 0;
    processor.i = 0x300;
    load_sprite(&mut processor, 0x300, &[0xff]);
    processor.execute_opcode(0xd121);
    assert_eq!(processor.ram[VRAM_START + 7], 0x0f);
    assert_eq!(processor.ram[VRAM_START], 0xf0);
}

#[test]
fn draw_wraps_rows() {
    let mut processor = Processor::new(vec![]);
    processor.v[1] = 0;
    processor.v[2] = 31;
    processor.i = 0x300;
    load_sprite(&mut processor, 0x300, &[0x80, 0x40]);
    processor.execute_opcode(0xd122);
    assert_eq!(processor.ram[VRAM_START + 31 * 8], 0x80);
    assert_eq!(processor.ram[VRAM_START], 0x40);
}

#[test]
fn lit_pixel_under_dark_bit_is_no_collision() {
    let mut processor = Processor::new(vec![]);
    processor.ram[VRAM_START] = 0x0f;
    processor.i = 0x300;
    load_sprite(&mut processor, 0x300, &[0xf0]);
    processor.execute_opcode(0xd011);
    assert_eq!(processor.v[VF], 0);
    assert_eq!(processor.ram[VRAM_START], 0xff);
}

#[test]
fn clear_screen_zeroes_display_only() {
    let mut processor = Processor::new(vec![]);
    for k in 0..VRAM_SIZE_BYTE {
        processor.ram[VRAM_START + k] = 0xff;
    }
    processor.ram[VRAM_START - 1] = 0x77;
    processor.execute_opcode(0x00e0);
    assert!(processor.screen().iter().all(|b| *b == 0));
    assert_eq!(processor.screen().len(), VRAM_SIZE_BYTE);
    assert_eq!(processor.ram[VRAM_START - 1], 0x77);
    assert_eq!(processor.pc, 0x202);
}

#[test]
fn screen_copies_display_buffer() {
    let mut processor = Processor::new(vec![]);
    processor.ram[VRAM_START] = 0x12;
    processor.ram[VRAM_START + 255] = 0x34;
    let screen = processor.screen();
    assert_eq!(screen.len(), 256);
    assert_eq!(screen[0], 0x12);
    assert_eq!(screen[255], 0x34);
}

#[test]
fn waiting_without_key_changes_nothing() {
    let mut processor = Processor::new(vec![0xf3, 0x0a]);
    processor.delay_timer = 40;
    processor.sound_timer = 40;
    processor.tick();
    assert_eq!(processor.mode, Mode::AwaitingKey { target: 3 });
    assert_eq!(processor.pc, 0x200);
    wait_millis(40);
    for _ in 0..5 {
        processor.tick();
    }
    assert_eq!(processor.pc, 0x200);
    assert_eq!(processor.delay_timer, 40);
    assert_eq!(processor.sound_timer, 40);
    assert_eq!(processor.mode, Mode::AwaitingKey { target: 3 });
}

#[test]
fn key_press_ends_wait_with_lowest_key() {
    let mut processor = Processor::new(vec![0xf3, 0x0a]);
    processor.tick();
    processor.key_pressed(9);
    processor.key_pressed(4);
    processor.resume_key_wait();
    assert_eq!(processor.v[3], 4);
    assert_eq!(processor.pc, 0x202);
    assert_eq!(processor.mode, Mode::Running);
    processor.resume_key_wait();
    assert_eq!(processor.pc, 0x202);
}

#[test]
fn key_released_clears_key() {
    let mut processor = Processor::new(vec![]);
    processor.key_pressed(7);
    assert!(processor.key_state[7]);
    processor.key_released(7);
    assert!(!processor.key_state[7]);
    assert_eq!(processor.first_pressed_key(), 16);
    processor.key_pressed(15);
    assert_eq!(processor.first_pressed_key(), 15);
}

#[test]
fn key_skip_with_register_beyond_keypad() {
    let mut processor = Processor::new(vec![]);
    processor.v[3] = 200;
    processor.execute_opcode(0xe39e);
    assert_eq!(processor.pc, 0x202);
    processor.execute_opcode(0xe3a1);
    assert_eq!(processor.pc, 0x206);
}

#[test]
fn self_jump_halts() {
    let mut processor = Processor::new(vec![0x12, 0x00]);
    processor.tick();
    assert!(processor.halt);
    assert_eq!(processor.pc, 0x200);
    processor.tick();
    assert!(processor.halt);
    assert_eq!(processor.pc, 0x200);
}

#[test]
fn jump_elsewhere_does_not_halt() {
    let mut processor = Processor::new(vec![0x12, 0x04]);
    processor.tick();
    assert!(!processor.halt);
    assert_eq!(processor.pc, 0x204);
}

#[test]
fn timers_count_down_at_sixty_hertz() {
    let mut processor = Processor::new(vec![]);
    processor.delay_timer = 5;
    processor.sound_timer = 1;
    assert!(!processor.decay_timers(TIMER_PERIOD_MICROS - 1));
    assert_eq!((processor.delay_timer, processor.sound_timer), (5, 1));
    assert!(processor.decay_timers(TIMER_PERIOD_MICROS));
    assert_eq!((processor.delay_timer, processor.sound_timer), (4, 0));
    assert!(processor.decay_timers(1_000_000));
    assert_eq!((processor.delay_timer, processor.sound_timer), (3, 0));
    processor.delay_timer = 0;
    assert!(!processor.decay_timers(1_000_000));
}

#[test]
fn tick_fetches_big_endian() {
    let mut processor = Processor::new(vec![0x6a, 0x42]);
    assert_eq!(processor.fetch(), 0x6a42);
    processor.tick();
    assert_eq!(processor.v[0xa], 0x42);
    assert_eq!(processor.pc, 0x202);
}

#[test]
fn tick_counts_timer_after_period() {
    let mut processor = Processor::new(vec![0x60, 0x01, 0x60, 0x02]);
    processor.delay_timer = 10;
    wait_millis(20);
    processor.tick();
    assert_eq!(processor.delay_timer, 9);
    processor.tick();
    assert_eq!(processor.delay_timer, 9);
}
