use chip8::{Chip8Error, Emulator, SCREEN_SIZE};

fn machine_with(program: &[u8]) -> Emulator {
    let mut e = Emulator::new();
    e.load_rom(program).unwrap();
    e
}

fn run_cycles(e: &mut Emulator, n: usize) {
    for _ in 0..n {
        e.cycle_with_random_byte(0).unwrap();
    }
}

#[test]
fn new_machine_starts_at_program_start() {
    let e = Emulator::new();
    assert_eq!(e.program_counter(), 0x200);
    assert_eq!(e.i_register(), 0);
    assert_eq!(e.stack_depth(), 0);
    assert_eq!(e.delay_timer(), 0);
    assert_eq!(e.sound_timer(), 0);
    assert!(e.get_display().iter().all(|p| !p));
    assert_eq!(e.get_display().len(), SCREEN_SIZE);
    assert_eq!(e.memory_byte(0), Ok(0xF0));
    assert_eq!(e.memory_byte(5), Ok(0x20));
    assert_eq!(e.memory_byte(79), Ok(0x80));
    assert_eq!(e.memory_byte(80), Ok(0));
}

#[test]
fn jump_sets_counter_to_target() {
    let mut e = machine_with(&[0x12, 0x34]);
    e.cycle_with_random_byte(0).unwrap();
    assert_eq!(e.program_counter(), 0x234);
}

#[test]
fn plain_instruction_advances_counter_by_two() {
    let mut e = machine_with(&[0x60, 0x05, 0x00, 0x00]);
    e.cycle_with_random_byte(0).unwrap();
    assert_eq!(e.program_counter(), 0x202);
    e.cycle_with_random_byte(0).unwrap();
    assert_eq!(e.program_counter(), 0x204);
}

#[test]
fn call_and_return() {
    // 200: call 206; 202: nop; 204: nop; 206: return
    let mut e = machine_with(&[0x22, 0x06, 0x00, 0x00, 0x00, 0x00, 0x00, 0xEE]);
    e.cycle_with_random_byte(0).unwrap();
    assert_eq!(e.program_counter(), 0x206);
    assert_eq!(e.stack_depth(), 1);
    e.cycle_with_random_byte(0).unwrap();
    assert_eq!(e.program_counter(), 0x202);
    assert_eq!(e.stack_depth(), 0);
}

#[test]
fn skips_taken_and_not_taken() {
    // V0 := 7; skip if V0 == 7 (taken); ...; skip if V0 != 7 (not taken)
    let mut e = machine_with(&[0x60, 0x07, 0x30, 0x07, 0x00, 0x00, 0x40, 0x07]);
    run_cycles(&mut e, 2);
    assert_eq!(e.program_counter(), 0x206);
    e.cycle_with_random_byte(0).unwrap();
    assert_eq!(e.program_counter(), 0x208);
}

#[test]
fn register_skips() {
    // V0 := 3; V1 := 3; skip if V0 == V1 (taken); ...; skip if V0 != V1 (not taken)
    let mut e = machine_with(&[0x60, 0x03, 0x61, 0x03, 0x50, 0x10, 0x00, 0x00, 0x90, 0x10]);
    run_cycles(&mut e, 3);
    assert_eq!(e.program_counter(), 0x208);
    e.cycle_with_random_byte(0).unwrap();
    assert_eq!(e.program_counter(), 0x20A);
}

#[test]
fn jump_plus_v0() {
    let mut e = machine_with(&[0x60, 0x10, 0xB3, 0x00]);
    run_cycles(&mut e, 2);
    assert_eq!(e.program_counter(), 0x310);
}

#[test]
fn add_immediate_wraps() {
    let mut e = machine_with(&[0x60, 250, 0x70, 10]);
    run_cycles(&mut e, 2);
    assert_eq!(e.v_register(0), 4);
}

#[test]
fn add_with_carry_sets_flag() {
    let mut e = machine_with(&[0x60, 200, 0x61, 100, 0x80, 0x14]);
    run_cycles(&mut e, 3);
    assert_eq!(e.v_register(0), 44);
    assert_eq!(e.v_register(0xF), 1);
}

#[test]
fn add_without_carry_clears_flag() {
    let mut e = machine_with(&[0x6F, 0x01, 0x60, 10, 0x61, 20, 0x80, 0x14]);
    run_cycles(&mut e, 4);
    assert_eq!(e.v_register(0), 30);
    assert_eq!(e.v_register(0xF), 0);
}

#[test]
fn subtract_sets_no_borrow_flag() {
    let mut e = machine_with(&[0x60, 10, 0x61, 3, 0x80, 0x15]);
    run_cycles(&mut e, 3);
    assert_eq!(e.v_register(0), 7);
    assert_eq!(e.v_register(0xF), 1);
}

#[test]
fn subtract_with_borrow_wraps() {
    let mut e = machine_with(&[0x60, 3, 0x61, 10, 0x80, 0x15]);
    run_cycles(&mut e, 3);
    assert_eq!(e.v_register(0), 249);
    assert_eq!(e.v_register(0xF), 0);
}

#[test]
fn reversed_subtract() {
    let mut e = machine_with(&[0x60, 3, 0x61, 10, 0x80, 0x17, 0x62, 10, 0x63, 3, 0x82, 0x37]);
    run_cycles(&mut e, 3);
    assert_eq!(e.v_register(0), 7);
    assert_eq!(e.v_register(0xF), 1);
    run_cycles(&mut e, 3);
    assert_eq!(e.v_register(2), 249);
    assert_eq!(e.v_register(0xF), 0);
}

#[test]
fn shifts_ignore_vy_and_set_flag() {
    let mut e = machine_with(&[0x60, 0b1000_0101, 0x61, 0xFF, 0x80, 0x16]);
    run_cycles(&mut e, 3);
    assert_eq!(e.v_register(0), 0b0100_0010);
    assert_eq!(e.v_register(0xF), 1);
    let mut e = machine_with(&[0x60, 0b1000_0101, 0x61, 0x00, 0x80, 0x1E]);
    run_cycles(&mut e, 3);
    assert_eq!(e.v_register(0), 0b0000_1010);
    assert_eq!(e.v_register(0xF), 1);
    let mut e = machine_with(&[0x60, 0b0100_0000, 0x80, 0x0E]);
    run_cycles(&mut e, 2);
    assert_eq!(e.v_register(0), 0b1000_0000);
    assert_eq!(e.v_register(0xF), 0);
}

#[test]
fn bitwise_operations() {
    let mut e = machine_with(&[
        0x60, 0b1100, 0x61, 0b1010, 0x80, 0x11, 0x62, 0b1100, 0x82, 0x12, 0x63, 0b1100, 0x83, 0x13,
        0x84, 0x10,
    ]);
    run_cycles(&mut e, 8);
    assert_eq!(e.v_register(0), 0b1110);
    assert_eq!(e.v_register(2), 0b1000);
    assert_eq!(e.v_register(3), 0b0110);
    assert_eq!(e.v_register(4), 0b1010);
}

#[test]
fn bcd_writes_three_digits() {
    let mut e = machine_with(&[0x60, 123, 0xA3, 0x00, 0xF0, 0x33]);
    run_cycles(&mut e, 3);
    assert_eq!(e.memory_byte(0x300), Ok(1));
    assert_eq!(e.memory_byte(0x301), Ok(2));
    assert_eq!(e.memory_byte(0x302), Ok(3));
}

#[test]
fn store_then_load_registers_round_trip() {
    let mut e = machine_with(&[
        0x60, 1, 0x61, 2, 0x62, 3, 0x63, 4, 0xA4, 0x00, 0xF2, 0x55, 0x60, 9, 0x61, 9, 0x62, 9, 0xF2,
        0x65,
    ]);
    run_cycles(&mut e, 6);
    assert_eq!(e.memory_byte(0x400), Ok(1));
    assert_eq!(e.memory_byte(0x401), Ok(2));
    assert_eq!(e.memory_byte(0x402), Ok(3));
    assert_eq!(e.memory_byte(0x403), Ok(0));
    run_cycles(&mut e, 4);
    assert_eq!(e.v_register(0), 1);
    assert_eq!(e.v_register(1), 2);
    assert_eq!(e.v_register(2), 3);
    assert_eq!(e.v_register(3), 4);
}

#[test]
fn index_operations() {
    // I := 0xFFF; V0 := 0xFF; I += V0; V1 := 0xA; I := font sprite of V1
    let mut e = machine_with(&[0xAF, 0xFF, 0x60, 0xFF, 0xF0, 0x1E]);
    run_cycles(&mut e, 3);
    assert_eq!(e.i_register(), 0x10FE);
    let mut e = machine_with(&[0x61, 0x0A, 0xF1, 0x29]);
    run_cycles(&mut e, 2);
    assert_eq!(e.i_register(), 50);
}

#[test]
fn font_sprite_address_of_large_value() {
    let mut e = machine_with(&[0x61, 200, 0xF1, 0x29]);
    run_cycles(&mut e, 2);
    assert_eq!(e.i_register(), 1000);
}

#[test]
fn drawing_twice_collides_and_clears() {
    // I := 0 (font sprite of digit 0); V0 := 0; V1 := 0; draw 5 rows twice
    let mut e = machine_with(&[0xA0, 0x00, 0x60, 0x00, 0x61, 0x00, 0xD0, 0x15, 0xD0, 0x15]);
    run_cycles(&mut e, 4);
    assert_eq!(e.v_register(0xF), 0);
    let display = e.get_display();
    // top row of the 0 glyph is 0xF0: four lit pixels
    assert!(display[0] && display[1] && display[2] && display[3] && !display[4]);
    assert!(display[64] && !display[65] && !display[66] && display[67]);
    assert_eq!(display.iter().filter(|p| **p).count(), 14);
    run_cycles(&mut e, 1);
    assert_eq!(e.v_register(0xF), 1);
    assert!(e.get_display().iter().all(|p| !p));
}

#[test]
fn drawing_wraps_at_edges() {
    // I := 0; V0 := 62; V1 := 31; draw one row of 0xF0
    let mut e = machine_with(&[0xA0, 0x00, 0x60, 62, 0x61, 31, 0xD0, 0x11]);
    run_cycles(&mut e, 4);
    let display = e.get_display();
    let at = |x: usize, y: usize| display[x + y * 64];
    assert!(at(62, 31) && at(63, 31) && at(0, 31) && at(1, 31));
    assert!(!at(2, 31) && !at(61, 31));
    assert_eq!(display.iter().filter(|p| **p).count(), 4);
}

#[test]
fn clear_screen_turns_pixels_off() {
    let mut e = machine_with(&[0xA0, 0x00, 0xD0, 0x05, 0x00, 0xE0]);
    run_cycles(&mut e, 2);
    assert!(e.get_display().iter().any(|p| *p));
    run_cycles(&mut e, 1);
    assert!(e.get_display().iter().all(|p| !p));
}

#[test]
fn key_wait_repeats_until_key_pressed() {
    let mut e = machine_with(&[0x63, 0x2A, 0xF3, 0x0A]);
    run_cycles(&mut e, 1);
    for _ in 0..5 {
        e.cycle_with_random_byte(0).unwrap();
        assert_eq!(e.program_counter(), 0x202);
        assert_eq!(e.v_register(3), 0x2A);
    }
    e.set_key_press(9, true);
    e.set_key_press(5, true);
    e.cycle_with_random_byte(0).unwrap();
    assert_eq!(e.v_register(3), 5);
    assert_eq!(e.program_counter(), 0x204);
}

#[test]
fn key_skips() {
    // V0 := 4; skip if key V0 pressed; nop; skip if key V0 not pressed
    let mut e = machine_with(&[0x60, 0x04, 0xE0, 0x9E, 0x00, 0x00, 0xE0, 0xA1]);
    e.set_key_press(4, true);
    run_cycles(&mut e, 2);
    assert_eq!(e.program_counter(), 0x206);
    run_cycles(&mut e, 1);
    assert_eq!(e.program_counter(), 0x208);
    let mut e = machine_with(&[0x60, 0x04, 0xE0, 0xA1]);
    run_cycles(&mut e, 2);
    assert_eq!(e.program_counter(), 0x206);
}

#[test]
fn timers_count_down_and_stop_at_zero() {
    // V0 := 2; delay := V0; V1 := 3; sound := V1; V2 := delay
    let mut e = machine_with(&[0x60, 0x02, 0xF0, 0x15, 0x61, 0x03, 0xF1, 0x18, 0xF2, 0x07]);
    run_cycles(&mut e, 5);
    assert_eq!(e.delay_timer(), 2);
    assert_eq!(e.sound_timer(), 3);
    assert_eq!(e.v_register(2), 2);
    e.tick_timers();
    assert_eq!(e.delay_timer(), 1);
    assert_eq!(e.sound_timer(), 2);
    for _ in 0..10 {
        e.tick_timers();
    }
    assert_eq!(e.delay_timer(), 0);
    assert_eq!(e.sound_timer(), 0);
}

#[test]
fn random_opcode_masks_the_byte() {
    let mut e = machine_with(&[0xC0, 0x0F]);
    e.cycle_with_random_byte(0xAB).unwrap();
    assert_eq!(e.v_register(0), 0x0B);
    let mut e = machine_with(&[0xC0, 0x0F, 0xC1, 0x00]);
    e.cycle().unwrap();
    e.cycle().unwrap();
    assert_eq!(e.v_register(0) & 0xF0, 0);
    assert_eq!(e.v_register(1), 0);
}

#[test]
fn unknown_opcode_is_a_fault() {
    let mut e = machine_with(&[0x51, 0x21]);
    assert_eq!(e.cycle_with_random_byte(0), Err(Chip8Error::UnknownOpcode(0x5121)));
    assert_eq!(e.program_counter(), 0x200);
    let mut e = machine_with(&[0xF0, 0xFF]);
    assert_eq!(e.cycle(), Err(Chip8Error::UnknownOpcode(0xF0FF)));
}

#[test]
fn return_with_empty_stack_underflows() {
    let mut e = machine_with(&[0x00, 0xEE]);
    assert_eq!(e.cycle_with_random_byte(0), Err(Chip8Error::StackUnderflow));
    assert_eq!(e.program_counter(), 0x200);
}

#[test]
fn seventeenth_nested_call_overflows() {
    let mut e = machine_with(&[0x22, 0x00]);
    run_cycles(&mut e, 16);
    assert_eq!(e.stack_depth(), 16);
    assert_eq!(e.cycle_with_random_byte(0), Err(Chip8Error::StackOverflow));
    assert_eq!(e.stack_depth(), 16);
}

#[test]
fn fetch_past_memory_end_is_out_of_range() {
    let mut e = machine_with(&[0x1F, 0xFF]);
    run_cycles(&mut e, 1);
    assert_eq!(e.program_counter(), 0xFFF);
    assert_eq!(e.cycle_with_random_byte(0), Err(Chip8Error::AddressOutOfRange));
}

#[test]
fn key_index_past_keypad_is_out_of_range() {
    let mut e = machine_with(&[0x60, 20, 0xE0, 0x9E]);
    run_cycles(&mut e, 1);
    assert_eq!(e.cycle_with_random_byte(0), Err(Chip8Error::AddressOutOfRange));
    assert_eq!(e.program_counter(), 0x202);
}

#[test]
fn memory_access_past_end_is_out_of_range() {
    // I := 0xFFF; store V0..V1 / BCD / draw 2 rows all run past the end
    let mut e = machine_with(&[0xAF, 0xFF, 0xF1, 0x55]);
    run_cycles(&mut e, 1);
    assert_eq!(e.cycle_with_random_byte(0), Err(Chip8Error::AddressOutOfRange));
    let mut e = machine_with(&[0xAF, 0xFE, 0xF0, 0x33]);
    run_cycles(&mut e, 1);
    assert_eq!(e.cycle_with_random_byte(0), Err(Chip8Error::AddressOutOfRange));
    let mut e = machine_with(&[0xAF, 0xFF, 0xD0, 0x02]);
    run_cycles(&mut e, 1);
    assert_eq!(e.cycle_with_random_byte(0), Err(Chip8Error::AddressOutOfRange));
    let mut e = machine_with(&[0xAF, 0xFF, 0xD0, 0x01, 0xF0, 0x65]);
    run_cycles(&mut e, 3);
    assert_eq!(e.get_display().iter().filter(|p| **p).count(), 0);
}

#[test]
fn program_too_large_is_refused() {
    let mut e = Emulator::new();
    assert_eq!(e.load_rom(&vec![1u8; 4096 - 512 + 1]), Err(Chip8Error::ProgramTooLarge));
    assert_eq!(e.memory_byte(0x200), Ok(0));
    assert_eq!(e.load_rom(&vec![1u8; 4096 - 512]), Ok(()));
    assert_eq!(e.memory_byte(4095), Ok(1));
}

#[test]
fn reset_restores_construction_state() {
    let mut e = machine_with(&[0x60, 0x05, 0xA0, 0x00, 0xD0, 0x05, 0x22, 0x00]);
    e.set_key_press(1, true);
    run_cycles(&mut e, 4);
    e.reset();
    assert_eq!(e.program_counter(), 0x200);
    assert_eq!(e.v_register(0), 0);
    assert_eq!(e.stack_depth(), 0);
    assert_eq!(e.memory_byte(0x200), Ok(0));
    assert_eq!(e.memory_byte(0), Ok(0xF0));
    assert!(e.get_display().iter().all(|p| !p));
}
