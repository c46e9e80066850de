use chip8::{
    build_opcode, extract_address, extract_lower, extract_upper, next, Chip8Error, Machine,
    StepOutcome, DISPLAY_SIZE, DISPLAY_WIDTH, MEMORY_SIZE, PROGRAM_BASE_ADDR,
};

fn boot(program: &[u8]) -> Machine {
    Machine::load(&program.to_vec()).expect("program loads")
}

fn run(m: &mut Machine, steps: usize) -> StepOutcome {
    let mut last = StepOutcome { display_changed: false, fault: None };
    for _ in 0..steps {
        last = m.step(0, 0);
    }
    last
}

const OK: StepOutcome = StepOutcome { display_changed: false, fault: None };

#[test]
fn opcode_fields() {
    assert_eq!(build_opcode(0xA2, 0x3C), 0xA23C);
    assert_eq!(extract_address(0xA2, 0x3C), 0x23C);
    assert_eq!(extract_lower(0xA2), 0x2);
    assert_eq!(extract_upper(0xA2), 0xA0);
    assert_eq!(next(0x200), 0x202);
}

#[test]
fn load_places_font_and_program() {
    let m = boot(&[0x12, 0x34]);
    assert_eq!(m.memory().len(), MEMORY_SIZE);
    assert_eq!(m.memory()[0], 0xF0);
    assert_eq!(m.memory()[79], 0x80);
    assert_eq!(m.memory()[80], 0);
    assert_eq!(m.memory()[PROGRAM_BASE_ADDR], 0x12);
    assert_eq!(m.memory()[PROGRAM_BASE_ADDR + 1], 0x34);
    assert_eq!(m.program_counter(), PROGRAM_BASE_ADDR);
    assert_eq!(m.stack_pointer(), 0);
    assert!(m.display().iter().all(|p| !p));
}

#[test]
fn odd_program_is_invalid() {
    assert_eq!(Machine::load(&vec![0x60]).err(), Some(Chip8Error::InvalidProgram));
}

#[test]
fn oversized_program_is_refused() {
    let big = vec![0u8; MEMORY_SIZE - PROGRAM_BASE_ADDR + 2];
    assert_eq!(Machine::load(&big).err(), Some(Chip8Error::OutOfBoundsAccess));
    let fits = vec![0u8; MEMORY_SIZE - PROGRAM_BASE_ADDR];
    assert!(Machine::load(&fits).is_ok());
}

#[test]
fn load_immediate_sets_register() {
    for nn in [0x00u8, 0x01, 0x7F, 0xFF] {
        let mut m = boot(&[0x63, nn]);
        assert_eq!(m.step(0, 0), OK);
        assert_eq!(m.registers()[3], nn);
        assert_eq!(m.program_counter(), 0x202);
    }
}

#[test]
fn add_immediate_wraps_without_flag() {
    let mut m = boot(&[0x6F, 0x07, 0x62, 0xFF, 0x72, 0x01]);
    run(&mut m, 3);
    assert_eq!(m.registers()[2], 0x00);
    assert_eq!(m.registers()[0xF], 0x07);
}

#[test]
fn add_with_carry_sets_flag() {
    let mut m = boot(&[0x61, 0xFF, 0x62, 0x01, 0x81, 0x24]);
    run(&mut m, 3);
    assert_eq!(m.registers()[1], 0x00);
    assert_eq!(m.registers()[0xF], 1);

    let mut m = boot(&[0x61, 0x10, 0x62, 0x20, 0x81, 0x24]);
    run(&mut m, 3);
    assert_eq!(m.registers()[1], 0x30);
    assert_eq!(m.registers()[0xF], 0);
}

#[test]
fn subtract_borrow_convention() {
    let mut m = boot(&[0x61, 0x01, 0x62, 0x02, 0x81, 0x25]);
    run(&mut m, 3);
    assert_eq!(m.registers()[1], 0xFF);
    assert_eq!(m.registers()[0xF], 0);

    let mut m = boot(&[0x61, 0x02, 0x62, 0x01, 0x81, 0x25]);
    run(&mut m, 3);
    assert_eq!(m.registers()[1], 0x01);
    assert_eq!(m.registers()[0xF], 1);
}

#[test]
fn reverse_subtract_and_shifts() {
    let mut m = boot(&[0x61, 0x05, 0x62, 0x03, 0x81, 0x27]);
    run(&mut m, 3);
    assert_eq!(m.registers()[1], 0xFE);
    assert_eq!(m.registers()[0xF], 0);

    let mut m = boot(&[0x61, 0x05, 0x81, 0x06]);
    run(&mut m, 2);
    assert_eq!(m.registers()[1], 0x02);
    assert_eq!(m.registers()[0xF], 1);

    let mut m = boot(&[0x61, 0x81, 0x81, 0x0E]);
    run(&mut m, 2);
    assert_eq!(m.registers()[1], 0x02);
    assert_eq!(m.registers()[0xF], 1);
}

#[test]
fn bitwise_register_ops() {
    let mut m = boot(&[0x61, 0x0C, 0x62, 0x0A, 0x63, 0x0C, 0x64, 0x0C, 0x81, 0x21, 0x83, 0x22, 0x84, 0x23]);
    run(&mut m, 7);
    assert_eq!(m.registers()[1], 0x0E);
    assert_eq!(m.registers()[3], 0x08);
    assert_eq!(m.registers()[4], 0x06);
}

#[test]
fn bcd_of_253() {
    let mut m = boot(&[0x65, 253, 0xA3, 0x00, 0xF5, 0x33]);
    assert_eq!(run(&mut m, 3), OK);
    assert_eq!(m.memory()[0x300], 2);
    assert_eq!(m.memory()[0x301], 5);
    assert_eq!(m.memory()[0x302], 3);
}

#[test]
fn store_then_restore_registers() {
    let mut m = boot(&[
        0x60, 0x11, 0x61, 0x22, 0x62, 0x33, 0x63, 0x44, 0xA4, 0x00, 0xF2, 0x55,
        0x60, 0x00, 0x61, 0x00, 0x62, 0x00, 0xF2, 0x65,
    ]);
    run(&mut m, 10);
    assert_eq!(&m.memory()[0x400..0x404], &[0x11, 0x22, 0x33, 0x00]);
    assert_eq!(&m.registers()[0..4], &[0x11, 0x22, 0x33, 0x44]);
}

#[test]
fn sprite_collision_on_second_draw() {
    // I points at the 0xFF byte stored at 0x20A.
    let mut m = boot(&[0x61, 0x08, 0x62, 0x04, 0xA2, 0x0A, 0xD1, 0x21, 0xD1, 0x21, 0xFF, 0xFF]);
    run(&mut m, 3);
    let first = m.step(0, 0);
    assert_eq!(first, StepOutcome { display_changed: true, fault: None });
    assert_eq!(m.registers()[0xF], 0);
    for w in 0..8 {
        assert!(m.display()[8 + w + DISPLAY_WIDTH * 4]);
    }
    assert_eq!(m.display().iter().filter(|p| **p).count(), 8);
    let second = m.step(0, 0);
    assert!(second.display_changed);
    assert_eq!(m.registers()[0xF], 1);
    assert!(m.display().iter().all(|p| !p));
}

#[test]
fn sprite_past_the_edge_is_clipped() {
    let mut m = boot(&[0x61, 60, 0x62, 0x00, 0xA2, 0x0A, 0xD1, 0x21, 0x00, 0x00, 0xFF, 0x00]);
    run(&mut m, 3);
    let r = m.step(0, 0);
    assert_eq!(r, StepOutcome { display_changed: true, fault: Some(Chip8Error::OutOfBoundsAccess) });
    assert_eq!(m.display().iter().filter(|p| **p).count(), 4);
    assert!(m.display()[63]);
    assert!(!m.display()[64]);
}

#[test]
fn clear_screen_clears_everything() {
    let mut m = boot(&[0xF0, 0x29, 0xD0, 0x05, 0x00, 0xE0]);
    run(&mut m, 2);
    assert!(m.display().iter().any(|p| *p));
    let r = m.step(0, 0);
    assert!(r.display_changed);
    assert_eq!(m.display().len(), DISPLAY_SIZE);
    assert!(m.display().iter().all(|p| !p));
}

#[test]
fn call_and_return() {
    // 0x200: call 0x206; 0x202: jump to self; 0x206: return
    let mut m = boot(&[0x22, 0x06, 0x12, 0x02, 0x00, 0x00, 0x00, 0xEE]);
    assert_eq!(m.step(0, 0), OK);
    assert_eq!(m.program_counter(), 0x206);
    assert_eq!(m.stack_pointer(), 1);
    assert_eq!(m.step(0, 0), OK);
    assert_eq!(m.program_counter(), 0x202);
    assert_eq!(m.stack_pointer(), 0);
}

#[test]
fn return_on_empty_stack_underflows() {
    let mut m = boot(&[0x00, 0xEE]);
    assert_eq!(m.step(0, 0).fault, Some(Chip8Error::StackUnderflow));
    assert_eq!(m.program_counter(), 0x202);
}

#[test]
fn call_on_full_stack_overflows() {
    let mut m = Machine::load_with_stack_capacity(&vec![0x22, 0x00], 2).unwrap();
    assert_eq!(run(&mut m, 2), OK);
    assert_eq!(m.stack_pointer(), 2);
    let r = m.step(0, 0);
    assert_eq!(r.fault, Some(Chip8Error::StackOverflow));
    assert_eq!(m.stack_pointer(), 2);
    assert_eq!(m.program_counter(), 0x202);
}

#[test]
fn default_stack_holds_twenty_four() {
    let mut m = boot(&[0x22, 0x00]);
    assert_eq!(run(&mut m, 24), OK);
    assert_eq!(m.step(0, 0).fault, Some(Chip8Error::StackOverflow));
}

#[test]
fn unsupported_opcodes_are_reported() {
    let mut m = boot(&[0x51, 0x21, 0x81, 0x28, 0xE1, 0x00, 0xF1, 0x99, 0x01, 0x23]);
    for code in [0x5121u16, 0x8128, 0xE100, 0xF199, 0x0123] {
        let pc = m.program_counter();
        assert_eq!(m.step(0, 0).fault, Some(Chip8Error::UnsupportedOpcode(code)));
        assert_eq!(m.program_counter(), pc + 2);
    }
}

#[test]
fn skips_compare_registers_and_bytes() {
    let mut m = boot(&[0x61, 0x05, 0x31, 0x05, 0x00, 0x00, 0x41, 0x05, 0x62, 0x05, 0x51, 0x20, 0x00, 0x00, 0x91, 0x20]);
    run(&mut m, 2);
    assert_eq!(m.program_counter(), 0x206);
    run(&mut m, 1);
    assert_eq!(m.program_counter(), 0x208);
    run(&mut m, 2);
    assert_eq!(m.program_counter(), 0x20E);
    run(&mut m, 1);
    assert_eq!(m.program_counter(), 0x210);
}

#[test]
fn jumps_and_index() {
    let mut m = boot(&[0x60, 0x04, 0xA1, 0x23, 0xB3, 0x00]);
    run(&mut m, 3);
    assert_eq!(m.index_register(), 0x123);
    assert_eq!(m.program_counter(), 0x304);
}

#[test]
fn random_byte_is_masked() {
    let mut m = boot(&[0xC1, 0x0F]);
    m.step(0xAB, 0);
    assert_eq!(m.registers()[1], 0x0B);
}

#[test]
fn key_skips_follow_latch() {
    let mut m = boot(&[0x61, 0x07, 0xE1, 0x9E, 0x00, 0x00, 0xE1, 0xA1]);
    let mut keys = [false; 16];
    keys[7] = true;
    m.set_inputs(keys);
    run(&mut m, 2);
    assert_eq!(m.program_counter(), 0x206);
    run(&mut m, 1);
    assert_eq!(m.program_counter(), 0x208);
}

#[test]
fn key_index_past_latch_is_out_of_bounds() {
    let mut m = boot(&[0x61, 0x10, 0xE1, 0x9E]);
    run(&mut m, 1);
    assert_eq!(m.step(0, 0).fault, Some(Chip8Error::OutOfBoundsAccess));
    assert_eq!(m.program_counter(), 0x204);
}

#[test]
fn wait_for_key_picks_lowest() {
    let mut m = boot(&[0xF5, 0x0A, 0x61, 0x01]);
    run(&mut m, 1);
    assert!(m.is_blocking());
    for _ in 0..3 {
        assert_eq!(m.step(0, 0), OK);
        assert_eq!(m.program_counter(), 0x202);
        assert!(m.is_blocking());
    }
    let mut keys = [false; 16];
    keys[9] = true;
    keys[4] = true;
    keys[12] = true;
    m.set_inputs(keys);
    m.step(0, 0);
    assert!(!m.is_blocking());
    assert_eq!(m.registers()[5], 4);
    assert_eq!(m.program_counter(), 0x202);
    m.step(0, 0);
    assert_eq!(m.registers()[1], 1);
}

#[test]
fn resolve_without_key_keeps_waiting() {
    let mut m = boot(&[0xF2, 0x0A]);
    run(&mut m, 1);
    m.resolve_blocking_wait();
    assert!(m.is_blocking());
    let mut keys = [false; 16];
    keys[15] = true;
    m.set_inputs(keys);
    m.resolve_blocking_wait();
    assert!(!m.is_blocking());
    assert_eq!(m.registers()[2], 15);
}

#[test]
fn delay_timer_ages_once_per_check() {
    let mut m = boot(&[0x61, 0x05, 0xF1, 0x15, 0xF2, 0x07]);
    m.step(0, 1000);
    m.step(0, 1000);
    assert_eq!(m.delay_timer(), 5);
    m.age_timers(1016);
    assert_eq!(m.delay_timer(), 5);
    m.age_timers(1017);
    assert_eq!(m.delay_timer(), 4);
    m.age_timers(1017 + 17 * 10);
    assert_eq!(m.delay_timer(), 3);
    m.age_timers(1017 + 17 * 10 + 5);
    assert_eq!(m.delay_timer(), 3);
    m.step(0, 0);
    assert_eq!(m.registers()[2], 3);
}

#[test]
fn stopped_timer_stays_zero() {
    let mut m = boot(&[0x00, 0xE0]);
    m.age_timers(100_000);
    assert_eq!(m.delay_timer(), 0);
}

#[test]
fn sound_timer_is_stored() {
    let mut m = boot(&[0x61, 0x09, 0xF1, 0x18]);
    run(&mut m, 2);
    assert_eq!(m.sound_timer(), 9);
}

#[test]
fn font_glyph_address() {
    let mut m = boot(&[0x61, 0x1A, 0xF1, 0x29, 0xF1, 0x1E]);
    run(&mut m, 2);
    assert_eq!(m.index_register(), 50);
    run(&mut m, 1);
    assert_eq!(m.index_register(), 50 + 0x1A);
}

#[test]
fn index_add_past_memory_is_refused() {
    let mut m = boot(&[0xAF, 0xFF, 0x61, 0x01, 0xF1, 0x1E]);
    run(&mut m, 2);
    assert_eq!(m.step(0, 0).fault, Some(Chip8Error::OutOfBoundsAccess));
    assert_eq!(m.index_register(), 0xFFF);
}

#[test]
fn bcd_near_top_of_memory_is_clipped() {
    let mut m = boot(&[0x61, 123, 0xAF, 0xFE, 0xF1, 0x33]);
    run(&mut m, 2);
    assert_eq!(m.step(0, 0).fault, Some(Chip8Error::OutOfBoundsAccess));
    assert_eq!(m.memory()[0xFFE], 1);
    assert_eq!(m.memory()[0xFFF], 2);
}

#[test]
fn fetch_past_memory_is_out_of_bounds() {
    let mut m = boot(&[0x1F, 0xFF]);
    run(&mut m, 1);
    assert_eq!(m.program_counter(), 0xFFF);
    assert_eq!(m.step(0, 0).fault, Some(Chip8Error::OutOfBoundsAccess));
    assert_eq!(m.program_counter(), 0xFFF);
}
