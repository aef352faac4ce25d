use chip8::instruction::{decode, Instruction};
use chip8::{CHIP8Input, CHIP8Output, Chip8Error, ColorConfig, Display, InputKey, OldBehaviourConfig, CHIP8};

fn modern() -> OldBehaviourConfig {
    OldBehaviourConfig { fx65: false, fx55: false, i_8xy6: false, i_8xye: false, bnnn: false, fx1e: false }
}

fn legacy() -> OldBehaviourConfig {
    OldBehaviourConfig { fx65: true, fx55: true, i_8xy6: true, i_8xye: true, bnnn: true, fx1e: true }
}

fn colors() -> ColorConfig {
    ColorConfig { fg_on_color: (255, 255, 255), fg_off_color: (0, 0, 0), bg_color: (76, 13, 179) }
}

fn no_input() -> CHIP8Input {
    CHIP8Input { pressed_keys: [false; 16], released_key: None }
}

fn machine(program: &[u8], conf: OldBehaviourConfig) -> CHIP8 {
    let mut m = CHIP8::new(conf);
    m.load_program(program).unwrap();
    m
}

fn run(m: &mut CHIP8, d: &mut Display, steps: usize) -> CHIP8Output {
    let mut out = CHIP8Output { request_redraw: false };
    for _ in 0..steps {
        out = m.step(&no_input(), d, 0).unwrap();
    }
    out
}

#[test]
fn fresh_machine_state() {
    let m = CHIP8::new(modern());
    assert_eq!(m.pc(), 0x200);
    assert_eq!(m.index_register(), 0);
    assert_eq!(m.stack_depth(), 0);
    assert_eq!(m.delay_timer, 0);
    assert_eq!(m.sound_timer, 5);
    for r in 0..16 {
        assert_eq!(m.register(r), 0);
    }
    assert_eq!(m.memory_byte(0x4F), 0);
    assert_eq!(m.memory_byte(0x50), 0xF0);
    assert_eq!(m.memory_byte(0x55), 0x20);
    assert_eq!(m.memory_byte(0x9F), 0x80);
    assert_eq!(m.memory_byte(0xA0), 0);
    assert_eq!(m.memory_byte(0x200), 0);
}

#[test]
fn load_program_places_bytes() {
    let m = machine(&[0x12, 0x34, 0x56], modern());
    assert_eq!(m.memory_byte(0x1FF), 0);
    assert_eq!(m.memory_byte(0x200), 0x12);
    assert_eq!(m.memory_byte(0x201), 0x34);
    assert_eq!(m.memory_byte(0x202), 0x56);
    assert_eq!(m.memory_byte(0x203), 0);
}

#[test]
fn load_program_of_largest_size() {
    let mut m = CHIP8::new(modern());
    let program = vec![0xAB; 3584];
    assert_eq!(m.load_program(&program), Ok(()));
    assert_eq!(m.memory_byte(4095), 0xAB);
}

#[test]
fn load_program_too_large() {
    let mut m = CHIP8::new(modern());
    let program = vec![0xAB; 3585];
    assert_eq!(m.load_program(&program), Err(Chip8Error::ProgramTooLarge));
    assert_eq!(m.memory_byte(0x200), 0);
}

#[test]
fn set_then_add_register() {
    let mut m = machine(&[0x61, 0x05, 0x71, 0x0A], modern());
    let mut d = Display::new(colors());
    run(&mut m, &mut d, 1);
    assert_eq!(m.register(1), 5);
    assert_eq!(m.pc(), 0x202);
    run(&mut m, &mut d, 1);
    assert_eq!(m.register(1), 15);
    assert_eq!(m.pc(), 0x204);
}

#[test]
fn add_immediate_wraps_without_flag() {
    let mut m = machine(&[0x6F, 0x07, 0x62, 0xF0, 0x72, 0x20], modern());
    let mut d = Display::new(colors());
    run(&mut m, &mut d, 3);
    assert_eq!(m.register(2), 0x10);
    assert_eq!(m.register(0xF), 7);
}

#[test]
fn font_glyph_address() {
    let mut m = machine(&[0xA0, 0x50, 0xF0, 0x29, 0x61, 0x1A, 0xF1, 0x29], modern());
    let mut d = Display::new(colors());
    run(&mut m, &mut d, 1);
    assert_eq!(m.index_register(), 0x50);
    run(&mut m, &mut d, 1);
    assert_eq!(m.index_register(), 0x50);
    run(&mut m, &mut d, 2);
    assert_eq!(m.index_register(), 0x50 + 0xA * 5);
}

#[test]
fn add_registers_overflow_flag() {
    let mut m = machine(&[0x60, 0xFF, 0x61, 0x01, 0x80, 0x14, 0x62, 0x10, 0x63, 0x20, 0x82, 0x34], modern());
    let mut d = Display::new(colors());
    run(&mut m, &mut d, 3);
    assert_eq!(m.register(0), 0);
    assert_eq!(m.register(0xF), 1);
    run(&mut m, &mut d, 3);
    assert_eq!(m.register(2), 0x30);
    assert_eq!(m.register(0xF), 0);
}

#[test]
fn subtract_flag_is_strictly_greater() {
    let mut m = machine(&[0x60, 0x05, 0x61, 0x05, 0x80, 0x15], modern());
    let mut d = Display::new(colors());
    run(&mut m, &mut d, 3);
    assert_eq!(m.register(0), 0);
    assert_eq!(m.register(0xF), 0);

    let mut m = machine(&[0x60, 0x09, 0x61, 0x04, 0x80, 0x15], modern());
    run(&mut m, &mut d, 3);
    assert_eq!(m.register(0), 5);
    assert_eq!(m.register(0xF), 1);

    let mut m = machine(&[0x60, 0x04, 0x61, 0x09, 0x80, 0x15], modern());
    run(&mut m, &mut d, 3);
    assert_eq!(m.register(0), 0xFB);
    assert_eq!(m.register(0xF), 0);
}

#[test]
fn reverse_subtract() {
    let mut m = machine(&[0x60, 0x04, 0x61, 0x09, 0x80, 0x17], modern());
    let mut d = Display::new(colors());
    run(&mut m, &mut d, 3);
    assert_eq!(m.register(0), 5);
    assert_eq!(m.register(0xF), 1);
}

#[test]
fn logic_operations() {
    let mut m = machine(
        &[0x60, 0b1100, 0x61, 0b1010, 0x62, 0b1100, 0x63, 0b1100, 0x80, 0x11, 0x82, 0x12, 0x83, 0x13, 0x84, 0x10],
        modern(),
    );
    let mut d = Display::new(colors());
    run(&mut m, &mut d, 8);
    assert_eq!(m.register(0), 0b1110);
    assert_eq!(m.register(2), 0b1000);
    assert_eq!(m.register(3), 0b0110);
    assert_eq!(m.register(4), 0b1010);
}

#[test]
fn shifts_report_shifted_out_bit() {
    let mut m = machine(&[0x60, 0x81, 0x80, 0x06, 0x61, 0x81, 0x81, 0x0E], modern());
    let mut d = Display::new(colors());
    run(&mut m, &mut d, 2);
    assert_eq!(m.register(0), 0x40);
    assert_eq!(m.register(0xF), 1);
    run(&mut m, &mut d, 2);
    assert_eq!(m.register(1), 0x02);
    assert_eq!(m.register(0xF), 1);
}

#[test]
fn shifts_copy_vy_in_legacy_mode() {
    let mut m = machine(&[0x60, 0xFF, 0x61, 0x04, 0x80, 0x16, 0x62, 0xFF, 0x63, 0x40, 0x82, 0x3E], legacy());
    let mut d = Display::new(colors());
    run(&mut m, &mut d, 3);
    assert_eq!(m.register(0), 0x02);
    assert_eq!(m.register(0xF), 0);
    run(&mut m, &mut d, 3);
    assert_eq!(m.register(2), 0x80);
    assert_eq!(m.register(0xF), 0);
}

#[test]
fn skips() {
    // 3XNN taken, then 4XNN not taken, then 5XY0 taken, then 9XY0 not taken
    let mut m = machine(
        &[0x60, 0x07, 0x30, 0x07, 0x00, 0x00, 0x40, 0x07, 0x61, 0x07, 0x50, 0x10, 0x00, 0x00, 0x90, 0x10],
        modern(),
    );
    let mut d = Display::new(colors());
    run(&mut m, &mut d, 2);
    assert_eq!(m.pc(), 0x206);
    run(&mut m, &mut d, 1);
    assert_eq!(m.pc(), 0x208);
    run(&mut m, &mut d, 2);
    assert_eq!(m.pc(), 0x20E);
    run(&mut m, &mut d, 1);
    assert_eq!(m.pc(), 0x210);
}

#[test]
fn jump_call_return() {
    let mut m = machine(&[0x22, 0x06, 0x00, 0x00, 0x00, 0x00, 0x00, 0xEE], modern());
    let mut d = Display::new(colors());
    run(&mut m, &mut d, 1);
    assert_eq!(m.pc(), 0x206);
    assert_eq!(m.stack_depth(), 1);
    run(&mut m, &mut d, 1);
    assert_eq!(m.pc(), 0x202);
    assert_eq!(m.stack_depth(), 0);

    let mut m = machine(&[0x13, 0x00], modern());
    run(&mut m, &mut d, 1);
    assert_eq!(m.pc(), 0x300);
}

#[test]
fn return_with_empty_stack_fails() {
    let mut m = machine(&[0x00, 0xEE], modern());
    let mut d = Display::new(colors());
    assert_eq!(m.step(&no_input(), &mut d, 0), Err(Chip8Error::StackUnderflow));
    assert_eq!(m.pc(), 0x200);
}

#[test]
fn unknown_opcode_fails() {
    let mut m = machine(&[0x50, 0x01], modern());
    let mut d = Display::new(colors());
    assert_eq!(m.step(&no_input(), &mut d, 0), Err(Chip8Error::UnknownOpcode(0x5001)));
    assert_eq!(m.pc(), 0x200);
    let mut m = machine(&[0x00, 0x00], modern());
    assert_eq!(m.step(&no_input(), &mut d, 0), Err(Chip8Error::UnknownOpcode(0x0000)));
}

#[test]
fn program_counter_past_memory_fails() {
    let mut m = machine(&[0x1F, 0xFF], modern());
    let mut d = Display::new(colors());
    run(&mut m, &mut d, 1);
    assert_eq!(m.pc(), 0xFFF);
    assert_eq!(m.step(&no_input(), &mut d, 0), Err(Chip8Error::ProgramCounterOutOfRange));
}

#[test]
fn memory_access_past_end_fails() {
    let mut m = machine(&[0xAF, 0xFE, 0xF0, 0x33], modern());
    let mut d = Display::new(colors());
    run(&mut m, &mut d, 1);
    assert_eq!(m.step(&no_input(), &mut d, 0), Err(Chip8Error::AddressOutOfRange));
    assert_eq!(m.pc(), 0x202);
    assert_eq!(m.memory_byte(0xFFE), 0);
}

#[test]
fn jump_with_offset() {
    let mut m = machine(&[0x60, 0x10, 0x62, 0x20, 0xB2, 0x00], modern());
    let mut d = Display::new(colors());
    run(&mut m, &mut d, 3);
    assert_eq!(m.pc(), 0x220);
    let mut m = machine(&[0x60, 0x10, 0x62, 0x20, 0xB2, 0x00], legacy());
    run(&mut m, &mut d, 3);
    assert_eq!(m.pc(), 0x210);
}

#[test]
fn random_is_masked() {
    let mut m = machine(&[0xC3, 0x0F, 0xC4, 0x00], modern());
    let mut d = Display::new(colors());
    m.step(&no_input(), &mut d, 0xAB).unwrap();
    assert_eq!(m.register(3), 0x0B);
    m.update(no_input(), &mut d).unwrap();
    assert_eq!(m.register(4), 0);
    assert_eq!(m.pc(), 0x204);
}

#[test]
fn decimal_digits() {
    let mut m = machine(&[0x65, 0xFE, 0xA3, 0x00, 0xF5, 0x33], modern());
    let mut d = Display::new(colors());
    run(&mut m, &mut d, 3);
    assert_eq!(m.memory_byte(0x300), 2);
    assert_eq!(m.memory_byte(0x301), 5);
    assert_eq!(m.memory_byte(0x302), 4);
}

#[test]
fn store_then_load_round_trip() {
    for conf in [modern(), legacy()] {
        let mut m = machine(
            &[0x60, 0x11, 0x61, 0x22, 0x62, 0x33, 0xA4, 0x00, 0xF2, 0x55, 0x60, 0x00, 0x61, 0x00, 0x62, 0x00, 0xA4, 0x00, 0xF2, 0x65],
            conf,
        );
        let mut d = Display::new(colors());
        run(&mut m, &mut d, 5);
        assert_eq!(m.memory_byte(0x400), 0x11);
        assert_eq!(m.memory_byte(0x401), 0x22);
        assert_eq!(m.memory_byte(0x402), 0x33);
        assert_eq!(m.memory_byte(0x403), 0);
        assert_eq!(m.index_register(), if conf.fx55 { 0x403 } else { 0x400 });
        run(&mut m, &mut d, 5);
        assert_eq!(m.register(0), 0x11);
        assert_eq!(m.register(1), 0x22);
        assert_eq!(m.register(2), 0x33);
        assert_eq!(m.index_register(), if conf.fx65 { 0x403 } else { 0x400 });
    }
}

#[test]
fn wait_for_key() {
    let mut m = machine(&[0xF5, 0x0A], modern());
    let mut d = Display::new(colors());
    m.update(no_input(), &mut d).unwrap();
    assert_eq!(m.pc(), 0x200);
    m.update(no_input(), &mut d).unwrap();
    assert_eq!(m.pc(), 0x200);
    let input = CHIP8Input { pressed_keys: [false; 16], released_key: Some(InputKey::B) };
    m.update(input, &mut d).unwrap();
    assert_eq!(m.pc(), 0x202);
    assert_eq!(m.register(5), 0xB);
}

#[test]
fn key_skips() {
    let mut keys = [false; 16];
    keys[7] = true;
    let held = CHIP8Input { pressed_keys: keys, released_key: None };
    let mut m = machine(&[0x60, 0x07, 0xE0, 0x9E, 0x00, 0x00, 0xE0, 0xA1, 0x61, 0x20, 0xE1, 0xA1], modern());
    let mut d = Display::new(colors());
    m.step(&held, &mut d, 0).unwrap();
    m.step(&held, &mut d, 0).unwrap();
    assert_eq!(m.pc(), 0x206);
    m.step(&held, &mut d, 0).unwrap();
    assert_eq!(m.pc(), 0x208);
    m.step(&held, &mut d, 0).unwrap();
    m.step(&held, &mut d, 0).unwrap();
    assert_eq!(m.pc(), 0x20E);
}

#[test]
fn timers() {
    let mut m = machine(&[0x60, 0x02, 0xF0, 0x15, 0xF0, 0x18, 0xF1, 0x07], modern());
    let mut d = Display::new(colors());
    run(&mut m, &mut d, 3);
    assert_eq!(m.delay_timer, 2);
    assert_eq!(m.sound_timer, 2);
    m.tick_timers();
    run(&mut m, &mut d, 1);
    assert_eq!(m.register(1), 1);
    m.tick_timers();
    m.tick_timers();
    assert_eq!(m.delay_timer, 0);
    assert_eq!(m.sound_timer, 0);
}

#[test]
fn add_to_index_overflow() {
    // V0 = 0xFF, I = 0xFFF, then loop on FX1E until I wraps
    let mut m = machine(&[0x60, 0xFF, 0xAF, 0xFF, 0xF0, 0x1E, 0x12, 0x04], modern());
    let mut d = Display::new(colors());
    run(&mut m, &mut d, 2);
    let mut previous = m.index_register();
    loop {
        run(&mut m, &mut d, 1);
        let now = m.index_register();
        if now < previous {
            assert_eq!(m.register(0xF), 1);
            assert_eq!(now as u32, (previous as u32 + 0xFF) % 0x10000);
            break;
        }
        assert_eq!(m.register(0xF), 0);
        previous = now;
        run(&mut m, &mut d, 1);
    }
}

#[test]
fn add_to_index_legacy_keeps_flag() {
    let mut m = machine(&[0x6F, 0x09, 0xA1, 0x00, 0xFF, 0x1E], legacy());
    let mut d = Display::new(colors());
    run(&mut m, &mut d, 3);
    assert_eq!(m.index_register(), 0x109);
    assert_eq!(m.register(0xF), 9);
}

#[test]
fn clear_screen_requests_redraw() {
    let mut m = machine(&[0x00, 0xE0], modern());
    let mut d = Display::new(colors());
    d.set_pixel(3, 4);
    let out = run(&mut m, &mut d, 1);
    assert!(out.request_redraw);
    assert!(!d.get_pixel(3, 4));
}

#[test]
fn draw_twice_clears_and_collides() {
    // I = glyph 0, V0 = 10, V1 = 3, draw 5 rows twice
    let mut m = machine(&[0xA0, 0x50, 0x60, 0x0A, 0x61, 0x03, 0xD0, 0x15, 0xD0, 0x15], modern());
    let mut d = Display::new(colors());
    run(&mut m, &mut d, 3);
    let out = run(&mut m, &mut d, 1);
    assert!(out.request_redraw);
    assert_eq!(m.register(0xF), 0);
    // top row of glyph 0 is 0xF0: four lit pixels, then four dark ones
    for x in 10..14 {
        assert!(d.get_pixel(x, 3));
    }
    for x in 14..18 {
        assert!(!d.get_pixel(x, 3));
    }
    assert!(d.get_pixel(10, 4));
    assert!(!d.get_pixel(11, 4));
    run(&mut m, &mut d, 1);
    assert_eq!(m.register(0xF), 1);
    for y in 0..32 {
        for x in 0..64 {
            assert!(!d.get_pixel(x, y));
        }
    }
}

#[test]
fn draw_clips_at_edges() {
    // V0 = 62 + 64 (wraps to 62), V1 = 30, draw glyph 8 (5 rows)
    let mut m = machine(&[0xA0, 0x78, 0x60, 0x7E, 0x61, 0x1E, 0xD0, 0x15], modern());
    let mut d = Display::new(colors());
    run(&mut m, &mut d, 4);
    assert!(d.get_pixel(62, 30));
    assert!(d.get_pixel(63, 30));
    assert!(d.get_pixel(62, 31));
    assert!(!d.get_pixel(63, 31));
    assert!(!d.get_pixel(0, 30));
    assert!(!d.get_pixel(0, 0));
    assert!(!d.get_pixel(62, 0));
}

#[test]
fn draw_past_memory_end_fails() {
    let mut m = machine(&[0xAF, 0xFE, 0xD0, 0x05], modern());
    let mut d = Display::new(colors());
    run(&mut m, &mut d, 1);
    assert_eq!(m.step(&no_input(), &mut d, 0), Err(Chip8Error::AddressOutOfRange));
    assert!(!d.get_pixel(0, 0));
}

#[test]
fn display_pixels() {
    let mut d = Display::new(colors());
    assert_eq!(d.frame.len(), 8192);
    assert!(!d.get_pixel(5, 6));
    d.set_pixel(5, 6);
    assert!(d.get_pixel(5, 6));
    let o = (6 * 64 + 5) * 4;
    assert_eq!(&d.frame[o..o + 4], &[255, 255, 255, 255]);
    assert!(!d.get_pixel(6, 6));
    d.unset_pixel(5, 6);
    assert!(!d.get_pixel(5, 6));
    assert_eq!(&d.frame[o..o + 4], &[0, 0, 0, 255]);
    d.set_pixel(63, 31);
    d.clear_screen();
    assert!(!d.get_pixel(63, 31));
    assert_eq!(d.frame[8191], 255);
}

#[test]
fn display_same_on_and_off_colour() {
    let mut d = Display::new(ColorConfig { fg_on_color: (9, 9, 9), fg_off_color: (9, 9, 9), bg_color: (0, 0, 0) });
    d.set_pixel(1, 1);
    assert!(!d.get_pixel(1, 1));
}

#[test]
fn decode_table() {
    assert_eq!(decode(0x00E0), Some(Instruction::ClearScreen));
    assert_eq!(decode(0x00EE), Some(Instruction::Return));
    assert_eq!(decode(0x00E1), None);
    assert_eq!(decode(0x03E0), Some(Instruction::ClearScreen));
    assert_eq!(decode(0x8AB4), Some(Instruction::Add { x: 0xA, y: 0xB }));
    assert_eq!(decode(0x8AB8), None);
    assert_eq!(decode(0xD12F), Some(Instruction::Draw { x: 1, y: 2, n: 0xF }));
    assert_eq!(decode(0xB345), Some(Instruction::JumpWithOffset { nnn: 0x345, x: 3 }));
    assert_eq!(decode(0xE39E), Some(Instruction::SkipIfKeyPressed { x: 3 }));
    assert_eq!(decode(0xF865), Some(Instruction::LoadRegisters { x: 8 }));
    assert_eq!(decode(0xF866), None);
}

#[test]
fn key_codes() {
    assert_eq!(InputKey::D0.code(), 0);
    assert_eq!(InputKey::D9.code(), 9);
    assert_eq!(InputKey::A.code(), 0xA);
    assert_eq!(InputKey::F.code(), 0xF);
}
