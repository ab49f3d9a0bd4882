use chip8_rust::{
    u12, u4, Chip8, Chip8Error, Chip8Result, Opcode, OpcodeALU, DISPLAY_X, FONT_START_ADDRESS,
    MAX_ROM_SIZE,
};

fn machine_with(rom: &[u8]) -> Chip8 {
    let mut chip8 = Chip8::new();
    chip8.load(rom).unwrap();
    chip8
}

fn alu(chip8: &mut Chip8, vx: u8, vy: u8, op: OpcodeALU) -> (u8, u8) {
    chip8.set_v(u4::new(1), vx);
    chip8.set_v(u4::new(2), vy);
    let r = chip8.execute(Opcode::ALU { x: u4::new(1), y: u4::new(2), op }, 0);
    assert_eq!(r, Ok(Chip8Result::Continue));
    (chip8.v()[1], chip8.v()[0xF])
}

#[test]
fn load_round_trip() {
    let rom: Vec<u8> = (0..MAX_ROM_SIZE).map(|k| (k * 7 + 3) as u8).collect();
    for len in [0usize, 1, 2, 100, MAX_ROM_SIZE] {
        let chip8 = machine_with(&rom[..len]);
        for k in 0..len {
            assert_eq!(chip8.memory_at(0x200 + k), rom[k]);
        }
        assert_eq!(chip8.pc(), 0x200);
    }
}

#[test]
fn load_rejects_too_large_rom() {
    let mut chip8 = Chip8::new();
    let rom = vec![0xAAu8; MAX_ROM_SIZE + 1];
    assert_eq!(
        chip8.load(&rom),
        Err(Chip8Error::RomLoadError { size: 3585, max_size: 3584 })
    );
    assert_eq!(chip8.memory_at(0x200), 0);
    // The font is installed all the same.
    assert_eq!(chip8.memory_at(FONT_START_ADDRESS), 0xF0);
}

#[test]
fn load_installs_font() {
    let chip8 = machine_with(&[]);
    let one = [0x20u8, 0x60, 0x20, 0x20, 0x70];
    for k in 0..5 {
        assert_eq!(chip8.memory_at(FONT_START_ADDRESS + 5 + k), one[k]);
    }
    assert_eq!(chip8.memory_at(FONT_START_ADDRESS + 79), 0x80);
}

#[test]
fn alu_add_sets_carry() {
    let mut chip8 = machine_with(&[]);
    assert_eq!(alu(&mut chip8, 0xFF, 0x01, OpcodeALU::Add), (0x00, 1));
    assert_eq!(alu(&mut chip8, 0x10, 0x01, OpcodeALU::Add), (0x11, 0));
}

#[test]
fn alu_sub_inverted_borrow() {
    let mut chip8 = machine_with(&[]);
    assert_eq!(alu(&mut chip8, 0x05, 0x06, OpcodeALU::Sub), (0xFF, 0));
    assert_eq!(alu(&mut chip8, 0x06, 0x05, OpcodeALU::Sub), (0x01, 1));
    assert_eq!(alu(&mut chip8, 0x05, 0x05, OpcodeALU::Sub), (0x00, 1));
    assert_eq!(alu(&mut chip8, 0x06, 0x05, OpcodeALU::SubReverse), (0xFF, 0));
    assert_eq!(alu(&mut chip8, 0x05, 0x06, OpcodeALU::SubReverse), (0x01, 1));
}

#[test]
fn alu_shifts_read_vy() {
    let mut chip8 = machine_with(&[]);
    assert_eq!(alu(&mut chip8, 0x00, 0x03, OpcodeALU::ShiftRight), (0x01, 1));
    assert_eq!(alu(&mut chip8, 0xFF, 0x02, OpcodeALU::ShiftRight), (0x01, 0));
    assert_eq!(alu(&mut chip8, 0x00, 0x81, OpcodeALU::ShiftLeft), (0x02, 1));
    assert_eq!(alu(&mut chip8, 0x00, 0x41, OpcodeALU::ShiftLeft), (0x82, 0));
}

#[test]
fn alu_logic_resets_flag() {
    let mut chip8 = machine_with(&[]);
    chip8.set_v(u4::new(0xF), 7);
    assert_eq!(alu(&mut chip8, 0b1100, 0b1010, OpcodeALU::Or), (0b1110, 0));
    chip8.set_v(u4::new(0xF), 7);
    assert_eq!(alu(&mut chip8, 0b1100, 0b1010, OpcodeALU::And), (0b1000, 0));
    chip8.set_v(u4::new(0xF), 7);
    assert_eq!(alu(&mut chip8, 0b1100, 0b1010, OpcodeALU::Xor), (0b0110, 0));
    assert_eq!(alu(&mut chip8, 0x00, 0x42, OpcodeALU::Assign), (0x42, 0));
}

#[test]
fn alu_flag_register_as_target_keeps_flag() {
    let mut chip8 = machine_with(&[]);
    chip8.set_v(u4::new(0xF), 0xFF);
    chip8.set_v(u4::new(2), 0x01);
    let op = Opcode::ALU { x: u4::new(0xF), y: u4::new(2), op: OpcodeALU::Add };
    chip8.execute(op, 0).unwrap();
    assert_eq!(chip8.v()[0xF], 1);
}

#[test]
fn draw_clips_at_right_edge() {
    let mut chip8 = machine_with(&[]);
    // A sprite row of eight lit pixels at 0x300.
    chip8.set_v(u4::new(0), 0xFF);
    chip8.set_i(u12::new(0x300));
    chip8.execute(Opcode::StoreRegs { x: u4::new(0) }, 0).unwrap();
    chip8.set_i(u12::new(0x300));
    chip8.set_v(u4::new(0), 60);
    chip8.set_v(u4::new(1), 0);
    let r = chip8.execute(Opcode::Draw { x: u4::new(0), y: u4::new(1), n: u4::new(1) }, 0);
    assert_eq!(r, Ok(Chip8Result::WaitForNextFrame));
    for x in 0..DISPLAY_X {
        assert_eq!(chip8.get_display_pixel(0, x), x >= 60, "column {x}");
        assert!(!chip8.get_display_pixel(1, x));
    }
    assert_eq!(chip8.display().iter().filter(|p| **p).count(), 4);
    assert_eq!(chip8.v()[0xF], 0);
}

#[test]
fn draw_erases_and_sets_flag() {
    let mut chip8 = machine_with(&[]);
    // Glyph of `0` from the font: 0xF0 0x90 0x90 0x90 0xF0.
    chip8.set_v(u4::new(3), 0);
    chip8.execute(Opcode::FontChar { x: u4::new(3) }, 0).unwrap();
    assert_eq!(chip8.i(), FONT_START_ADDRESS as u16);
    chip8.set_v(u4::new(0), 66); // wraps to column 2
    chip8.set_v(u4::new(1), 33); // wraps to row 1
    let draw = Opcode::Draw { x: u4::new(0), y: u4::new(1), n: u4::new(5) };
    chip8.execute(draw, 0).unwrap();
    assert!(chip8.get_display_pixel(1, 2));
    assert!(chip8.get_display_pixel(1, 5));
    assert!(!chip8.get_display_pixel(1, 6));
    assert!(chip8.get_display_pixel(2, 2));
    assert!(!chip8.get_display_pixel(2, 3));
    assert!(chip8.get_display_pixel(5, 5));
    assert_eq!(chip8.v()[0xF], 0);
    chip8.execute(draw, 0).unwrap();
    assert_eq!(chip8.v()[0xF], 1);
    assert!(chip8.display().iter().all(|p| !*p));
}

#[test]
fn draw_clips_at_bottom_edge() {
    let mut chip8 = machine_with(&[]);
    chip8.set_v(u4::new(3), 8);
    chip8.execute(Opcode::FontChar { x: u4::new(3) }, 0).unwrap();
    chip8.set_v(u4::new(0), 0);
    chip8.set_v(u4::new(1), 30);
    chip8.execute(Opcode::Draw { x: u4::new(0), y: u4::new(1), n: u4::new(5) }, 0).unwrap();
    assert!(chip8.get_display_pixel(30, 0));
    assert!(chip8.get_display_pixel(31, 0));
    for x in 0..DISPLAY_X {
        assert!(!chip8.get_display_pixel(0, x));
        assert!(!chip8.get_display_pixel(1, x));
    }
}

#[test]
fn clear_display_clears() {
    let mut chip8 = machine_with(&[]);
    chip8.execute(Opcode::Draw { x: u4::new(0), y: u4::new(0), n: u4::new(5) }, 0).unwrap();
    chip8.execute(Opcode::ClearDisplay, 0).unwrap();
    assert!(chip8.display().iter().all(|p| !*p));
}

#[test]
fn wait_for_key_without_keys_stays() {
    let mut chip8 = machine_with(&[0xF3, 0x0A]);
    let op = Opcode::WaitForKey { x: u4::new(3) };
    for _ in 0..3 {
        assert_eq!(chip8.execute(op, 0), Ok(Chip8Result::WaitForNextFrame));
        assert_eq!(chip8.pc(), 0x200);
    }
}

#[test]
fn wait_for_key_press_then_release() {
    let mut chip8 = machine_with(&[0xF3, 0x0A]);
    let op = Opcode::WaitForKey { x: u4::new(3) };
    chip8.set_key(u4::new(5), true);
    chip8.set_key(u4::new(9), true);
    assert_eq!(chip8.execute(op, 0), Ok(Chip8Result::WaitForNextFrame));
    assert_eq!(chip8.pc(), 0x200);
    // Still held: still waiting.
    assert_eq!(chip8.execute(op, 0), Ok(Chip8Result::WaitForNextFrame));
    assert_eq!(chip8.pc(), 0x200);
    chip8.set_key(u4::new(5), false);
    assert_eq!(chip8.execute(op, 0), Ok(Chip8Result::Continue));
    assert_eq!(chip8.v()[3], 5);
    assert_eq!(chip8.pc(), 0x202);
}

#[test]
fn wait_for_key_through_cycles() {
    let mut chip8 = machine_with(&[0xF3, 0x0A]);
    assert_eq!(chip8.cpu_cycle(), Ok(Chip8Result::WaitForNextFrame));
    chip8.set_key(u4::new(5), true);
    assert_eq!(chip8.cpu_cycle(), Ok(Chip8Result::WaitForNextFrame));
    assert_eq!(chip8.pc(), 0x200);
    chip8.set_key(u4::new(5), false);
    assert_eq!(chip8.cpu_cycle(), Ok(Chip8Result::Continue));
    assert_eq!(chip8.v()[3], 5);
    assert_eq!(chip8.pc(), 0x202);
}

#[test]
fn call_and_return() {
    let mut chip8 = machine_with(&[]);
    chip8.execute(Opcode::Call { nnn: 0x300 }, 0).unwrap();
    assert_eq!(chip8.pc(), 0x300);
    assert_eq!(chip8.stack(), vec![0x202]);
    chip8.execute(Opcode::Return, 0).unwrap();
    assert_eq!(chip8.pc(), 0x202);
    assert!(chip8.stack().is_empty());
}

#[test]
fn return_with_empty_stack_fails() {
    let mut chip8 = machine_with(&[]);
    assert_eq!(chip8.execute(Opcode::Return, 0), Err(Chip8Error::StackUnderflow));
}

#[test]
fn unknown_words_fail() {
    let mut chip8 = machine_with(&[0x51, 0x21, 0x81, 0x2F]);
    assert_eq!(chip8.cpu_cycle(), Err(Chip8Error::UnknownOpcode { opcode: 0x5121 }));
    assert_eq!(chip8.cpu_cycle(), Err(Chip8Error::UnknownALUOpcode { opcode: 0x812F }));
}

#[test]
fn skips_advance_by_two_more() {
    let mut chip8 = machine_with(&[]);
    chip8.set_v(u4::new(1), 7);
    chip8.execute(Opcode::SkipRegEqualImm { x: u4::new(1), nn: 7 }, 0).unwrap();
    assert_eq!(chip8.pc(), 0x204);
    chip8.execute(Opcode::SkipRegNotEqualImm { x: u4::new(1), nn: 7 }, 0).unwrap();
    assert_eq!(chip8.pc(), 0x206);
    chip8.set_v(u4::new(2), 7);
    chip8.execute(Opcode::SkipRegEqualReg { x: u4::new(1), y: u4::new(2) }, 0).unwrap();
    assert_eq!(chip8.pc(), 0x20A);
    chip8.execute(Opcode::SkipRegNotEqualReg { x: u4::new(1), y: u4::new(2) }, 0).unwrap();
    assert_eq!(chip8.pc(), 0x20C);
}

#[test]
fn key_skips_use_low_nibble() {
    let mut chip8 = machine_with(&[]);
    chip8.set_v(u4::new(1), 0x1A);
    chip8.set_key(u4::new(0xA), true);
    chip8.execute(Opcode::SkipIfPressed { x: u4::new(1) }, 0).unwrap();
    assert_eq!(chip8.pc(), 0x204);
    chip8.execute(Opcode::SkipIfNotPressed { x: u4::new(1) }, 0).unwrap();
    assert_eq!(chip8.pc(), 0x206);
}

#[test]
fn bcd_digits() {
    let mut chip8 = machine_with(&[]);
    chip8.set_v(u4::new(4), 254);
    chip8.set_i(u12::new(0x400));
    chip8.execute(Opcode::BCD { x: u4::new(4) }, 0).unwrap();
    assert_eq!(
        (chip8.memory_at(0x400), chip8.memory_at(0x401), chip8.memory_at(0x402)),
        (2, 5, 4)
    );
    assert_eq!(chip8.i(), 0x400);
}

#[test]
fn bcd_wraps_at_end_of_memory() {
    let mut chip8 = machine_with(&[]);
    chip8.set_v(u4::new(4), 123);
    chip8.set_i(u12::new(0xFFF));
    chip8.execute(Opcode::BCD { x: u4::new(4) }, 0).unwrap();
    assert_eq!((chip8.memory_at(0xFFF), chip8.memory_at(0x000), chip8.memory_at(0x001)), (1, 2, 3));
}

#[test]
fn store_and_load_registers() {
    let mut chip8 = machine_with(&[]);
    for k in 0..16u8 {
        chip8.set_v(u4::new(k), k + 10);
    }
    chip8.set_i(u12::new(0x500));
    chip8.execute(Opcode::StoreRegs { x: u4::new(3) }, 0).unwrap();
    assert_eq!(chip8.i(), 0x504);
    for k in 0..4 {
        assert_eq!(chip8.memory_at(0x500 + k), k as u8 + 10);
    }
    assert_eq!(chip8.memory_at(0x504), 0);
    for k in 0..16u8 {
        chip8.set_v(u4::new(k), 0);
    }
    chip8.set_i(u12::new(0x500));
    chip8.execute(Opcode::LoadRegs { x: u4::new(2) }, 0).unwrap();
    assert_eq!(chip8.i(), 0x503);
    assert_eq!(&chip8.v()[..4], &[10, 11, 12, 0]);
}

#[test]
fn index_and_jump_arithmetic_wraps() {
    let mut chip8 = machine_with(&[]);
    chip8.set_i(u12::new(0xFFF));
    chip8.set_v(u4::new(1), 2);
    chip8.execute(Opcode::AddIndexReg { x: u4::new(1) }, 0).unwrap();
    assert_eq!(chip8.i(), 0x001);
    chip8.set_v(u4::new(0), 0x10);
    chip8.execute(Opcode::JumpWithOffset { nnn: 0xFF8 }, 0).unwrap();
    assert_eq!(chip8.pc(), 0x008);
    chip8.execute(Opcode::AddRegImm { x: u4::new(1), nn: 0xFF }, 0).unwrap();
    assert_eq!(chip8.v()[1], 1);
}

#[test]
fn timers_count_down_and_beep() {
    let mut chip8 = machine_with(&[]);
    chip8.set_v(u4::new(1), 2);
    chip8.execute(Opcode::SetDelayTimer { x: u4::new(1) }, 0).unwrap();
    chip8.execute(Opcode::SetSoundTimer { x: u4::new(1) }, 0).unwrap();
    assert!(chip8.should_beep());
    chip8.timers_cycle();
    chip8.execute(Opcode::ReadDelayTimer { x: u4::new(2) }, 0).unwrap();
    assert_eq!(chip8.v()[2], 1);
    chip8.timers_cycle();
    chip8.timers_cycle();
    assert_eq!(chip8.delay_timer(), 0);
    assert_eq!(chip8.sound_timer(), 0);
    assert!(!chip8.should_beep());
}

#[test]
fn random_masks_byte() {
    let mut chip8 = machine_with(&[]);
    chip8.execute(Opcode::Random { x: u4::new(1), nn: 0x0F }, 0xAB).unwrap();
    assert_eq!(chip8.v()[1], 0x0B);
    chip8.execute(Opcode::Random { x: u4::new(1), nn: 0x00 }, 0xAB).unwrap();
    assert_eq!(chip8.v()[1], 0x00);
}

#[test]
fn random_cycle_respects_mask() {
    let mut chip8 = machine_with(&[0xC1, 0x0F, 0xC2, 0x00]);
    chip8.set_v(u4::new(2), 9);
    chip8.cpu_cycle().unwrap();
    assert!(chip8.v()[1] <= 0x0F);
    chip8.cpu_cycle().unwrap();
    assert_eq!(chip8.v()[2], 0);
}

#[test]
fn fetch_wraps_at_end_of_memory() {
    let mut chip8 = machine_with(&[]);
    assert_eq!(chip8.word_at(u12::new(0xFFF)), 0x0000);
    chip8.set_pc(u12::new(0x050));
    assert_eq!(chip8.word_at(u12::new(0x050)), 0xF090);
}

#[test]
fn font_table_has_sixteen_glyphs() {
    let f = chip8_rust::font();
    assert_eq!(f.len(), 80);
    assert_eq!(&f[..5], &[0xF0, 0x90, 0x90, 0x90, 0xF0]);
    assert_eq!(&f[75..], &[0xF0, 0x80, 0xF0, 0x80, 0x80]);
}

#[test]
fn font_char_points_at_glyph() {
    let mut chip8 = machine_with(&[]);
    chip8.set_v(u4::new(0), 0x1B);
    chip8.execute(Opcode::FontChar { x: u4::new(0) }, 0).unwrap();
    assert_eq!(chip8.i(), FONT_START_ADDRESS as u16 + 0xB * 5);
}
