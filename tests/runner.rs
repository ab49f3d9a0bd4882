use chip8_rust::{u4, Chip8, Chip8Runner, Chip8RunnerResult, CPU_HZ, NANOS_PER_SECOND, TIMER_HZ};

/// Nanoseconds in `n` CPU time-steps, rounded up.
fn cpu_steps(n: u64) -> u64 {
    (n * NANOS_PER_SECOND + CPU_HZ - 1) / CPU_HZ
}

fn runner_with(rom: &[u8]) -> Chip8Runner {
    let mut chip8 = Chip8::new();
    chip8.load(rom).unwrap();
    Chip8Runner::new(chip8)
}

#[test]
fn end_to_end_clear_set_jump() {
    let mut runner = runner_with(&[0x00, 0xE0, 0x61, 0x05, 0x12, 0x04]);
    for _ in 0..3 {
        assert_eq!(runner.update(cpu_steps(1)), Ok(Chip8RunnerResult::Finished));
    }
    assert_eq!(runner.chip8_ref().v()[1], 0x05);
    assert_eq!(runner.chip8_ref().pc(), 0x204);
    for _ in 0..20 {
        runner.update(cpu_steps(1)).unwrap();
        assert_eq!(runner.chip8_ref().pc(), 0x204);
    }
}

#[test]
fn ten_steps_run_ten_cycles() {
    // Ten `7001` (V0 += 1), then a jump to self.
    let mut rom = Vec::new();
    for _ in 0..10 {
        rom.extend_from_slice(&[0x70, 0x01]);
    }
    rom.extend_from_slice(&[0x12, 0x14]);
    let mut runner = runner_with(&rom);
    assert_eq!(runner.update(cpu_steps(10)), Ok(Chip8RunnerResult::Finished));
    assert_eq!(runner.chip8_ref().v()[0], 10);
    assert_eq!(runner.chip8_ref().pc(), 0x214);
    // Less than a nanosecond's worth is left: almost a whole step more runs nothing.
    let mut runner = runner_with(&rom);
    runner.update(cpu_steps(10)).unwrap();
    runner.update(cpu_steps(1) - 2).unwrap();
    assert_eq!(runner.chip8_ref().v()[0], 10);
}

#[test]
fn partial_steps_accumulate() {
    let mut runner = runner_with(&[0x70, 0x01, 0x70, 0x01, 0x12, 0x04]);
    let half = cpu_steps(1) / 2 + 1;
    runner.update(half).unwrap();
    assert_eq!(runner.chip8_ref().v()[0], 0);
    runner.update(half).unwrap();
    assert_eq!(runner.chip8_ref().v()[0], 1);
}

#[test]
fn draw_stops_the_frame() {
    // Draw, then V0 += 1: the draw ends the update and the accumulator is emptied.
    let mut runner = runner_with(&[0xD0, 0x01, 0x70, 0x01, 0x12, 0x04]);
    assert_eq!(runner.update(cpu_steps(5)), Ok(Chip8RunnerResult::Finished));
    assert_eq!(runner.chip8_ref().pc(), 0x202);
    assert_eq!(runner.chip8_ref().v()[0], 0);
    // Nothing left to catch up on.
    runner.update(0).unwrap();
    assert_eq!(runner.chip8_ref().pc(), 0x202);
    runner.update(cpu_steps(1)).unwrap();
    assert_eq!(runner.chip8_ref().v()[0], 1);
}

#[test]
fn timers_tick_at_sixty_hertz() {
    // F115: delay timer = V1 (set to 3 first).
    let mut runner = runner_with(&[0x61, 0x03, 0xF1, 0x15, 0xF1, 0x18, 0x12, 0x06]);
    runner.update(cpu_steps(3)).unwrap();
    assert_eq!(runner.chip8_ref().delay_timer(), 3);
    assert!(runner.should_beep());
    let timer_step = (NANOS_PER_SECOND + TIMER_HZ - 1) / TIMER_HZ;
    runner.update(timer_step).unwrap();
    assert_eq!(runner.chip8_ref().delay_timer(), 2);
    runner.update(5 * timer_step).unwrap();
    assert_eq!(runner.chip8_ref().delay_timer(), 0);
    assert_eq!(runner.chip8_ref().sound_timer(), 0);
    assert!(!runner.should_beep());
}

#[test]
fn error_stops_the_update() {
    let mut runner = runner_with(&[0x00, 0xEE, 0x70, 0x01]);
    assert!(runner.update(cpu_steps(3)).is_err());
    assert_eq!(runner.chip8_ref().pc(), 0x202);
    assert_eq!(runner.chip8_ref().v()[0], 0);
}

#[test]
fn runner_keys_and_pixels() {
    let mut runner = runner_with(&[0xF2, 0x0A, 0x12, 0x02]);
    runner.set_key(u4::new(7), true);
    runner.update(cpu_steps(1)).unwrap();
    runner.set_key(u4::new(7), false);
    runner.update(cpu_steps(1)).unwrap();
    assert_eq!(runner.chip8_ref().v()[2], 7);
    assert!(!runner.get_display_pixel(0, 0));
    runner.chip8_mut().set_key(u4::new(1), true);
    assert!(runner.chip8_ref().keypad()[1]);
}

#[test]
fn huge_delta_terminates() {
    let mut runner = runner_with(&[0x00, 0xE0, 0xD0, 0x01]);
    assert_eq!(runner.update(u64::MAX), Ok(Chip8RunnerResult::Finished));
    assert_eq!(runner.chip8_ref().pc(), 0x204);
}
