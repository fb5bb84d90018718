use chip_ate::{ChipAte, CycleStatus, Fault};

#[test]
fn end_to_end_add_and_clear() {
    // V0 = 5; V1 = 3; V0 += V1; ClearScreen.
    let mut chip = ChipAte::new();
    chip.load_rom(&[0x60, 0x05, 0x61, 0x03, 0x80, 0x14, 0x00, 0xE0])
        .unwrap();
    for _ in 0..4 {
        assert_eq!(chip.cycle(), Ok(CycleStatus::Normal));
    }
    assert_eq!(chip.v[0], 8);
    assert_eq!(chip.v[0xF], 0);
    assert!(chip.display.iter().all(|&p| p == 0));
    assert_eq!(chip.pc, 0x208);
}

#[test]
fn wait_key_stalls_until_a_key_is_latched() {
    let mut chip = ChipAte::new();
    chip.load_rom(&[0xF0, 0x0A]).unwrap();
    // With no key pending the cycle stalls, leaving pc on the instruction.
    for _ in 0..3 {
        assert_eq!(chip.cycle(), Ok(CycleStatus::WaitingForKey));
        assert_eq!(chip.pc, 0x200);
    }
    // A latched key resumes: the key lands in V0, the latch clears, and pc
    // advances exactly once past the instruction.
    chip.set_key(0x7, true);
    assert_eq!(chip.cycle(), Ok(CycleStatus::Normal));
    assert_eq!(chip.v[0], 0x7);
    assert_eq!(chip.pressed_key, None);
    assert_eq!(chip.pc, 0x202);
}

#[test]
fn call_then_return_resumes_after_the_call() {
    // 0x200: Call 0x204; 0x202: Jump 0x202 (never reached before Return);
    // 0x204: Return.
    let mut chip = ChipAte::new();
    chip.load_rom(&[0x22, 0x04, 0x12, 0x02, 0x00, 0xEE]).unwrap();
    assert_eq!(chip.cycle(), Ok(CycleStatus::Normal));
    assert_eq!(chip.pc, 0x204);
    assert_eq!(chip.sp, 1);
    assert_eq!(chip.stack[0], 0x202);
    assert_eq!(chip.cycle(), Ok(CycleStatus::Normal));
    assert_eq!(chip.pc, 0x202);
    assert_eq!(chip.sp, 0);
}

#[test]
fn cycle_reports_faults_from_the_instruction() {
    // Return on an empty stack.
    let mut chip = ChipAte::new();
    chip.load_rom(&[0x00, 0xEE]).unwrap();
    assert_eq!(chip.cycle(), Err(Fault::StackUnderflow));
    // pc has advanced past the faulting instruction, nothing else changed.
    assert_eq!(chip.pc, 0x202);
    assert_eq!(chip.sp, 0);
}

#[test]
fn cycle_on_unknown_opcode_is_a_no_op_advance() {
    let mut chip = ChipAte::new();
    chip.load_rom(&[0x01, 0x23]).unwrap();
    assert_eq!(chip.cycle(), Ok(CycleStatus::Normal));
    assert_eq!(chip.pc, 0x202);
}

#[test]
fn random_through_a_cycle_is_masked() {
    let mut chip = ChipAte::new();
    chip.load_rom(&[0xC0, 0x0F]).unwrap();
    assert_eq!(chip.cycle(), Ok(CycleStatus::Normal));
    assert_eq!(chip.v[0] & 0xF0, 0);
}

#[test]
fn draw_cycles_toggle_and_collide() {
    // LoadI 0x250; Draw V0 V1 1; Draw V0 V1 1. The sprite byte 0xC0 lights
    // two pixels, and the second draw erases them and reports collision.
    let mut chip = ChipAte::new();
    chip.load_rom(&[0xA2, 0x50, 0xD0, 0x11, 0xD0, 0x11]).unwrap();
    chip.memory[0x250] = 0xC0;
    assert_eq!(chip.cycle(), Ok(CycleStatus::Normal));
    assert_eq!(chip.cycle(), Ok(CycleStatus::Normal));
    assert_eq!(chip.display[0], 1);
    assert_eq!(chip.display[1], 1);
    assert_eq!(chip.v[0xF], 0);
    assert_eq!(chip.cycle(), Ok(CycleStatus::Normal));
    assert_eq!(chip.v[0xF], 1);
    assert!(chip.display.iter().all(|&p| p == 0));
}

#[test]
fn skip_instruction_skips_the_next_opcode() {
    // V0 = 5; SkipEq V0, 5 (skips); V0 = 9 (skipped); V1 = 2.
    let mut chip = ChipAte::new();
    chip.load_rom(&[0x60, 0x05, 0x30, 0x05, 0x60, 0x09, 0x61, 0x02])
        .unwrap();
    for _ in 0..3 {
        assert_eq!(chip.cycle(), Ok(CycleStatus::Normal));
    }
    assert_eq!(chip.v[0], 5);
    assert_eq!(chip.v[1], 2);
}
