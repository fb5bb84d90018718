use chip_ate::{ChipAte, Fault, Instruction};

#[test]
fn add_reg_sets_carry_flag_on_overflow() {
    let mut chip = ChipAte::new();
    chip.v[0] = 200;
    chip.v[1] = 100;
    assert_eq!(chip.execute(Instruction::AddReg { vx: 0, vy: 1 }), Ok(()));
    assert_eq!(chip.v[0], 44);
    assert_eq!(chip.v[0xF], 1);
}

#[test]
fn add_reg_clears_carry_flag_without_overflow() {
    let mut chip = ChipAte::new();
    chip.v[0xF] = 1;
    chip.v[0] = 5;
    chip.v[1] = 3;
    assert_eq!(chip.execute(Instruction::AddReg { vx: 0, vy: 1 }), Ok(()));
    assert_eq!(chip.v[0], 8);
    assert_eq!(chip.v[0xF], 0);
}

#[test]
fn sub_flag_is_no_borrow() {
    let mut chip = ChipAte::new();
    chip.v[2] = 10;
    chip.v[3] = 5;
    assert_eq!(chip.execute(Instruction::Sub { vx: 2, vy: 3 }), Ok(()));
    assert_eq!(chip.v[2], 5);
    assert_eq!(chip.v[0xF], 1);
    chip.v[2] = 5;
    chip.v[3] = 10;
    assert_eq!(chip.execute(Instruction::Sub { vx: 2, vy: 3 }), Ok(()));
    assert_eq!(chip.v[2], 251);
    assert_eq!(chip.v[0xF], 0);
}

#[test]
fn subn_flag_is_no_borrow_reversed() {
    let mut chip = ChipAte::new();
    chip.v[4] = 3;
    chip.v[5] = 9;
    assert_eq!(chip.execute(Instruction::SubN { vx: 4, vy: 5 }), Ok(()));
    assert_eq!(chip.v[4], 6);
    assert_eq!(chip.v[0xF], 1);
    chip.v[4] = 9;
    chip.v[5] = 3;
    assert_eq!(chip.execute(Instruction::SubN { vx: 4, vy: 5 }), Ok(()));
    assert_eq!(chip.v[4], 250);
    assert_eq!(chip.v[0xF], 0);
}

#[test]
fn shr_captures_low_bit_before_shift() {
    let mut chip = ChipAte::new();
    chip.v[6] = 5;
    assert_eq!(chip.execute(Instruction::Shr { vx: 6 }), Ok(()));
    assert_eq!(chip.v[6], 2);
    assert_eq!(chip.v[0xF], 1);
    assert_eq!(chip.execute(Instruction::Shr { vx: 6 }), Ok(()));
    assert_eq!(chip.v[6], 1);
    assert_eq!(chip.v[0xF], 0);
}

#[test]
fn shl_captures_high_bit_before_shift() {
    let mut chip = ChipAte::new();
    chip.v[7] = 0x81;
    assert_eq!(chip.execute(Instruction::Shl { vx: 7 }), Ok(()));
    assert_eq!(chip.v[7], 2);
    assert_eq!(chip.v[0xF], 1);
    assert_eq!(chip.execute(Instruction::Shl { vx: 7 }), Ok(()));
    assert_eq!(chip.v[7], 4);
    assert_eq!(chip.v[0xF], 0);
}

#[test]
fn add_byte_wraps_without_flag() {
    let mut chip = ChipAte::new();
    chip.v[0] = 250;
    chip.v[0xF] = 0;
    assert_eq!(chip.execute(Instruction::AddByte { vx: 0, byte: 10 }), Ok(()));
    assert_eq!(chip.v[0], 4);
    assert_eq!(chip.v[0xF], 0);
}

#[test]
fn bitwise_ops() {
    let mut chip = ChipAte::new();
    chip.v[0] = 0b1100;
    chip.v[1] = 0b1010;
    assert_eq!(chip.execute(Instruction::Or { vx: 0, vy: 1 }), Ok(()));
    assert_eq!(chip.v[0], 0b1110);
    chip.v[0] = 0b1100;
    assert_eq!(chip.execute(Instruction::And { vx: 0, vy: 1 }), Ok(()));
    assert_eq!(chip.v[0], 0b1000);
    chip.v[0] = 0b1100;
    assert_eq!(chip.execute(Instruction::Xor { vx: 0, vy: 1 }), Ok(()));
    assert_eq!(chip.v[0], 0b0110);
}

#[test]
fn skips_advance_pc_by_two_only_when_condition_holds() {
    let mut chip = ChipAte::new();
    chip.v[0] = 7;
    chip.execute(Instruction::SkipEq { vx: 0, byte: 7 }).unwrap();
    assert_eq!(chip.pc, 0x202);
    chip.execute(Instruction::SkipEq { vx: 0, byte: 8 }).unwrap();
    assert_eq!(chip.pc, 0x202);
    chip.execute(Instruction::SkipNe { vx: 0, byte: 8 }).unwrap();
    assert_eq!(chip.pc, 0x204);
    chip.v[1] = 7;
    chip.execute(Instruction::SkipEqReg { vx: 0, vy: 1 }).unwrap();
    assert_eq!(chip.pc, 0x206);
    chip.execute(Instruction::SkipNeReg { vx: 0, vy: 1 }).unwrap();
    assert_eq!(chip.pc, 0x206);
}

#[test]
fn key_skips_read_the_pad() {
    let mut chip = ChipAte::new();
    chip.v[3] = 0xA;
    chip.set_key(0xA, true);
    chip.execute(Instruction::SkipKey { vx: 3 }).unwrap();
    assert_eq!(chip.pc, 0x202);
    chip.execute(Instruction::SkipNoKey { vx: 3 }).unwrap();
    assert_eq!(chip.pc, 0x202);
    chip.set_key(0xA, false);
    chip.execute(Instruction::SkipNoKey { vx: 3 }).unwrap();
    assert_eq!(chip.pc, 0x204);
}

#[test]
fn key_skip_with_bad_index_faults() {
    let mut chip = ChipAte::new();
    chip.v[3] = 200;
    assert_eq!(
        chip.execute(Instruction::SkipKey { vx: 3 }),
        Err(Fault::KeyOutOfRange)
    );
    assert_eq!(chip.pc, 0x200);
    assert_eq!(
        chip.execute(Instruction::SkipNoKey { vx: 3 }),
        Err(Fault::KeyOutOfRange)
    );
}

#[test]
fn call_and_return_restore_pc() {
    let mut chip = ChipAte::new();
    chip.pc = 0x202; // as if fetched past a Call at 0x200
    chip.execute(Instruction::Call { address: 0x400 }).unwrap();
    assert_eq!(chip.pc, 0x400);
    assert_eq!(chip.sp, 1);
    assert_eq!(chip.stack[0], 0x202);
    chip.execute(Instruction::Return).unwrap();
    assert_eq!(chip.pc, 0x202);
    assert_eq!(chip.sp, 0);
}

#[test]
fn call_overflow_faults_and_leaves_state() {
    let mut chip = ChipAte::new();
    for _ in 0..16 {
        chip.execute(Instruction::Call { address: 0x300 }).unwrap();
    }
    assert_eq!(chip.sp, 16);
    assert_eq!(
        chip.execute(Instruction::Call { address: 0x300 }),
        Err(Fault::StackOverflow)
    );
    assert_eq!(chip.sp, 16);
    assert_eq!(chip.pc, 0x300);
}

#[test]
fn return_underflow_faults() {
    let mut chip = ChipAte::new();
    assert_eq!(chip.execute(Instruction::Return), Err(Fault::StackUnderflow));
    assert_eq!(chip.pc, 0x200);
    assert_eq!(chip.sp, 0);
}

#[test]
fn store_bcd_writes_three_digits() {
    let mut chip = ChipAte::new();
    chip.v[0] = 234;
    chip.i = 0x300;
    chip.execute(Instruction::StoreBCD { vx: 0 }).unwrap();
    assert_eq!(&chip.memory[0x300..0x303], &[2, 3, 4]);
}

#[test]
fn store_bcd_out_of_bounds_faults() {
    let mut chip = ChipAte::new();
    chip.i = 4094;
    assert_eq!(
        chip.execute(Instruction::StoreBCD { vx: 0 }),
        Err(Fault::MemoryOutOfBounds)
    );
    assert_eq!(chip.memory[4094], 0);
}

#[test]
fn store_and_load_regs_round_trip() {
    let mut chip = ChipAte::new();
    for k in 0..4 {
        chip.v[k] = (10 + k) as u8;
    }
    chip.i = 0x320;
    chip.execute(Instruction::StoreRegs { vx: 3 }).unwrap();
    assert_eq!(&chip.memory[0x320..0x324], &[10, 11, 12, 13]);
    assert_eq!(chip.i, 0x320);
    let mut other = ChipAte::new();
    other.memory[0x320..0x324].copy_from_slice(&[10, 11, 12, 13]);
    other.i = 0x320;
    other.v[4] = 99;
    other.execute(Instruction::LoadRegs { vx: 3 }).unwrap();
    assert_eq!(&other.v[0..4], &[10, 11, 12, 13]);
    assert_eq!(other.v[4], 99);
}

#[test]
fn regs_block_out_of_bounds_faults() {
    let mut chip = ChipAte::new();
    chip.i = 4090;
    assert_eq!(
        chip.execute(Instruction::StoreRegs { vx: 6 }),
        Err(Fault::MemoryOutOfBounds)
    );
    assert_eq!(
        chip.execute(Instruction::LoadRegs { vx: 6 }),
        Err(Fault::MemoryOutOfBounds)
    );
}

#[test]
fn index_register_ops() {
    let mut chip = ChipAte::new();
    chip.execute(Instruction::LoadI { address: 0xFF0 }).unwrap();
    assert_eq!(chip.i, 0xFF0);
    chip.v[1] = 0x20;
    chip.execute(Instruction::AddI { vx: 1 }).unwrap();
    assert_eq!(chip.i, 0x1010);
    // AddI wraps in the 16-bit range.
    chip.i = 0xFFFF;
    chip.v[1] = 2;
    chip.execute(Instruction::AddI { vx: 1 }).unwrap();
    assert_eq!(chip.i, 1);
}

#[test]
fn load_font_points_into_the_table() {
    let mut chip = ChipAte::new();
    chip.v[2] = 0xF;
    chip.execute(Instruction::LoadFont { vx: 2 }).unwrap();
    assert_eq!(chip.i, 0x50 + 0xF * 5);
    assert_eq!(chip.memory[chip.i as usize], 0xF0);
}

#[test]
fn jump_and_jump_v0() {
    let mut chip = ChipAte::new();
    chip.execute(Instruction::Jump { address: 0x456 }).unwrap();
    assert_eq!(chip.pc, 0x456);
    chip.v[0] = 0x10;
    chip.execute(Instruction::JumpV0 { address: 0x300 }).unwrap();
    assert_eq!(chip.pc, 0x310);
}

#[test]
fn timer_instructions() {
    let mut chip = ChipAte::new();
    chip.v[1] = 30;
    chip.execute(Instruction::SetDelay { vx: 1 }).unwrap();
    assert_eq!(chip.delay_timer, 30);
    chip.execute(Instruction::LoadDelay { vx: 2 }).unwrap();
    assert_eq!(chip.v[2], 30);
    chip.v[3] = 9;
    chip.execute(Instruction::SetSound { vx: 3 }).unwrap();
    assert_eq!(chip.sound_timer, 9);
}

#[test]
fn clear_screen_zeroes_the_framebuffer() {
    let mut chip = ChipAte::new();
    chip.display[100] = 1;
    chip.execute(Instruction::ClearScreen).unwrap();
    assert!(chip.display.iter().all(|&p| p == 0));
}

#[test]
fn unknown_opcode_changes_nothing() {
    let mut chip = ChipAte::new();
    chip.execute(Instruction::Unknown { opcode: 0x0123 }).unwrap();
    assert_eq!(chip.pc, 0x200);
    assert_eq!(chip.sp, 0);
}

#[test]
fn draw_paints_sprite_and_reports_collision() {
    let mut chip = ChipAte::new();
    // Draw the glyph for 0 (0xF0 0x90 0x90 0x90 0xF0) at (0, 0).
    chip.i = 0x50;
    chip.v[0] = 0;
    chip.v[1] = 0;
    chip.execute(Instruction::Draw { vx: 0, vy: 1, n: 5 }).unwrap();
    assert_eq!(chip.v[0xF], 0);
    // Row 0 is 0xF0: pixels 0..4 lit, 4..8 dark.
    assert_eq!(&chip.display[0..8], &[1, 1, 1, 1, 0, 0, 0, 0]);
    // Row 1 is 0x90: pixels 0 and 3 lit.
    assert_eq!(&chip.display[64..72], &[1, 0, 0, 1, 0, 0, 0, 0]);
    // Drawing the same sprite again erases it and reports the collision.
    chip.execute(Instruction::Draw { vx: 0, vy: 1, n: 5 }).unwrap();
    assert_eq!(chip.v[0xF], 1);
    assert!(chip.display.iter().all(|&p| p == 0));
}

#[test]
fn draw_anchor_wraps_but_pixels_clip() {
    let mut chip = ChipAte::new();
    // One row of all-set pixels at x = 62: only columns 62 and 63 fit;
    // the rest clip off the right edge instead of wrapping.
    chip.memory[0x300] = 0xFF;
    chip.i = 0x300;
    chip.v[0] = 62;
    chip.v[1] = 0;
    chip.execute(Instruction::Draw { vx: 0, vy: 1, n: 1 }).unwrap();
    assert_eq!(chip.display[62], 1);
    assert_eq!(chip.display[63], 1);
    // Nothing spilled into the next row.
    assert!(chip.display[64..72].iter().all(|&p| p == 0));
    // The anchor itself wraps: x = 66 draws as x = 2.
    let mut chip2 = ChipAte::new();
    chip2.memory[0x300] = 0x80;
    chip2.i = 0x300;
    chip2.v[0] = 66;
    chip2.v[1] = 33;
    chip2.execute(Instruction::Draw { vx: 0, vy: 1, n: 1 }).unwrap();
    assert_eq!(chip2.display[1 * 64 + 2], 1);
}

#[test]
fn draw_past_memory_end_faults() {
    let mut chip = ChipAte::new();
    chip.i = 4095;
    assert_eq!(
        chip.execute(Instruction::Draw { vx: 0, vy: 1, n: 2 }),
        Err(Fault::MemoryOutOfBounds)
    );
    assert!(chip.display.iter().all(|&p| p == 0));
}

#[test]
fn random_result_is_masked() {
    let mut chip = ChipAte::new();
    for _ in 0..32 {
        chip.execute(Instruction::Random { vx: 0, byte: 0x0F }).unwrap();
        assert_eq!(chip.v[0] & 0xF0, 0);
    }
    chip.execute(Instruction::Random { vx: 0, byte: 0 }).unwrap();
    assert_eq!(chip.v[0], 0);
}
