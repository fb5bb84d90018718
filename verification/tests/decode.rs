use chip_ate::Instruction;

#[test]
fn decode_clear_screen() {
    assert_eq!(Instruction::from_opcode(0x00E0), Instruction::ClearScreen);
}

#[test]
fn decode_return() {
    assert_eq!(Instruction::from_opcode(0x00EE), Instruction::Return);
}

#[test]
fn decode_unknown_family0() {
    assert_eq!(
        Instruction::from_opcode(0x0123),
        Instruction::Unknown { opcode: 0x0123 }
    );
}

#[test]
fn decode_jump() {
    assert_eq!(
        Instruction::from_opcode(0x1ABC),
        Instruction::Jump { address: 0xABC }
    );
}

#[test]
fn decode_call() {
    assert_eq!(
        Instruction::from_opcode(0x2DEF),
        Instruction::Call { address: 0xDEF }
    );
}

#[test]
fn decode_skip_eq() {
    assert_eq!(
        Instruction::from_opcode(0x3A12),
        Instruction::SkipEq { vx: 0xA, byte: 0x12 }
    );
}

#[test]
fn decode_skip_ne() {
    assert_eq!(
        Instruction::from_opcode(0x4B34),
        Instruction::SkipNe { vx: 0xB, byte: 0x34 }
    );
}

#[test]
fn decode_skip_eq_reg() {
    assert_eq!(
        Instruction::from_opcode(0x5AB0),
        Instruction::SkipEqReg { vx: 0xA, vy: 0xB }
    );
}

#[test]
fn decode_skip_eq_reg_bad_nibble() {
    assert_eq!(
        Instruction::from_opcode(0x5AB1),
        Instruction::Unknown { opcode: 0x5AB1 }
    );
}

#[test]
fn decode_load_byte() {
    assert_eq!(
        Instruction::from_opcode(0x6C56),
        Instruction::LoadByte { vx: 0xC, byte: 0x56 }
    );
}

#[test]
fn decode_add_byte() {
    assert_eq!(
        Instruction::from_opcode(0x7D78),
        Instruction::AddByte { vx: 0xD, byte: 0x78 }
    );
}

#[test]
fn decode_alu_family() {
    assert_eq!(
        Instruction::from_opcode(0x8010),
        Instruction::LoadReg { vx: 0, vy: 1 }
    );
    assert_eq!(Instruction::from_opcode(0x8121), Instruction::Or { vx: 1, vy: 2 });
    assert_eq!(Instruction::from_opcode(0x8232), Instruction::And { vx: 2, vy: 3 });
    assert_eq!(Instruction::from_opcode(0x8343), Instruction::Xor { vx: 3, vy: 4 });
    assert_eq!(
        Instruction::from_opcode(0x8454),
        Instruction::AddReg { vx: 4, vy: 5 }
    );
    assert_eq!(Instruction::from_opcode(0x8565), Instruction::Sub { vx: 5, vy: 6 });
    assert_eq!(Instruction::from_opcode(0x8676), Instruction::Shr { vx: 6 });
    assert_eq!(
        Instruction::from_opcode(0x8787),
        Instruction::SubN { vx: 7, vy: 8 }
    );
    assert_eq!(Instruction::from_opcode(0x898E), Instruction::Shl { vx: 9 });
    assert_eq!(
        Instruction::from_opcode(0x8008),
        Instruction::Unknown { opcode: 0x8008 }
    );
}

#[test]
fn decode_skip_ne_reg() {
    assert_eq!(
        Instruction::from_opcode(0x9AB0),
        Instruction::SkipNeReg { vx: 0xA, vy: 0xB }
    );
    assert_eq!(
        Instruction::from_opcode(0x9AB2),
        Instruction::Unknown { opcode: 0x9AB2 }
    );
}

#[test]
fn decode_load_i() {
    assert_eq!(
        Instruction::from_opcode(0xA321),
        Instruction::LoadI { address: 0x321 }
    );
}

#[test]
fn decode_jump_v0() {
    assert_eq!(
        Instruction::from_opcode(0xB654),
        Instruction::JumpV0 { address: 0x654 }
    );
}

#[test]
fn decode_random() {
    assert_eq!(
        Instruction::from_opcode(0xC7FF),
        Instruction::Random { vx: 7, byte: 0xFF }
    );
}

#[test]
fn decode_draw() {
    assert_eq!(
        Instruction::from_opcode(0xD125),
        Instruction::Draw { vx: 1, vy: 2, n: 5 }
    );
}

#[test]
fn decode_key_skips() {
    assert_eq!(Instruction::from_opcode(0xE39E), Instruction::SkipKey { vx: 3 });
    assert_eq!(Instruction::from_opcode(0xE4A1), Instruction::SkipNoKey { vx: 4 });
    assert_eq!(
        Instruction::from_opcode(0xE4FF),
        Instruction::Unknown { opcode: 0xE4FF }
    );
}

#[test]
fn decode_f_family() {
    assert_eq!(Instruction::from_opcode(0xF107), Instruction::LoadDelay { vx: 1 });
    assert_eq!(Instruction::from_opcode(0xF20A), Instruction::WaitKey { vx: 2 });
    assert_eq!(Instruction::from_opcode(0xF315), Instruction::SetDelay { vx: 3 });
    assert_eq!(Instruction::from_opcode(0xF418), Instruction::SetSound { vx: 4 });
    assert_eq!(Instruction::from_opcode(0xF51E), Instruction::AddI { vx: 5 });
    assert_eq!(Instruction::from_opcode(0xF629), Instruction::LoadFont { vx: 6 });
    assert_eq!(Instruction::from_opcode(0xF733), Instruction::StoreBCD { vx: 7 });
    assert_eq!(Instruction::from_opcode(0xF855), Instruction::StoreRegs { vx: 8 });
    assert_eq!(Instruction::from_opcode(0xF965), Instruction::LoadRegs { vx: 9 });
    assert_eq!(
        Instruction::from_opcode(0xFA66),
        Instruction::Unknown { opcode: 0xFA66 }
    );
}

#[test]
fn decode_is_total_over_all_opcodes() {
    // Every one of the 65536 opcode words decodes without panicking, and the
    // catch-all variant carries the raw word back.
    for op in 0..=0xFFFFu16 {
        let instr = Instruction::from_opcode(op);
        if let Instruction::Unknown { opcode } = instr {
            assert_eq!(opcode, op);
        }
    }
}
