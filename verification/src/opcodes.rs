//! The CHIP-8 instruction set: a typed instruction value for each of the 35
//! baseline opcodes, and a total decoder from raw 16-bit opcode words.
//!
//! An opcode is four nibbles `[family | x | y | n]`. The derived fields are
//! `x` (bits 8..12), `y` (bits 4..8), `n` (bits 0..4), `kk` (bits 0..8) and
//! `nnn` (bits 0..12). Dispatch is on the top nibble first and, for families
//! 0x0, 0x8, 0xE and 0xF, on a secondary selector; unrecognized patterns map
//! to `Unknown`, carrying the raw word for diagnostics.

use vstd::prelude::*;

verus! {

/// One decoded CHIP-8 instruction.
#[derive(Debug, Clone, Copy, PartialEq, Eq, Structural)]
pub enum Instruction {
    /// 00E0: clear the framebuffer.
    ClearScreen,
    /// 00EE: return from a subroutine by popping the stack into pc.
    Return,
    /// 1nnn: set pc to `address`.
    Jump { address: u16 },
    /// 2nnn: push pc, then set pc to `address`.
    Call { address: u16 },
    /// 3xkk: skip the next instruction if Vx == kk.
    SkipEq { vx: u8, byte: u8 },
    /// 4xkk: skip the next instruction if Vx != kk.
    SkipNe { vx: u8, byte: u8 },
    /// 5xy0: skip the next instruction if Vx == Vy.
    SkipEqReg { vx: u8, vy: u8 },
    /// 6xkk: load kk into Vx.
    LoadByte { vx: u8, byte: u8 },
    /// 7xkk: add kk to Vx, wrapping, with no flag update.
    AddByte { vx: u8, byte: u8 },
    /// 8xy0: copy Vy into Vx.
    LoadReg { vx: u8, vy: u8 },
    /// 8xy1: Vx |= Vy.
    Or { vx: u8, vy: u8 },
    /// 8xy2: Vx &= Vy.
    And { vx: u8, vy: u8 },
    /// 8xy3: Vx ^= Vy.
    Xor { vx: u8, vy: u8 },
    /// 8xy4: Vx += Vy, wrapping; VF is 1 exactly when the sum exceeds 255.
    AddReg { vx: u8, vy: u8 },
    /// 8xy5: Vx -= Vy, wrapping; VF is 1 exactly when no borrow (Vx >= Vy).
    Sub { vx: u8, vy: u8 },
    /// 8xy6: VF takes the least significant bit of Vx, then Vx >>= 1.
    Shr { vx: u8 },
    /// 8xy7: Vx = Vy - Vx, wrapping; VF is 1 exactly when no borrow (Vy >= Vx).
    SubN { vx: u8, vy: u8 },
    /// 8xyE: VF takes the most significant bit of Vx, then Vx <<= 1.
    Shl { vx: u8 },
    /// 9xy0: skip the next instruction if Vx != Vy.
    SkipNeReg { vx: u8, vy: u8 },
    /// Annn: set the index register I to `address`.
    LoadI { address: u16 },
    /// Bnnn: set pc to `address` + V0.
    JumpV0 { address: u16 },
    /// Cxkk: set Vx to a random byte ANDed with kk.
    Random { vx: u8, byte: u8 },
    /// Dxyn: draw an n-byte sprite at (Vx mod 64, Vy mod 32); VF reports collision.
    Draw { vx: u8, vy: u8, n: u8 },
    /// Ex9E: skip the next instruction if the key indexed by Vx is pressed.
    SkipKey { vx: u8 },
    /// ExA1: skip the next instruction if the key indexed by Vx is not pressed.
    SkipNoKey { vx: u8 },
    /// Fx07: load the delay timer into Vx.
    LoadDelay { vx: u8 },
    /// Fx0A: block until a key is latched, then store it in Vx.
    WaitKey { vx: u8 },
    /// Fx15: set the delay timer to Vx.
    SetDelay { vx: u8 },
    /// Fx18: set the sound timer to Vx.
    SetSound { vx: u8 },
    /// Fx1E: add Vx to I, wrapping in the 16-bit range.
    AddI { vx: u8 },
    /// Fx29: set I to the font glyph address for the hex digit in Vx.
    LoadFont { vx: u8 },
    /// Fx33: store the decimal digits of Vx at I, I+1, I+2.
    StoreBCD { vx: u8 },
    /// Fx55: store V0..=Vx into memory starting at I.
    StoreRegs { vx: u8 },
    /// Fx65: load V0..=Vx from memory starting at I.
    LoadRegs { vx: u8 },
    /// Any bit pattern outside the 35-instruction set; carries the raw word.
    Unknown { opcode: u16 },
}

impl Instruction {
    /// Every field is in its encodable range: register indices are nibbles,
    /// addresses are 12 bits. Decoded instructions always satisfy this.
    pub open spec fn wf(self) -> bool {
        match self {
            Instruction::ClearScreen => true,
            Instruction::Return => true,
            Instruction::Jump { address } => address < 0x1000,
            Instruction::Call { address } => address < 0x1000,
            Instruction::SkipEq { vx, byte } => vx < 16,
            Instruction::SkipNe { vx, byte } => vx < 16,
            Instruction::SkipEqReg { vx, vy } => vx < 16 && vy < 16,
            Instruction::LoadByte { vx, byte } => vx < 16,
            Instruction::AddByte { vx, byte } => vx < 16,
            Instruction::LoadReg { vx, vy } => vx < 16 && vy < 16,
            Instruction::Or { vx, vy } => vx < 16 && vy < 16,
            Instruction::And { vx, vy } => vx < 16 && vy < 16,
            Instruction::Xor { vx, vy } => vx < 16 && vy < 16,
            Instruction::AddReg { vx, vy } => vx < 16 && vy < 16,
            Instruction::Sub { vx, vy } => vx < 16 && vy < 16,
            Instruction::Shr { vx } => vx < 16,
            Instruction::SubN { vx, vy } => vx < 16 && vy < 16,
            Instruction::Shl { vx } => vx < 16,
            Instruction::SkipNeReg { vx, vy } => vx < 16 && vy < 16,
            Instruction::LoadI { address } => address < 0x1000,
            Instruction::JumpV0 { address } => address < 0x1000,
            Instruction::Random { vx, byte } => vx < 16,
            Instruction::Draw { vx, vy, n } => vx < 16 && vy < 16 && n < 16,
            Instruction::SkipKey { vx } => vx < 16,
            Instruction::SkipNoKey { vx } => vx < 16,
            Instruction::LoadDelay { vx } => vx < 16,
            Instruction::WaitKey { vx } => vx < 16,
            Instruction::SetDelay { vx } => vx < 16,
            Instruction::SetSound { vx } => vx < 16,
            Instruction::AddI { vx } => vx < 16,
            Instruction::LoadFont { vx } => vx < 16,
            Instruction::StoreBCD { vx } => vx < 16,
            Instruction::StoreRegs { vx } => vx < 16,
            Instruction::LoadRegs { vx } => vx < 16,
            Instruction::Unknown { opcode } => true,
        }
    }

    /// The meaning of a raw 16-bit opcode word: a total map onto the
    /// instruction set, with `Unknown` for every unrecognized pattern.
    pub open spec fn decode(opcode: u16) -> Instruction {
        let x = ((opcode & 0x0F00) >> 8) as u8;
        let y = ((opcode & 0x00F0) >> 4) as u8;
        let n = (opcode & 0x000F) as u8;
        let nnn = opcode & 0x0FFF;
        let kk = (opcode & 0x00FF) as u8;
        let family = opcode & 0xF000;
        if family == 0x0000 {
            if opcode & 0x00FF == 0x00E0 {
                Instruction::ClearScreen
            } else if opcode & 0x00FF == 0x00EE {
                Instruction::Return
            } else {
                Instruction::Unknown { opcode }
            }
        } else if family == 0x1000 {
            Instruction::Jump { address: nnn }
        } else if family == 0x2000 {
            Instruction::Call { address: nnn }
        } else if family == 0x3000 {
            Instruction::SkipEq { vx: x, byte: kk }
        } else if family == 0x4000 {
            Instruction::SkipNe { vx: x, byte: kk }
        } else if family == 0x5000 {
            if n == 0 {
                Instruction::SkipEqReg { vx: x, vy: y }
            } else {
                Instruction::Unknown { opcode }
            }
        } else if family == 0x6000 {
            Instruction::LoadByte { vx: x, byte: kk }
        } else if family == 0x7000 {
            Instruction::AddByte { vx: x, byte: kk }
        } else if family == 0x8000 {
            if n == 0x0 {
                Instruction::LoadReg { vx: x, vy: y }
            } else if n == 0x1 {
                Instruction::Or { vx: x, vy: y }
            } else if n == 0x2 {
                Instruction::And { vx: x, vy: y }
            } else if n == 0x3 {
                Instruction::Xor { vx: x, vy: y }
            } else if n == 0x4 {
                Instruction::AddReg { vx: x, vy: y }
            } else if n == 0x5 {
                Instruction::Sub { vx: x, vy: y }
            } else if n == 0x6 {
                Instruction::Shr { vx: x }
            } else if n == 0x7 {
                Instruction::SubN { vx: x, vy: y }
            } else if n == 0xE {
                Instruction::Shl { vx: x }
            } else {
                Instruction::Unknown { opcode }
            }
        } else if family == 0x9000 {
            if n == 0 {
                Instruction::SkipNeReg { vx: x, vy: y }
            } else {
                Instruction::Unknown { opcode }
            }
        } else if family == 0xA000 {
            Instruction::LoadI { address: nnn }
        } else if family == 0xB000 {
            Instruction::JumpV0 { address: nnn }
        } else if family == 0xC000 {
            Instruction::Random { vx: x, byte: kk }
        } else if family == 0xD000 {
            Instruction::Draw { vx: x, vy: y, n }
        } else if family == 0xE000 {
            if opcode & 0x00FF == 0x009E {
                Instruction::SkipKey { vx: x }
            } else if opcode & 0x00FF == 0x00A1 {
                Instruction::SkipNoKey { vx: x }
            } else {
                Instruction::Unknown { opcode }
            }
        } else {
            // family == 0xF000
            if opcode & 0x00FF == 0x0007 {
                Instruction::LoadDelay { vx: x }
            } else if opcode & 0x00FF == 0x000A {
                Instruction::WaitKey { vx: x }
            } else if opcode & 0x00FF == 0x0015 {
                Instruction::SetDelay { vx: x }
            } else if opcode & 0x00FF == 0x0018 {
                Instruction::SetSound { vx: x }
            } else if opcode & 0x00FF == 0x001E {
                Instruction::AddI { vx: x }
            } else if opcode & 0x00FF == 0x0029 {
                Instruction::LoadFont { vx: x }
            } else if opcode & 0x00FF == 0x0033 {
                Instruction::StoreBCD { vx: x }
            } else if opcode & 0x00FF == 0x0055 {
                Instruction::StoreRegs { vx: x }
            } else if opcode & 0x00FF == 0x0065 {
                Instruction::LoadRegs { vx: x }
            } else {
                Instruction::Unknown { opcode }
            }
        }
    }

    /// Decoding is total: every opcode, recognized or not, yields exactly the
    /// instruction `Instruction::decode` names, and its fields are in range.
    pub fn from_opcode(opcode: u16) -> (r: Instruction)
        ensures
            r == Instruction::decode(opcode),
            r.wf(),
    {
        proof {
            Instruction::lemma_decode_wf(opcode);
        }
        let x = ((opcode & 0x0F00) >> 8) as u8;
        let y = ((opcode & 0x00F0) >> 4) as u8;
        let n = (opcode & 0x000F) as u8;
        let nnn = opcode & 0x0FFF;
        let kk = (opcode & 0x00FF) as u8;
        let family = opcode & 0xF000;
        if family == 0x0000 {
            if opcode & 0x00FF == 0x00E0 {
                Instruction::ClearScreen
            } else if opcode & 0x00FF == 0x00EE {
                Instruction::Return
            } else {
                Instruction::Unknown { opcode }
            }
        } else if family == 0x1000 {
            Instruction::Jump { address: nnn }
        } else if family == 0x2000 {
            Instruction::Call { address: nnn }
        } else if family == 0x3000 {
            Instruction::SkipEq { vx: x, byte: kk }
        } else if family == 0x4000 {
            Instruction::SkipNe { vx: x, byte: kk }
        } else if family == 0x5000 {
            if n == 0 {
                Instruction::SkipEqReg { vx: x, vy: y }
            } else {
                Instruction::Unknown { opcode }
            }
        } else if family == 0x6000 {
            Instruction::LoadByte { vx: x, byte: kk }
        } else if family == 0x7000 {
            Instruction::AddByte { vx: x, byte: kk }
        } else if family == 0x8000 {
            if n == 0x0 {
                Instruction::LoadReg { vx: x, vy: y }
            } else if n == 0x1 {
                Instruction::Or { vx: x, vy: y }
            } else if n == 0x2 {
                Instruction::And { vx: x, vy: y }
            } else if n == 0x3 {
                Instruction::Xor { vx: x, vy: y }
            } else if n == 0x4 {
                Instruction::AddReg { vx: x, vy: y }
            } else if n == 0x5 {
                Instruction::Sub { vx: x, vy: y }
            } else if n == 0x6 {
                Instruction::Shr { vx: x }
            } else if n == 0x7 {
                Instruction::SubN { vx: x, vy: y }
            } else if n == 0xE {
                Instruction::Shl { vx: x }
            } else {
                Instruction::Unknown { opcode }
            }
        } else if family == 0x9000 {
            if n == 0 {
                Instruction::SkipNeReg { vx: x, vy: y }
            } else {
                Instruction::Unknown { opcode }
            }
        } else if family == 0xA000 {
            Instruction::LoadI { address: nnn }
        } else if family == 0xB000 {
            Instruction::JumpV0 { address: nnn }
        } else if family == 0xC000 {
            Instruction::Random { vx: x, byte: kk }
        } else if family == 0xD000 {
            Instruction::Draw { vx: x, vy: y, n }
        } else if family == 0xE000 {
            if opcode & 0x00FF == 0x009E {
                Instruction::SkipKey { vx: x }
            } else if opcode & 0x00FF == 0x00A1 {
                Instruction::SkipNoKey { vx: x }
            } else {
                Instruction::Unknown { opcode }
            }
        } else {
            if opcode & 0x00FF == 0x0007 {
                Instruction::LoadDelay { vx: x }
            } else if opcode & 0x00FF == 0x000A {
                Instruction::WaitKey { vx: x }
            } else if opcode & 0x00FF == 0x0015 {
                Instruction::SetDelay { vx: x }
            } else if opcode & 0x00FF == 0x0018 {
                Instruction::SetSound { vx: x }
            } else if opcode & 0x00FF == 0x001E {
                Instruction::AddI { vx: x }
            } else if opcode & 0x00FF == 0x0029 {
                Instruction::LoadFont { vx: x }
            } else if opcode & 0x00FF == 0x0033 {
                Instruction::StoreBCD { vx: x }
            } else if opcode & 0x00FF == 0x0055 {
                Instruction::StoreRegs { vx: x }
            } else if opcode & 0x00FF == 0x0065 {
                Instruction::LoadRegs { vx: x }
            } else {
                Instruction::Unknown { opcode }
            }
        }
    }

    /// A decoded instruction always has its fields in encodable range: the
    /// register nibbles are below 16 and addresses below 0x1000.
    pub proof fn lemma_decode_wf(opcode: u16)
        ensures
            Instruction::decode(opcode).wf(),
    {
        assert(((opcode & 0x0F00) >> 8) < 16) by (bit_vector);
        assert(((opcode & 0x00F0) >> 4) < 16) by (bit_vector);
        assert((opcode & 0x000F) < 16) by (bit_vector);
        assert((opcode & 0x0FFF) < 0x1000) by (bit_vector);
    }
}

} // verus!
