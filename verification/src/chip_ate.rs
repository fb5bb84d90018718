//! The CHIP-8 machine state and its execution engine.
//!
//! `ChipAte` is the complete snapshot of the virtual CPU: 4096 bytes of
//! memory with the font glyphs preloaded at 0x50, sixteen 8-bit registers,
//! the 16-bit index register and program counter, a 16-entry call stack, the
//! 64 x 32 framebuffer, two 60 Hz countdown timers, the keypad and the
//! pending-key latch. `MachineView` is its mathematical image, and every
//! operation's contract pins the new view down exactly.
//!
//! Fault policy: the baseline instruction set leaves stack overflow and
//! underflow and out-of-range memory indirection undefined, so `execute` and
//! `cycle` report them as a `Fault` and leave the machine unchanged (beyond
//! the already-fetched program counter), rather than corrupting state.
//! Program-counter arithmetic wraps in the 16-bit space; a driver that keeps
//! pc inside memory never exercises the wrap.

use vstd::prelude::*;

use crate::display::{draw_collision, draw_display, draw_sprite};
use crate::opcodes::Instruction;

verus! {

/// Total bytes of machine memory.
pub const MEMORY_SIZE: usize = 4096;

/// Address where loaded programs begin.
pub const PROGRAM_START: u16 = 0x200;

/// Base address of the preloaded font table: sixteen 5-byte glyphs.
pub const FONT_START: u16 = 0x50;

/// Framebuffer width in pixels.
pub const DISPLAY_WIDTH: usize = 64;

/// Framebuffer height in pixels.
pub const DISPLAY_HEIGHT: usize = 32;

/// Number of cells in the flat row-major framebuffer.
pub const DISPLAY_SIZE: usize = 2048;

/// Call-stack capacity in return addresses.
pub const STACK_SIZE: usize = 16;

/// Number of general-purpose registers, and of keypad keys.
pub const REGISTER_COUNT: usize = 16;

/// The preloaded 5-byte font glyphs for hex digits 0 through F.
pub const FONT_DATA: [u8; 80] = [
    0xF0, 0x90, 0x90, 0x90, 0xF0,
    0x20, 0x60, 0x20, 0x20, 0x70,
    0xF0, 0x10, 0xF0, 0x80, 0xF0,
    0xF0, 0x10, 0xF0, 0x10, 0xF0,
    0x90, 0x90, 0xF0, 0x10, 0x10,
    0xF0, 0x80, 0xF0, 0x10, 0xF0,
    0xF0, 0x80, 0xF0, 0x90, 0xF0,
    0xF0, 0x10, 0x20, 0x40, 0x40,
    0xF0, 0x90, 0xF0, 0x90, 0xF0,
    0xF0, 0x90, 0xF0, 0x10, 0xF0,
    0xF0, 0x90, 0xF0, 0x90, 0x90,
    0xE0, 0x90, 0xE0, 0x90, 0xE0,
    0xF0, 0x80, 0x80, 0x80, 0xF0,
    0xE0, 0x90, 0x90, 0x90, 0xE0,
    0xF0, 0x80, 0xF0, 0x80, 0xF0,
    0xF0, 0x80, 0xF0, 0x80, 0x80,
];

/// The outcome of one engine cycle: either one instruction fully executed,
/// or execution stalled on a blocking key-wait with no key latched.
#[derive(Debug, Clone, Copy, PartialEq, Eq, Structural)]
pub enum CycleStatus {
    Normal,
    WaitingForKey,
}

/// A deterministic execution fault. The baseline instruction set leaves
/// these conditions undefined; this machine reports them and leaves state
/// uncorrupted instead of wrapping or spilling into adjacent memory.
#[derive(Debug, Clone, Copy, PartialEq, Eq, Structural)]
pub enum Fault {
    /// A Call was executed with all 16 stack slots in use.
    StackOverflow,
    /// A Return was executed with an empty stack.
    StackUnderflow,
    /// A memory-indirect instruction would read or write past 0xFFF.
    MemoryOutOfBounds,
    /// A key-skip instruction named a key index above 15.
    KeyOutOfRange,
}

/// Why a ROM image was rejected.
#[derive(Debug, Clone, Copy, PartialEq, Eq, Structural)]
pub enum LoadError {
    /// The image does not fit between 0x200 and the end of memory.
    TooLarge,
}

/// The mathematical image of the machine: every field as a plain value or
/// sequence. All contracts of the engine are stated over this view.
#[verifier::ext_equal]
pub struct MachineView {
    pub memory: Seq<u8>,
    pub v: Seq<u8>,
    pub i: u16,
    pub pc: u16,
    pub stack: Seq<u16>,
    pub sp: u8,
    pub display: Seq<u8>,
    pub delay_timer: u8,
    pub sound_timer: u8,
    pub keypad: Seq<u8>,
    pub pressed_key: Option<u8>,
    pub beep_active: bool,
}

/// Adds `d` to `x`, wrapping in the 16-bit space.
pub open spec fn wrap_add16(x: u16, d: u16) -> u16 {
    vstd::wrapping::u16_specs::wrapping_add(x, d)
}

/// Subtracts `d` from `x`, wrapping in the 16-bit space.
pub open spec fn wrap_sub16(x: u16, d: u16) -> u16 {
    vstd::wrapping::u16_specs::wrapping_sub(x, d)
}

impl MachineView {
    /// Well-formedness: the sequences have the machine's fixed dimensions
    /// and the stack pointer stays within the 16 slots. Views of `ChipAte`
    /// values have the dimensions by construction; every engine operation
    /// preserves the stack-pointer bound.
    pub open spec fn wf(self) -> bool {
        &&& self.memory.len() == 4096
        &&& self.v.len() == 16
        &&& self.stack.len() == 16
        &&& self.display.len() == 2048
        &&& self.keypad.len() == 16
        &&& self.sp <= 16
    }

    /// The freshly constructed machine: memory zero except the font table at
    /// 0x50, pc at the program start, everything else cleared.
    pub open spec fn initial() -> MachineView {
        MachineView {
            memory: Seq::new(
                4096,
                |k: int| if 0x50 <= k < 0xA0 {
                    FONT_DATA@[k - 0x50]
                } else {
                    0u8
                },
            ),
            v: Seq::new(16, |k: int| 0u8),
            i: 0,
            pc: 0x200,
            stack: Seq::new(16, |k: int| 0u16),
            sp: 0,
            display: Seq::new(2048, |k: int| 0u8),
            delay_timer: 0,
            sound_timer: 0,
            keypad: Seq::new(16, |k: int| 0u8),
            pressed_key: None,
            beep_active: false,
        }
    }

    /// Memory after a ROM image is copied in at the program start.
    pub open spec fn loaded_memory(self, rom: Seq<u8>) -> Seq<u8> {
        Seq::new(
            4096,
            |k: int| if 0x200 <= k < 0x200 + rom.len() {
                rom[k - 0x200]
            } else {
                self.memory[k]
            },
        )
    }

    /// The fetch step: read the big-endian opcode at pc and advance pc by 2.
    /// When pc does not reference two readable bytes the fetch yields opcode
    /// 0 and leaves pc alone, as a deterministic stall.
    pub open spec fn fetch_spec(self) -> (MachineView, u16) {
        if self.pc + 1 < 4096 {
            (
                MachineView { pc: (self.pc + 2) as u16, ..self },
                ((self.memory[self.pc as int] as u16) << 8u16) | (self.memory[self.pc as int
                    + 1] as u16),
            )
        } else {
            (self, 0u16)
        }
    }

    /// The effect of applying one decoded instruction to the machine, after
    /// the opcode has already been fetched and pc advanced past it. `rnd` is
    /// the byte the Random instruction masks; no other instruction reads it.
    /// A fault leaves the machine unchanged.
    pub open spec fn step(self, instr: Instruction, rnd: u8) -> Result<MachineView, Fault>
        recommends
            self.wf(),
            instr.wf(),
    {
        match instr {
            Instruction::ClearScreen => Ok(
                MachineView { display: Seq::new(2048, |k: int| 0u8), ..self },
            ),
            Instruction::Return => if self.sp == 0 {
                Err(Fault::StackUnderflow)
            } else {
                Ok(
                    MachineView {
                        pc: self.stack[self.sp - 1],
                        sp: (self.sp - 1) as u8,
                        ..self
                    },
                )
            },
            Instruction::Jump { address } => Ok(MachineView { pc: address, ..self }),
            Instruction::Call { address } => if self.sp >= 16 {
                Err(Fault::StackOverflow)
            } else {
                Ok(
                    MachineView {
                        stack: self.stack.update(self.sp as int, self.pc),
                        sp: (self.sp + 1) as u8,
                        pc: address,
                        ..self
                    },
                )
            },
            Instruction::SkipEq { vx, byte } => Ok(
                if self.v[vx as int] == byte {
                    MachineView { pc: wrap_add16(self.pc, 2), ..self }
                } else {
                    self
                },
            ),
            Instruction::SkipNe { vx, byte } => Ok(
                if self.v[vx as int] != byte {
                    MachineView { pc: wrap_add16(self.pc, 2), ..self }
                } else {
                    self
                },
            ),
            Instruction::SkipEqReg { vx, vy } => Ok(
                if self.v[vx as int] == self.v[vy as int] {
                    MachineView { pc: wrap_add16(self.pc, 2), ..self }
                } else {
                    self
                },
            ),
            Instruction::LoadByte { vx, byte } => Ok(
                MachineView { v: self.v.update(vx as int, byte), ..self },
            ),
            Instruction::AddByte { vx, byte } => Ok(
                MachineView {
                    v: self.v.update(vx as int, wrap_add8(self.v[vx as int], byte)),
                    ..self
                },
            ),
            Instruction::LoadReg { vx, vy } => Ok(
                MachineView { v: self.v.update(vx as int, self.v[vy as int]), ..self },
            ),
            Instruction::Or { vx, vy } => Ok(
                MachineView {
                    v: self.v.update(vx as int, self.v[vx as int] | self.v[vy as int]),
                    ..self
                },
            ),
            Instruction::And { vx, vy } => Ok(
                MachineView {
                    v: self.v.update(vx as int, self.v[vx as int] & self.v[vy as int]),
                    ..self
                },
            ),
            Instruction::Xor { vx, vy } => Ok(
                MachineView {
                    v: self.v.update(vx as int, self.v[vx as int] ^ self.v[vy as int]),
                    ..self
                },
            ),
            Instruction::AddReg { vx, vy } => {
                let a = self.v[vx as int];
                let b = self.v[vy as int];
                Ok(
                    MachineView {
                        v: self.v.update(vx as int, wrap_add8(a, b)).update(
                            15,
                            if a + b > 255 {
                                1u8
                            } else {
                                0u8
                            },
                        ),
                        ..self
                    },
                )
            },
            Instruction::Sub { vx, vy } => {
                let a = self.v[vx as int];
                let b = self.v[vy as int];
                Ok(
                    MachineView {
                        v: self.v.update(vx as int, wrap_sub8(a, b)).update(
                            15,
                            if a >= b {
                                1u8
                            } else {
                                0u8
                            },
                        ),
                        ..self
                    },
                )
            },
            Instruction::Shr { vx } => {
                let flagged = self.v.update(15, self.v[vx as int] & 1);
                Ok(
                    MachineView {
                        v: flagged.update(vx as int, flagged[vx as int] >> 1u8),
                        ..self
                    },
                )
            },
            Instruction::SubN { vx, vy } => {
                let a = self.v[vx as int];
                let b = self.v[vy as int];
                Ok(
                    MachineView {
                        v: self.v.update(vx as int, wrap_sub8(b, a)).update(
                            15,
                            if b >= a {
                                1u8
                            } else {
                                0u8
                            },
                        ),
                        ..self
                    },
                )
            },
            Instruction::Shl { vx } => {
                let flagged = self.v.update(15, (self.v[vx as int] >> 7u8) & 1);
                Ok(
                    MachineView {
                        v: flagged.update(vx as int, flagged[vx as int] << 1u8),
                        ..self
                    },
                )
            },
            Instruction::SkipNeReg { vx, vy } => Ok(
                if self.v[vx as int] != self.v[vy as int] {
                    MachineView { pc: wrap_add16(self.pc, 2), ..self }
                } else {
                    self
                },
            ),
            Instruction::LoadI { address } => Ok(MachineView { i: address, ..self }),
            Instruction::JumpV0 { address } => Ok(
                MachineView { pc: (address + self.v[0]) as u16, ..self },
            ),
            Instruction::Random { vx, byte } => Ok(
                MachineView { v: self.v.update(vx as int, rnd & byte), ..self },
            ),
            Instruction::Draw { vx, vy, n } => if self.i + n > 4096 {
                Err(Fault::MemoryOutOfBounds)
            } else {
                let x0 = (self.v[vx as int] % 64) as int;
                let y0 = (self.v[vy as int] % 32) as int;
                Ok(
                    MachineView {
                        display: draw_display(
                            self.display,
                            self.memory,
                            self.i as int,
                            x0,
                            y0,
                            n as int,
                        ),
                        v: self.v.update(
                            15,
                            if draw_collision(
                                self.display,
                                self.memory,
                                self.i as int,
                                x0,
                                y0,
                                n as int,
                            ) {
                                1u8
                            } else {
                                0u8
                            },
                        ),
                        ..self
                    },
                )
            },
            Instruction::SkipKey { vx } => {
                let k = self.v[vx as int];
                if k >= 16 {
                    Err(Fault::KeyOutOfRange)
                } else if self.keypad[k as int] == 1 {
                    Ok(MachineView { pc: wrap_add16(self.pc, 2), ..self })
                } else {
                    Ok(self)
                }
            },
            Instruction::SkipNoKey { vx } => {
                let k = self.v[vx as int];
                if k >= 16 {
                    Err(Fault::KeyOutOfRange)
                } else if self.keypad[k as int] == 0 {
                    Ok(MachineView { pc: wrap_add16(self.pc, 2), ..self })
                } else {
                    Ok(self)
                }
            },
            Instruction::LoadDelay { vx } => Ok(
                MachineView { v: self.v.update(vx as int, self.delay_timer), ..self },
            ),
            Instruction::WaitKey { vx } => match self.pressed_key {
                Some(key) => Ok(
                    MachineView {
                        v: self.v.update(vx as int, key),
                        pressed_key: None,
                        ..self
                    },
                ),
                None => Ok(MachineView { pc: wrap_sub16(self.pc, 2), ..self }),
            },
            Instruction::SetDelay { vx } => Ok(
                MachineView { delay_timer: self.v[vx as int], ..self },
            ),
            Instruction::SetSound { vx } => Ok(
                MachineView { sound_timer: self.v[vx as int], ..self },
            ),
            Instruction::AddI { vx } => Ok(
                MachineView { i: wrap_add16(self.i, self.v[vx as int] as u16), ..self },
            ),
            Instruction::LoadFont { vx } => Ok(
                MachineView { i: (0x50 + self.v[vx as int] * 5) as u16, ..self },
            ),
            Instruction::StoreBCD { vx } => if self.i + 3 > 4096 {
                Err(Fault::MemoryOutOfBounds)
            } else {
                let value = self.v[vx as int];
                Ok(
                    MachineView {
                        memory: self.memory.update(self.i as int, (value / 100) as u8).update(
                            self.i as int + 1,
                            ((value / 10) % 10) as u8,
                        ).update(self.i as int + 2, (value % 10) as u8),
                        ..self
                    },
                )
            },
            Instruction::StoreRegs { vx } => if self.i + vx + 1 > 4096 {
                Err(Fault::MemoryOutOfBounds)
            } else {
                Ok(
                    MachineView {
                        memory: Seq::new(
                            4096,
                            |k: int| if self.i <= k < self.i + vx + 1 {
                                self.v[k - self.i]
                            } else {
                                self.memory[k]
                            },
                        ),
                        ..self
                    },
                )
            },
            Instruction::LoadRegs { vx } => if self.i + vx + 1 > 4096 {
                Err(Fault::MemoryOutOfBounds)
            } else {
                Ok(
                    MachineView {
                        v: Seq::new(
                            16,
                            |k: int| if 0 <= k < vx + 1 {
                                self.memory[self.i + k]
                            } else {
                                self.v[k]
                            },
                        ),
                        ..self
                    },
                )
            },
            Instruction::Unknown { opcode } => Ok(self),
        }
    }

    /// One full engine cycle: fetch, decode, apply. The status is
    /// `WaitingForKey` exactly when the fetched instruction is WaitKey and no
    /// key is latched; a fault leaves the machine as it stood after the
    /// fetch.
    pub open spec fn cycle_spec(self, rnd: u8) -> (MachineView, Result<CycleStatus, Fault>)
        recommends
            self.wf(),
    {
        let (m1, op) = self.fetch_spec();
        let instr = Instruction::decode(op);
        match m1.step(instr, rnd) {
            Ok(m2) => (
                m2,
                Ok(
                    if instr is WaitKey && self.pressed_key is None {
                        CycleStatus::WaitingForKey
                    } else {
                        CycleStatus::Normal
                    },
                ),
            ),
            Err(f) => (m1, Err(f)),
        }
    }

    /// A successful step preserves well-formedness.
    pub proof fn lemma_step_wf(self, instr: Instruction, rnd: u8)
        requires
            self.wf(),
            instr.wf(),
        ensures
            self.step(instr, rnd) matches Ok(m) ==> m.wf(),
    {
    }
}

/// Adds `d` to `x`, wrapping in the 8-bit space.
pub open spec fn wrap_add8(x: u8, d: u8) -> u8 {
    vstd::wrapping::u8_specs::wrapping_add(x, d)
}

/// Subtracts `d` from `x`, wrapping in the 8-bit space.
pub open spec fn wrap_sub8(x: u8, d: u8) -> u8 {
    vstd::wrapping::u8_specs::wrapping_sub(x, d)
}

/// The CHIP-8 virtual machine. All fields are public: the embedding driver
/// applies input by writing `keypad` and `pressed_key`, and a renderer reads
/// `display`. The engine's contracts are stated over the `MachineView` image
/// reached through `@`.
#[derive(Debug)]
pub struct ChipAte {
    /// 4096 bytes; 0x50..0xA0 holds the font table, programs load at 0x200.
    pub memory: [u8; 4096],
    /// General-purpose registers V0 through VF; VF doubles as the flag.
    pub v: [u8; 16],
    /// The index register for memory-indirect operations.
    pub i: u16,
    /// The program counter: address of the next instruction to fetch.
    pub pc: u16,
    /// Return addresses of active subroutine calls.
    pub stack: [u16; 16],
    /// Number of stack slots in use, 0 through 16.
    pub sp: u8,
    /// Row-major 64 x 32 framebuffer, one cell per pixel, 0 or 1.
    pub display: [u8; 2048],
    /// 60 Hz countdown timer read by programs.
    pub delay_timer: u8,
    /// 60 Hz countdown timer driving the audio-active signal.
    pub sound_timer: u8,
    /// Pressed state of the 16 hex keys, 0 or 1.
    pub keypad: [u8; 16],
    /// One-shot latch of the most recent key press, consumed by WaitKey.
    pub pressed_key: Option<u8>,
    /// The audio-active signal, written only by `update_timers`.
    pub beep_active: bool,
}

impl View for ChipAte {
    type V = MachineView;

    open spec fn view(&self) -> MachineView {
        MachineView {
            memory: self.memory@,
            v: self.v@,
            i: self.i,
            pc: self.pc,
            stack: self.stack@,
            sp: self.sp,
            display: self.display@,
            delay_timer: self.delay_timer,
            sound_timer: self.sound_timer,
            keypad: self.keypad@,
            pressed_key: self.pressed_key,
            beep_active: self.beep_active,
        }
    }
}

/// Relies on rand::random: one byte drawn from the thread-local generator.
/// Nothing is assumed of the value; callers state what holds of every byte.
#[verifier::external_body]
fn random_byte() -> u8 {
    rand::random::<u8>()
}

impl ChipAte {
    /// Constructs the machine in its initial state: memory zeroed except the
    /// sixteen font glyphs at 0x50, pc at 0x200, stack pointer, timers,
    /// framebuffer, keypad and latch all cleared.
    pub fn new() -> (r: ChipAte)
        ensures
            r@ == MachineView::initial(),
            r@.wf(),
    {
        let mut chip = ChipAte {
            memory: [0u8; 4096],
            v: [0u8; 16],
            i: 0,
            pc: PROGRAM_START,
            stack: [0u16; 16],
            sp: 0,
            display: [0u8; 2048],
            delay_timer: 0,
            sound_timer: 0,
            keypad: [0u8; 16],
            pressed_key: None,
            beep_active: false,
        };
        let mut j: usize = 0;
        while j < 80
            invariant
                j <= 80,
                forall|k: int|
                    0 <= k < 4096 ==> chip.memory@[k] == if 0x50 <= k < 0x50 + j {
                        FONT_DATA@[k - 0x50]
                    } else {
                        0u8
                    },
                forall|k: int| 0 <= k < 16 ==> chip.v@[k] == 0u8,
                forall|k: int| 0 <= k < 16 ==> chip.stack@[k] == 0u16,
                forall|k: int| 0 <= k < 2048 ==> chip.display@[k] == 0u8,
                forall|k: int| 0 <= k < 16 ==> chip.keypad@[k] == 0u8,
                chip.i == 0,
                chip.pc == 0x200,
                chip.sp == 0,
                chip.delay_timer == 0,
                chip.sound_timer == 0,
                chip.pressed_key is None,
                chip.beep_active == false,
            decreases 80 - j,
        {
            chip.memory[FONT_START as usize + j] = FONT_DATA[j];
            j = j + 1;
        }
        proof {
            assert(chip@ =~= MachineView::initial());
        }
        chip
    }

    /// Copies a ROM image into memory starting at the program start address.
    /// Succeeds exactly when the image fits below the end of memory; a
    /// too-large image is rejected before any byte is written.
    pub fn load_rom(&mut self, rom: &[u8]) -> (r: Result<(), LoadError>)
        ensures
            match r {
                Ok(()) => rom@.len() <= 4096 - 0x200 && final(self)@ == (MachineView {
                    memory: old(self)@.loaded_memory(rom@),
                    ..old(self)@
                }),
                Err(e) => {
                    &&& e == LoadError::TooLarge
                    &&& rom@.len() > 4096 - 0x200
                    &&& final(self)@ == old(self)@
                },
            },
    {
        if rom.len() > MEMORY_SIZE - PROGRAM_START as usize {
            return Err(LoadError::TooLarge);
        }
        let mut j: usize = 0;
        while j < rom.len()
            invariant
                j <= rom@.len(),
                rom@.len() <= 4096 - 0x200,
                forall|k: int|
                    0 <= k < 4096 ==> self.memory@[k] == if 0x200 <= k < 0x200 + j {
                        rom@[k - 0x200]
                    } else {
                        old(self)@.memory[k]
                    },
                self.v == old(self).v,
                self.i == old(self).i,
                self.pc == old(self).pc,
                self.stack == old(self).stack,
                self.sp == old(self).sp,
                self.display == old(self).display,
                self.delay_timer == old(self).delay_timer,
                self.sound_timer == old(self).sound_timer,
                self.keypad == old(self).keypad,
                self.pressed_key == old(self).pressed_key,
                self.beep_active == old(self).beep_active,
            decreases rom@.len() - j,
        {
            self.memory[PROGRAM_START as usize + j] = rom[j];
            j = j + 1;
        }
        proof {
            assert(self@ =~= (MachineView { memory: old(self)@.loaded_memory(rom@), ..old(self)@ }));
        }
        Ok(())
    }

    /// Pushes a return address. A push onto a full stack is ignored, leaving
    /// the machine unchanged; the engine's Call instead reports the fault.
    pub fn push(&mut self, val: u16)
        ensures
            old(self)@.sp < 16 ==> final(self)@ == (MachineView {
                stack: old(self)@.stack.update(old(self)@.sp as int, val),
                sp: (old(self)@.sp + 1) as u8,
                ..old(self)@
            }),
            old(self)@.sp >= 16 ==> final(self)@ == old(self)@,
    {
        if (self.sp as usize) < STACK_SIZE {
            self.stack[self.sp as usize] = val;
            self.sp = self.sp + 1;
            proof {
                assert(self@ =~= (MachineView {
                    stack: old(self)@.stack.update(old(self)@.sp as int, val),
                    sp: (old(self)@.sp + 1) as u8,
                    ..old(self)@
                }));
            }
        }
    }

    /// Pops the most recent return address. A pop from an empty stack yields
    /// 0 and changes nothing; the engine's Return instead reports the fault.
    pub fn pop(&mut self) -> (r: u16)
        requires
            old(self)@.wf(),
        ensures
            final(self)@.wf(),
            old(self)@.sp > 0 ==> {
                &&& final(self)@ == (MachineView { sp: (old(self)@.sp - 1) as u8, ..old(self)@ })
                &&& r == old(self)@.stack[old(self)@.sp - 1]
            },
            old(self)@.sp == 0 ==> final(self)@ == old(self)@ && r == 0,
    {
        if self.sp > 0 {
            self.sp = self.sp - 1;
            let r = self.stack[self.sp as usize];
            proof {
                assert(self@ =~= (MachineView { sp: (old(self)@.sp - 1) as u8, ..old(self)@ }));
            }
            r
        } else {
            0
        }
    }

    /// Sets the delay timer.
    pub fn set_delay_timer(&mut self, new_time: u8)
        ensures
            final(self)@ == (MachineView { delay_timer: new_time, ..old(self)@ }),
    {
        self.delay_timer = new_time;
        proof {
            assert(self@ =~= (MachineView { delay_timer: new_time, ..old(self)@ }));
        }
    }

    /// Reads the delay timer.
    pub fn read_delay_timer(&mut self) -> (r: u8)
        ensures
            final(self)@ == old(self)@,
            r == old(self)@.delay_timer,
    {
        self.delay_timer
    }

    /// Sets the sound timer.
    pub fn set_sound_timer(&mut self, new_time: u8)
        ensures
            final(self)@ == (MachineView { sound_timer: new_time, ..old(self)@ }),
    {
        self.sound_timer = new_time;
        proof {
            assert(self@ =~= (MachineView { sound_timer: new_time, ..old(self)@ }));
        }
    }

    /// Reads the sound timer.
    pub fn read_sound_timer(&self) -> (r: u8)
        ensures
            r == self@.sound_timer,
    {
        self.sound_timer
    }

    /// The framebuffer, read-only, for a rendering collaborator.
    pub fn framebuffer(&self) -> (fb: &[u8; 2048])
        ensures
            fb@ == self@.display,
    {
        &self.display
    }

    /// Updates keypad state for one key; a press also latches the key for
    /// the next WaitKey resolution.
    pub fn set_key(&mut self, index: u8, pressed: bool)
        requires
            index < 16,
        ensures
            final(self)@ == (MachineView {
                keypad: old(self)@.keypad.update(index as int, if pressed { 1u8 } else { 0u8 }),
                pressed_key: if pressed { Some(index) } else { old(self)@.pressed_key },
                ..old(self)@
            }),
    {
        if pressed {
            self.keypad[index as usize] = 1;
            self.pressed_key = Some(index);
        } else {
            self.keypad[index as usize] = 0;
        }
        proof {
            assert(self@ =~= (MachineView {
                keypad: old(self)@.keypad.update(index as int, if pressed { 1u8 } else { 0u8 }),
                pressed_key: if pressed { Some(index) } else { old(self)@.pressed_key },
                ..old(self)@
            }));
        }
    }

    /// The 60 Hz timer step: each timer above zero counts down by one and
    /// never below zero, and the audio-active signal is set exactly when the
    /// sound timer was counted down, that is, when it was above zero.
    pub fn update_timers(&mut self)
        ensures
            final(self)@ == (MachineView {
                delay_timer: if old(self)@.delay_timer > 0 {
                    (old(self)@.delay_timer - 1) as u8
                } else {
                    0u8
                },
                sound_timer: if old(self)@.sound_timer > 0 {
                    (old(self)@.sound_timer - 1) as u8
                } else {
                    0u8
                },
                beep_active: old(self)@.sound_timer > 0,
                ..old(self)@
            }),
    {
        if self.delay_timer > 0 {
            self.delay_timer = self.delay_timer - 1;
        }
        if self.sound_timer > 0 {
            self.sound_timer = self.sound_timer - 1;
            self.beep_active = true;
        } else {
            self.beep_active = false;
        }
        proof {
            assert(self@ =~= (MachineView {
                delay_timer: if old(self)@.delay_timer > 0 {
                    (old(self)@.delay_timer - 1) as u8
                } else {
                    0u8
                },
                sound_timer: if old(self)@.sound_timer > 0 {
                    (old(self)@.sound_timer - 1) as u8
                } else {
                    0u8
                },
                beep_active: old(self)@.sound_timer > 0,
                ..old(self)@
            }));
        }
    }

    /// Applies one decoded instruction to the machine, exactly as
    /// `MachineView::step` describes: for every instruction but Random the
    /// new state is the step on any byte, and for Random it is the step on
    /// some byte — nothing more is promised of the drawn value. A fault
    /// leaves the machine unchanged.
    #[verifier::rlimit(50)]
    pub fn execute(&mut self, instruction: Instruction) -> (r: Result<(), Fault>)
        requires
            old(self)@.wf(),
            instruction.wf(),
        ensures
            final(self)@.wf(),
            !(instruction is Random) ==> match r {
                Ok(()) => old(self)@.step(instruction, 0) == Ok::<MachineView, Fault>(final(self)@),
                Err(f) => {
                    &&& old(self)@.step(instruction, 0) == Err::<MachineView, Fault>(f)
                    &&& final(self)@ == old(self)@
                },
            },
            instruction is Random ==> r is Ok && exists|rnd: u8|
                old(self)@.step(instruction, rnd) == Ok::<MachineView, Fault>(final(self)@),
    {
        match instruction {
            Instruction::ClearScreen => {
                self.display = [0u8; 2048];
                proof {
                    assert(self@ =~= (MachineView {
                        display: Seq::new(2048, |k: int| 0u8),
                        ..old(self)@
                    }));
                }
                Ok(())
            },
            Instruction::Return => {
                if self.sp == 0 {
                    return Err(Fault::StackUnderflow);
                }
                let ret = self.pop();
                self.pc = ret;
                proof {
                    assert(self@ =~= (MachineView {
                        pc: old(self)@.stack[old(self)@.sp - 1],
                        sp: (old(self)@.sp - 1) as u8,
                        ..old(self)@
                    }));
                }
                Ok(())
            },
            Instruction::Jump { address } => {
                self.pc = address;
                proof {
                    assert(self@ =~= (MachineView { pc: address, ..old(self)@ }));
                }
                Ok(())
            },
            Instruction::Call { address } => {
                if self.sp >= 16 {
                    return Err(Fault::StackOverflow);
                }
                self.stack[self.sp as usize] = self.pc;
                self.sp = self.sp + 1;
                self.pc = address;
                proof {
                    assert(self@ =~= (MachineView {
                        stack: old(self)@.stack.update(old(self)@.sp as int, old(self)@.pc),
                        sp: (old(self)@.sp + 1) as u8,
                        pc: address,
                        ..old(self)@
                    }));
                }
                Ok(())
            },
            Instruction::SkipEq { vx, byte } => {
                if self.v[vx as usize] == byte {
                    self.pc = self.pc.wrapping_add(2);
                    proof {
                        assert(self@ =~= (MachineView {
                            pc: wrap_add16(old(self)@.pc, 2),
                            ..old(self)@
                        }));
                    }
                }
                Ok(())
            },
            Instruction::SkipNe { vx, byte } => {
                if self.v[vx as usize] != byte {
                    self.pc = self.pc.wrapping_add(2);
                    proof {
                        assert(self@ =~= (MachineView {
                            pc: wrap_add16(old(self)@.pc, 2),
                            ..old(self)@
                        }));
                    }
                }
                Ok(())
            },
            Instruction::SkipEqReg { vx, vy } => {
                if self.v[vx as usize] == self.v[vy as usize] {
                    self.pc = self.pc.wrapping_add(2);
                    proof {
                        assert(self@ =~= (MachineView {
                            pc: wrap_add16(old(self)@.pc, 2),
                            ..old(self)@
                        }));
                    }
                }
                Ok(())
            },
            Instruction::LoadByte { vx, byte } => {
                self.v[vx as usize] = byte;
                proof {
                    assert(self@ =~= (MachineView {
                        v: old(self)@.v.update(vx as int, byte),
                        ..old(self)@
                    }));
                }
                Ok(())
            },
            Instruction::AddByte { vx, byte } => {
                self.v[vx as usize] = self.v[vx as usize].wrapping_add(byte);
                proof {
                    assert(self@ =~= (MachineView {
                        v: old(self)@.v.update(
                            vx as int,
                            wrap_add8(old(self)@.v[vx as int], byte),
                        ),
                        ..old(self)@
                    }));
                }
                Ok(())
            },
            Instruction::LoadReg { vx, vy } => {
                self.v[vx as usize] = self.v[vy as usize];
                proof {
                    assert(self@ =~= (MachineView {
                        v: old(self)@.v.update(vx as int, old(self)@.v[vy as int]),
                        ..old(self)@
                    }));
                }
                Ok(())
            },
            Instruction::Or { vx, vy } => {
                self.v[vx as usize] = self.v[vx as usize] | self.v[vy as usize];
                proof {
                    assert(self@ =~= (MachineView {
                        v: old(self)@.v.update(
                            vx as int,
                            old(self)@.v[vx as int] | old(self)@.v[vy as int],
                        ),
                        ..old(self)@
                    }));
                }
                Ok(())
            },
            Instruction::And { vx, vy } => {
                self.v[vx as usize] = self.v[vx as usize] & self.v[vy as usize];
                proof {
                    assert(self@ =~= (MachineView {
                        v: old(self)@.v.update(
                            vx as int,
                            old(self)@.v[vx as int] & old(self)@.v[vy as int],
                        ),
                        ..old(self)@
                    }));
                }
                Ok(())
            },
            Instruction::Xor { vx, vy } => {
                self.v[vx as usize] = self.v[vx as usize] ^ self.v[vy as usize];
                proof {
                    assert(self@ =~= (MachineView {
                        v: old(self)@.v.update(
                            vx as int,
                            old(self)@.v[vx as int] ^ old(self)@.v[vy as int],
                        ),
                        ..old(self)@
                    }));
                }
                Ok(())
            },
            Instruction::AddReg { vx, vy } => {
                let a = self.v[vx as usize];
                let b = self.v[vy as usize];
                let carry: u8 = if (a as u16) + (b as u16) > 255 {
                    1
                } else {
                    0
                };
                self.v[vx as usize] = a.wrapping_add(b);
                self.v[15] = carry;
                proof {
                    assert(self@ =~= (MachineView {
                        v: old(self)@.v.update(vx as int, wrap_add8(a, b)).update(
                            15,
                            if a + b > 255 {
                                1u8
                            } else {
                                0u8
                            },
                        ),
                        ..old(self)@
                    }));
                }
                Ok(())
            },
            Instruction::Sub { vx, vy } => {
                let a = self.v[vx as usize];
                let b = self.v[vy as usize];
                let no_borrow: u8 = if a >= b {
                    1
                } else {
                    0
                };
                self.v[vx as usize] = a.wrapping_sub(b);
                self.v[15] = no_borrow;
                proof {
                    assert(self@ =~= (MachineView {
                        v: old(self)@.v.update(vx as int, wrap_sub8(a, b)).update(
                            15,
                            if a >= b {
                                1u8
                            } else {
                                0u8
                            },
                        ),
                        ..old(self)@
                    }));
                }
                Ok(())
            },
            Instruction::Shr { vx } => {
                self.v[15] = self.v[vx as usize] & 1;
                self.v[vx as usize] = self.v[vx as usize] >> 1u8;
                proof {
                    let flagged = old(self)@.v.update(15, old(self)@.v[vx as int] & 1);
                    assert(self@ =~= (MachineView {
                        v: flagged.update(vx as int, flagged[vx as int] >> 1u8),
                        ..old(self)@
                    }));
                }
                Ok(())
            },
            Instruction::SubN { vx, vy } => {
                let a = self.v[vx as usize];
                let b = self.v[vy as usize];
                let no_borrow: u8 = if b >= a {
                    1
                } else {
                    0
                };
                self.v[vx as usize] = b.wrapping_sub(a);
                self.v[15] = no_borrow;
                proof {
                    assert(self@ =~= (MachineView {
                        v: old(self)@.v.update(vx as int, wrap_sub8(b, a)).update(
                            15,
                            if b >= a {
                                1u8
                            } else {
                                0u8
                            },
                        ),
                        ..old(self)@
                    }));
                }
                Ok(())
            },
            Instruction::Shl { vx } => {
                self.v[15] = (self.v[vx as usize] >> 7u8) & 1;
                self.v[vx as usize] = self.v[vx as usize] << 1u8;
                proof {
                    let flagged = old(self)@.v.update(15, (old(self)@.v[vx as int] >> 7u8) & 1);
                    assert(self@ =~= (MachineView {
                        v: flagged.update(vx as int, flagged[vx as int] << 1u8),
                        ..old(self)@
                    }));
                }
                Ok(())
            },
            Instruction::SkipNeReg { vx, vy } => {
                if self.v[vx as usize] != self.v[vy as usize] {
                    self.pc = self.pc.wrapping_add(2);
                    proof {
                        assert(self@ =~= (MachineView {
                            pc: wrap_add16(old(self)@.pc, 2),
                            ..old(self)@
                        }));
                    }
                }
                Ok(())
            },
            Instruction::LoadI { address } => {
                self.i = address;
                proof {
                    assert(self@ =~= (MachineView { i: address, ..old(self)@ }));
                }
                Ok(())
            },
            Instruction::JumpV0 { address } => {
                self.pc = address + self.v[0] as u16;
                proof {
                    assert(self@ =~= (MachineView {
                        pc: (address + old(self)@.v[0]) as u16,
                        ..old(self)@
                    }));
                }
                Ok(())
            },
            Instruction::Random { vx, byte } => {
                let rb = random_byte();
                self.v[vx as usize] = rb & byte;
                proof {
                    assert(self@ =~= (MachineView {
                        v: old(self)@.v.update(vx as int, rb & byte),
                        ..old(self)@
                    }));
                    assert(old(self)@.step(instruction, rb) == Ok::<MachineView, Fault>(self@));
                }
                Ok(())
            },
            Instruction::Draw { vx, vy, n } => {
                if self.i as usize + n as usize > 4096 {
                    return Err(Fault::MemoryOutOfBounds);
                }
                let x0 = self.v[vx as usize] % 64;
                let y0 = self.v[vy as usize] % 32;
                self.v[15] = 0;
                let vf = draw_sprite(&mut self.display, &self.memory, self.i, x0, y0, n);
                self.v[15] = vf;
                proof {
                    assert(self@ =~= (MachineView {
                        display: draw_display(
                            old(self)@.display,
                            old(self)@.memory,
                            old(self)@.i as int,
                            (old(self)@.v[vx as int] % 64) as int,
                            (old(self)@.v[vy as int] % 32) as int,
                            n as int,
                        ),
                        v: old(self)@.v.update(
                            15,
                            if draw_collision(
                                old(self)@.display,
                                old(self)@.memory,
                                old(self)@.i as int,
                                (old(self)@.v[vx as int] % 64) as int,
                                (old(self)@.v[vy as int] % 32) as int,
                                n as int,
                            ) {
                                1u8
                            } else {
                                0u8
                            },
                        ),
                        ..old(self)@
                    }));
                }
                Ok(())
            },
            Instruction::SkipKey { vx } => {
                let k = self.v[vx as usize];
                if k >= 16 {
                    return Err(Fault::KeyOutOfRange);
                }
                if self.keypad[k as usize] == 1 {
                    self.pc = self.pc.wrapping_add(2);
                    proof {
                        assert(self@ =~= (MachineView {
                            pc: wrap_add16(old(self)@.pc, 2),
                            ..old(self)@
                        }));
                    }
                }
                Ok(())
            },
            Instruction::SkipNoKey { vx } => {
                let k = self.v[vx as usize];
                if k >= 16 {
                    return Err(Fault::KeyOutOfRange);
                }
                if self.keypad[k as usize] == 0 {
                    self.pc = self.pc.wrapping_add(2);
                    proof {
                        assert(self@ =~= (MachineView {
                            pc: wrap_add16(old(self)@.pc, 2),
                            ..old(self)@
                        }));
                    }
                }
                Ok(())
            },
            Instruction::LoadDelay { vx } => {
                self.v[vx as usize] = self.delay_timer;
                proof {
                    assert(self@ =~= (MachineView {
                        v: old(self)@.v.update(vx as int, old(self)@.delay_timer),
                        ..old(self)@
                    }));
                }
                Ok(())
            },
            Instruction::WaitKey { vx } => {
                match self.pressed_key {
                    Some(key) => {
                        self.v[vx as usize] = key;
                        self.pressed_key = None;
                        proof {
                            assert(self@ =~= (MachineView {
                                v: old(self)@.v.update(vx as int, old(self)@.pressed_key->0),
                                pressed_key: None,
                                ..old(self)@
                            }));
                        }
                    },
                    None => {
                        self.pc = self.pc.wrapping_sub(2);
                        proof {
                            assert(self@ =~= (MachineView {
                                pc: wrap_sub16(old(self)@.pc, 2),
                                ..old(self)@
                            }));
                        }
                    },
                }
                Ok(())
            },
            Instruction::SetDelay { vx } => {
                self.delay_timer = self.v[vx as usize];
                proof {
                    assert(self@ =~= (MachineView {
                        delay_timer: old(self)@.v[vx as int],
                        ..old(self)@
                    }));
                }
                Ok(())
            },
            Instruction::SetSound { vx } => {
                self.sound_timer = self.v[vx as usize];
                proof {
                    assert(self@ =~= (MachineView {
                        sound_timer: old(self)@.v[vx as int],
                        ..old(self)@
                    }));
                }
                Ok(())
            },
            Instruction::AddI { vx } => {
                self.i = self.i.wrapping_add(self.v[vx as usize] as u16);
                proof {
                    assert(self@ =~= (MachineView {
                        i: wrap_add16(old(self)@.i, old(self)@.v[vx as int] as u16),
                        ..old(self)@
                    }));
                }
                Ok(())
            },
            Instruction::LoadFont { vx } => {
                self.i = 0x50 + (self.v[vx as usize] as u16) * 5;
                proof {
                    assert(self@ =~= (MachineView {
                        i: (0x50 + old(self)@.v[vx as int] * 5) as u16,
                        ..old(self)@
                    }));
                }
                Ok(())
            },
            Instruction::StoreBCD { vx } => {
                if self.i as usize + 3 > 4096 {
                    return Err(Fault::MemoryOutOfBounds);
                }
                let value = self.v[vx as usize];
                self.memory[self.i as usize] = value / 100;
                self.memory[self.i as usize + 1] = (value / 10) % 10;
                self.memory[self.i as usize + 2] = value % 10;
                proof {
                    assert(self@ =~= (MachineView {
                        memory: old(self)@.memory.update(
                            old(self)@.i as int,
                            (old(self)@.v[vx as int] / 100) as u8,
                        ).update(
                            old(self)@.i as int + 1,
                            ((old(self)@.v[vx as int] / 10) % 10) as u8,
                        ).update(old(self)@.i as int + 2, (old(self)@.v[vx as int] % 10) as u8),
                        ..old(self)@
                    }));
                }
                Ok(())
            },
            Instruction::StoreRegs { vx } => {
                if self.i as usize + vx as usize + 1 > 4096 {
                    return Err(Fault::MemoryOutOfBounds);
                }
                let base = self.i as usize;
                let mut reg: usize = 0;
                while reg < vx as usize + 1
                    invariant
                        old(self)@.wf(),
                        vx < 16,
                        base == old(self)@.i as int,
                        base + vx + 1 <= 4096,
                        reg <= vx + 1,
                        forall|k: int|
                            0 <= k < 4096 ==> self.memory@[k] == if base <= k < base + reg {
                                old(self)@.v[k - base]
                            } else {
                                old(self)@.memory[k]
                            },
                        self.v == old(self).v,
                        self.i == old(self).i,
                        self.pc == old(self).pc,
                        self.stack == old(self).stack,
                        self.sp == old(self).sp,
                        self.display == old(self).display,
                        self.delay_timer == old(self).delay_timer,
                        self.sound_timer == old(self).sound_timer,
                        self.keypad == old(self).keypad,
                        self.pressed_key == old(self).pressed_key,
                        self.beep_active == old(self).beep_active,
                    decreases vx + 1 - reg,
                {
                    self.memory[base + reg] = self.v[reg];
                    reg = reg + 1;
                }
                proof {
                    assert(self@ =~= (MachineView {
                        memory: Seq::new(
                            4096,
                            |k: int| if old(self)@.i <= k < old(self)@.i + vx + 1 {
                                old(self)@.v[k - old(self)@.i]
                            } else {
                                old(self)@.memory[k]
                            },
                        ),
                        ..old(self)@
                    }));
                }
                Ok(())
            },
            Instruction::LoadRegs { vx } => {
                if self.i as usize + vx as usize + 1 > 4096 {
                    return Err(Fault::MemoryOutOfBounds);
                }
                let base = self.i as usize;
                let mut reg: usize = 0;
                while reg < vx as usize + 1
                    invariant
                        old(self)@.wf(),
                        vx < 16,
                        base == old(self)@.i as int,
                        base + vx + 1 <= 4096,
                        reg <= vx + 1,
                        forall|k: int|
                            0 <= k < 16 ==> self.v@[k] == if 0 <= k < reg {
                                old(self)@.memory[base + k]
                            } else {
                                old(self)@.v[k]
                            },
                        self.memory == old(self).memory,
                        self.i == old(self).i,
                        self.pc == old(self).pc,
                        self.stack == old(self).stack,
                        self.sp == old(self).sp,
                        self.display == old(self).display,
                        self.delay_timer == old(self).delay_timer,
                        self.sound_timer == old(self).sound_timer,
                        self.keypad == old(self).keypad,
                        self.pressed_key == old(self).pressed_key,
                        self.beep_active == old(self).beep_active,
                    decreases vx + 1 - reg,
                {
                    self.v[reg] = self.memory[base + reg];
                    reg = reg + 1;
                }
                proof {
                    assert(self@ =~= (MachineView {
                        v: Seq::new(
                            16,
                            |k: int| if 0 <= k < vx + 1 {
                                old(self)@.memory[old(self)@.i + k]
                            } else {
                                old(self)@.v[k]
                            },
                        ),
                        ..old(self)@
                    }));
                }
                Ok(())
            },
            Instruction::Unknown { opcode } => Ok(()),
        }
    }

    /// Reads the big-endian opcode at pc and advances pc past it. When pc
    /// does not reference two readable bytes, yields opcode 0 (which decodes
    /// to `Unknown`) and leaves the machine unchanged.
    pub fn fetch(&mut self) -> (opcode: u16)
        ensures
            (final(self)@, opcode) == old(self)@.fetch_spec(),
    {
        if self.pc as usize + 1 >= MEMORY_SIZE {
            return 0;
        }
        let high = self.memory[self.pc as usize] as u16;
        let low = self.memory[self.pc as usize + 1] as u16;
        self.pc = self.pc + 2;
        proof {
            assert(self@ =~= (MachineView { pc: (old(self)@.pc + 2) as u16, ..old(self)@ }));
        }
        (high << 8u16) | low
    }

    /// Executes one fetch-decode-apply step, exactly as
    /// `MachineView::cycle_spec` describes. The status is `WaitingForKey`
    /// exactly when the fetched instruction is WaitKey and no key was
    /// latched; in that case pc is rolled back so the same instruction is
    /// refetched next cycle, and the machine is otherwise untouched. When
    /// the fetched instruction is Random the cycle is the spec on some byte;
    /// for every other instruction it is the spec on any byte.
    pub fn cycle(&mut self) -> (r: Result<CycleStatus, Fault>)
        requires
            old(self)@.wf(),
        ensures
            final(self)@.wf(),
            ({
                let instr = Instruction::decode(old(self)@.fetch_spec().1);
                &&& !(instr is Random) ==> (final(self)@, r) == old(self)@.cycle_spec(0)
                &&& instr is Random ==> exists|rnd: u8| (final(self)@, r) == old(self)@.cycle_spec(
                    rnd,
                )
            }),
    {
        let ghost pre = self@;
        let opcode = self.fetch();
        let ghost mid = self@;
        proof {
            assert(mid.wf());
        }
        let instruction = Instruction::from_opcode(opcode);
        match instruction {
            Instruction::WaitKey { vx } => {
                match self.pressed_key {
                    Some(key) => {
                        self.v[vx as usize] = key;
                        self.pressed_key = None;
                        proof {
                            assert(self@ =~= (MachineView {
                                v: mid.v.update(vx as int, mid.pressed_key->0),
                                pressed_key: None,
                                ..mid
                            }));
                            assert((self@, Ok::<CycleStatus, Fault>(CycleStatus::Normal))
                                == pre.cycle_spec(0));
                        }
                        Ok(CycleStatus::Normal)
                    },
                    None => {
                        self.pc = self.pc.wrapping_sub(2);
                        proof {
                            assert(self@ =~= (MachineView { pc: wrap_sub16(mid.pc, 2), ..mid }));
                            assert((self@, Ok::<CycleStatus, Fault>(CycleStatus::WaitingForKey))
                                == pre.cycle_spec(0));
                        }
                        Ok(CycleStatus::WaitingForKey)
                    },
                }
            },
            _ => {
                match self.execute(instruction) {
                    Ok(()) => {
                        proof {
                            if instruction is Random {
                                let rnd = choose|rnd: u8|
                                    mid.step(instruction, rnd) == Ok::<MachineView, Fault>(self@);
                                assert((self@, Ok::<CycleStatus, Fault>(CycleStatus::Normal))
                                    == pre.cycle_spec(rnd));
                            } else {
                                assert((self@, Ok::<CycleStatus, Fault>(CycleStatus::Normal))
                                    == pre.cycle_spec(0));
                            }
                        }
                        Ok(CycleStatus::Normal)
                    },
                    Err(f) => {
                        proof {
                            assert((self@, Err::<CycleStatus, Fault>(f)) == pre.cycle_spec(0));
                        }
                        Err(f)
                    },
                }
            },
        }
    }

    /// Renders the framebuffer as 32 lines of 64 characters: a full block
    /// for a lit cell, a space for a dark one, each line ending in a
    /// newline.
    pub fn render_display(&self) -> (out: String)
        ensures
            out@ == render_spec(self@.display),
    {
        let mut out = String::new();
        let mut y: usize = 0;
        proof {
            assert(out@ =~= render_spec(self@.display).take(0));
        }
        while y < 32
            invariant
                y <= 32,
                out@ == render_spec(self@.display).take(y as int * 65),
            decreases 32 - y,
        {
            let mut x: usize = 0;
            while x < 64
                invariant
                    y < 32,
                    x <= 64,
                    out@ == render_spec(self@.display).take(y as int * 65 + x as int),
                decreases 64 - x,
            {
                let ghost k = y as int * 65 + x as int;
                if self.display[y * 64 + x] == 1 {
                    out.append("\u{2588}");
                    proof {
                        reveal_strlit("\u{2588}");
                        assert(k / 65 == y && k % 65 == x);
                        assert(out@ =~= render_spec(self@.display).take(k + 1));
                    }
                } else {
                    out.append(" ");
                    proof {
                        reveal_strlit(" ");
                        assert(k / 65 == y && k % 65 == x);
                        assert(out@ =~= render_spec(self@.display).take(k + 1));
                    }
                }
                x = x + 1;
            }
            let ghost k = y as int * 65 + 64;
            out.append("\n");
            proof {
                reveal_strlit("\n");
                assert(k / 65 == y && k % 65 == 64);
                assert(out@ =~= render_spec(self@.display).take(k + 1));
                assert(k + 1 == (y as int + 1) * 65);
            }
            y = y + 1;
        }
        proof {
            assert(render_spec(self@.display).take(32int * 65) =~= render_spec(self@.display));
        }
        out
    }
}

/// The text image of the framebuffer: row-major, 65 characters per row (64
/// cells then a newline), a full block for a lit cell and a space otherwise.
pub open spec fn render_spec(d: Seq<u8>) -> Seq<char> {
    Seq::new(
        32 * 65,
        |k: int| if k % 65 == 64 {
            '\n'
        } else if d[(k / 65) * 64 + k % 65] == 1 {
            '\u{2588}'
        } else {
            ' '
        },
    )
}

impl Default for ChipAte {
    /// The same machine `new` constructs.
    fn default() -> (r: ChipAte)
        ensures
            r@ == MachineView::initial(),
            r@.wf(),
    {
        ChipAte::new()
    }
}

} // verus!
