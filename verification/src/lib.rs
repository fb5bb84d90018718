//! A verified CHIP-8 virtual machine core: a pure decoder from 16-bit
//! opcodes to typed instructions, and a state-transition engine that applies
//! each instruction to the machine state (memory, registers, stack,
//! framebuffer, timers, keypad).
//!
//! Terminal rendering, keyboard polling, ROM file loading and audio output
//! are external collaborators; the library only computes on plain values.

pub mod chip_ate;
pub mod display;
pub mod laws;
pub mod opcodes;

pub use chip_ate::{ChipAte, CycleStatus, Fault, LoadError, MachineView};
pub use opcodes::Instruction;
