//! Laws of the execution engine, each proved from the transition function
//! `MachineView::step` and `MachineView::cycle_spec` that the engine's
//! contracts are stated over.

use vstd::prelude::*;

use crate::chip_ate::{CycleStatus, Fault, MachineView};
use crate::display::draw_touches;
use crate::opcodes::Instruction;

verus! {

/// AddReg sets the flag register to 1 exactly when the unsigned sum of the
/// two operands exceeds 255, whatever registers are named; the flag is
/// written after the sum, so it survives even when Vx is the flag register
/// itself.
pub proof fn lemma_add_reg_flag(m: MachineView, vx: u8, vy: u8, rnd: u8)
    requires
        m.wf(),
        vx < 16,
        vy < 16,
    ensures
        m.step(Instruction::AddReg { vx, vy }, rnd) is Ok,
        m.step(Instruction::AddReg { vx, vy }, rnd)->Ok_0.v[15] == if m.v[vx as int] + m.v[
            vy as int
        ] > 255 {
            1u8
        } else {
            0u8
        },
{
}

/// Sub sets the flag register to 1 exactly when no borrow occurs, that is,
/// when Vx is at least Vy before the wrap.
pub proof fn lemma_sub_flag(m: MachineView, vx: u8, vy: u8, rnd: u8)
    requires
        m.wf(),
        vx < 16,
        vy < 16,
    ensures
        m.step(Instruction::Sub { vx, vy }, rnd) is Ok,
        m.step(Instruction::Sub { vx, vy }, rnd)->Ok_0.v[15] == if m.v[vx as int] >= m.v[
            vy as int
        ] {
            1u8
        } else {
            0u8
        },
{
}

/// SubN sets the flag register to 1 exactly when no borrow occurs, that is,
/// when Vy is at least Vx before the wrap.
pub proof fn lemma_subn_flag(m: MachineView, vx: u8, vy: u8, rnd: u8)
    requires
        m.wf(),
        vx < 16,
        vy < 16,
    ensures
        m.step(Instruction::SubN { vx, vy }, rnd) is Ok,
        m.step(Instruction::SubN { vx, vy }, rnd)->Ok_0.v[15] == if m.v[vy as int] >= m.v[
            vx as int
        ] {
            1u8
        } else {
            0u8
        },
{
}

/// Shr captures the bit shifted out — the least significant bit of Vx —
/// in the flag register before the shift lands in Vx. When Vx is the flag
/// register itself the shift overwrites the captured bit, so that register
/// is left out.
pub proof fn lemma_shr_flag(m: MachineView, vx: u8, rnd: u8)
    requires
        m.wf(),
        vx < 16,
        vx != 15,
    ensures
        m.step(Instruction::Shr { vx }, rnd) is Ok,
        m.step(Instruction::Shr { vx }, rnd)->Ok_0.v[15] == m.v[vx as int] & 1,
        m.step(Instruction::Shr { vx }, rnd)->Ok_0.v[vx as int] == m.v[vx as int] >> 1u8,
{
}

/// Shl captures the bit shifted out — the most significant bit of Vx —
/// in the flag register before the shift lands in Vx. When Vx is the flag
/// register itself the shift overwrites the captured bit, so that register
/// is left out.
pub proof fn lemma_shl_flag(m: MachineView, vx: u8, rnd: u8)
    requires
        m.wf(),
        vx < 16,
        vx != 15,
    ensures
        m.step(Instruction::Shl { vx }, rnd) is Ok,
        m.step(Instruction::Shl { vx }, rnd)->Ok_0.v[15] == (m.v[vx as int] >> 7u8) & 1,
        m.step(Instruction::Shl { vx }, rnd)->Ok_0.v[vx as int] == m.v[vx as int] << 1u8,
{
}

/// With no key latched, a cycle whose fetched instruction is WaitKey
/// reports `WaitingForKey` and leaves the machine exactly as it was — the
/// fetch's pc advance is rolled back — so every following cycle repeats the
/// same stall until a key is latched.
pub proof fn lemma_waitkey_stall(m: MachineView, rnd: u8)
    requires
        m.wf(),
        Instruction::decode(m.fetch_spec().1) is WaitKey,
        m.pressed_key is None,
    ensures
        m.cycle_spec(rnd) == (m, Ok::<CycleStatus, Fault>(CycleStatus::WaitingForKey)),
{
    assert(0u16 & 0xF000 == 0 && 0u16 & 0x00FF == 0) by (bit_vector);
    assert(m.pc + 1 < 4096);
    let (m1, op) = m.fetch_spec();
    let instr = Instruction::decode(op);
    Instruction::lemma_decode_wf(op);
    assert(m1.step(instr, rnd) matches Ok(m2) && m2 =~= m);
}

/// With a key latched, the cycle that fetches WaitKey consumes the latch:
/// the key value lands in Vx, the latch clears, pc advances exactly once
/// past the instruction, and the cycle reports `Normal`.
pub proof fn lemma_waitkey_resume(m: MachineView, vx: u8, key: u8, rnd: u8)
    requires
        m.wf(),
        Instruction::decode(m.fetch_spec().1) == (Instruction::WaitKey { vx }),
        m.pressed_key == Some(key),
    ensures
        m.cycle_spec(rnd) == (
            MachineView {
                pc: (m.pc + 2) as u16,
                v: m.v.update(vx as int, key),
                pressed_key: None,
                ..m
            },
            Ok::<CycleStatus, Fault>(CycleStatus::Normal),
        ),
{
    assert(0u16 & 0xF000 == 0 && 0u16 & 0x00FF == 0) by (bit_vector);
    assert(m.pc + 1 < 4096);
    Instruction::lemma_decode_wf(m.fetch_spec().1);
    let (m1, op) = m.fetch_spec();
    let instr = Instruction::decode(op);
    assert(m1.step(instr, rnd) matches Ok(m2) && m2 =~= (MachineView {
        pc: (m.pc + 2) as u16,
        v: m.v.update(vx as int, key),
        pressed_key: None,
        ..m
    }));
}

/// Call pushes the address of the instruction after the call site — pc has
/// already advanced past the Call when it executes — and a following Return
/// pops exactly that address back into pc, with the stack pointer restored.
pub proof fn lemma_call_return(m: MachineView, address: u16, rnd1: u8, rnd2: u8)
    requires
        m.wf(),
        address < 0x1000,
        m.sp < 16,
    ensures
        m.step(Instruction::Call { address }, rnd1) is Ok,
        ({
            let m1 = m.step(Instruction::Call { address }, rnd1)->Ok_0;
            &&& m1.pc == address
            &&& m1.step(Instruction::Return, rnd2) is Ok
            &&& m1.step(Instruction::Return, rnd2)->Ok_0 == (MachineView {
                stack: m.stack.update(m.sp as int, m.pc),
                ..m
            })
        }),
{
    let m1 = m.step(Instruction::Call { address }, rnd1)->Ok_0;
    let m2 = m1.step(Instruction::Return, rnd2)->Ok_0;
    assert(m2 =~= (MachineView { stack: m.stack.update(m.sp as int, m.pc), ..m }));
}

/// Drawing the same sprite at the same anchor twice restores the
/// framebuffer exactly, and the second draw's collision flag is 1 exactly
/// when the sprite toggles some cell that was dark before the first draw:
/// the first draw lit every such cell. The coordinate registers must not be
/// the flag register, which the first draw overwrites.
pub proof fn lemma_draw_twice(m: MachineView, vx: u8, vy: u8, n: u8, rnd1: u8, rnd2: u8)
    requires
        m.wf(),
        vx < 16,
        vy < 16,
        n < 16,
        vx != 15,
        vy != 15,
        m.i + n <= 4096,
        forall|pos: int| 0 <= pos < 2048 ==> m.display[pos] == 0 || #[trigger] m.display[pos] == 1,
    ensures
        m.step(Instruction::Draw { vx, vy, n }, rnd1) is Ok,
        ({
            let m1 = m.step(Instruction::Draw { vx, vy, n }, rnd1)->Ok_0;
            &&& m1.step(Instruction::Draw { vx, vy, n }, rnd2) is Ok
            &&& m1.step(Instruction::Draw { vx, vy, n }, rnd2)->Ok_0.display == m.display
            &&& (m1.step(Instruction::Draw { vx, vy, n }, rnd2)->Ok_0.v[15] == 1 <==> exists|
                pos: int,
            |
                0 <= pos < 2048 && #[trigger] draw_touches(
                    m.memory,
                    m.i as int,
                    (m.v[vx as int] % 64) as int,
                    (m.v[vy as int] % 32) as int,
                    n as int,
                    pos,
                ) && m.display[pos] == 0)
        }),
{
    let x0 = (m.v[vx as int] % 64) as int;
    let y0 = (m.v[vy as int] % 32) as int;
    let m1 = m.step(Instruction::Draw { vx, vy, n }, rnd1)->Ok_0;
    assert(m1.v[vx as int] == m.v[vx as int] && m1.v[vy as int] == m.v[vy as int]);
    crate::display::lemma_draw_twice_restores(m.display, m.memory, m.i as int, x0, y0, n as int);
    crate::display::lemma_second_draw_collision(
        m.display,
        m.memory,
        m.i as int,
        x0,
        y0,
        n as int,
    );
}

} // verus!
