//! BRA, BSR and Bcc.
use vstd::prelude::*;
use crate::palm::cpu::ea::{lemma_u16_as_i16, lemma_u8_as_i8, regs, sat_add32, sext16, sext8, Regs};
use crate::palm::cpu::memory::{MemView, MemoryMap};
use crate::palm::cpu::ops::cond::{cond_holds, sr_cond_true, target_pc, target_spec};
use crate::palm::cpu::state::{CpuState68k, StopReason};

verus! {

/// Displacement of a branch and its length in bytes: the low byte, or the
/// following word when the low byte is zero.
pub open spec fn branch_disp_spec(m: MemView, pc: u32, op: u16) -> Option<(int, u32)> {
    let disp8 = op & 0x00FF;
    if disp8 == 0 {
        match m.read16((pc + 2) as u32) {
            Some(w) => Some((sext16(w as int), 4)),
            None => None,
        }
    } else {
        Some((sext8(disp8 as int), 2))
    }
}

/// Whether `word` is a branch whose displacement is the word after it.
pub open spec fn branch_reads_ext(word: u16) -> bool {
    (word & 0xF000) == 0x6000 && (word & 0x00FF) == 0
}

fn branch_disp(memory: &MemoryMap, pc: u32, op: u16) -> (r: Option<(i32, u32)>)
    requires
        (op & 0x00FF) == 0 ==> pc <= u32::MAX - 2,
    ensures
        match (r, branch_disp_spec(memory@, pc, op)) {
            (Some((d, l)), Some((sd, sl))) => d as int == sd && l == sl,
            (None, None) => true,
            _ => false,
        },
{
    let disp8 = (op & 0x00FF) as u8;
    proof {
        assert(((op & 0x00FF) as u8) as int == (op & 0x00FF) as int) by (bit_vector);
        lemma_u8_as_i8(disp8);
    }
    if disp8 == 0 {
        let w = memory.read_u16_be(pc + 2)?;
        proof { lemma_u16_as_i16(w); }
        let ext = w as i16 as i32;
        Some((ext, 4))
    } else {
        Some(((disp8 as i8) as i32, 2))
    }
}

/// A branch: BSR pushes the return address on the A7 stack and on the call
/// stack; a taken branch goes to the address after the opcode word plus the
/// displacement.
pub open spec fn branch_spec(word: u16, pc: u32, r: Regs, m: MemView, calls: Seq<u32>)
    -> (Result<bool, StopReason>, Regs, MemView, Seq<u32>)
{
    let cond = ((word >> 8) & 0x000F) as u8;
    if (word & 0xF000) != 0x6000 {
        (Ok(false), r, m, calls)
    } else {
        match branch_disp_spec(m, pc, word) {
            None => (Err(StopReason::OutOfBounds { pc }), r, m, calls),
            Some((disp, len)) => {
                let next_pc = sat_add32(pc, len);
                let (r1, m1, calls1) = if cond == 1 {
                    let sp = r.a[7].wrapping_sub(4);
                    (r.with_a(7, sp), m.write32(sp, next_pc), calls.push(next_pc))
                } else {
                    (r, m, calls)
                };
                if cond == 0 || cond == 1 || cond_holds(r.sr, cond) {
                    match target_spec(sat_add32(pc, 2), disp) {
                        Some(t) => (Ok(true), r1.with_pc(t), m1, calls1),
                        None => (Err(StopReason::OutOfBounds { pc }), r1, m1, calls1),
                    }
                } else {
                    (Ok(true), r1.with_pc(next_pc), m1, calls1)
                }
            },
        }
    }
}

/// Runs `word` at `pc` when it is BRA, BSR or Bcc.
pub fn execute(
    word: u16,
    pc: u32,
    state: &mut CpuState68k,
    memory: &mut MemoryMap,
) -> (res: Result<bool, StopReason>)
    requires
        branch_reads_ext(word) ==> pc <= u32::MAX - 2,
    ensures
        (res, regs(*final(state)), final(memory)@, final(state).call_stack@) == branch_spec(
            word,
            pc,
            regs(*old(state)),
            old(memory)@,
            old(state).call_stack@,
        ),
{
    if (word & 0xF000) != 0x6000 {
        return Ok(false);
    }

    let cond = ((word >> 8) & 0x000F) as u8;
    let Some((disp, instr_len)) = branch_disp(memory, pc, word) else {
        return Err(StopReason::OutOfBounds { pc });
    };

    // 68k branch displacement is based off PC+2 (the extension-word address).
    // This matters for Bcc/BSR with 16-bit displacement.
    let base_pc = pc.saturating_add(2);
    let next_pc = pc.saturating_add(instr_len);

    let taken = if cond == 0x0 {
        true // BRA
    } else if cond == 0x1 {
        // BSR
        state.a[7] = state.a[7].wrapping_sub(4);
        memory.write_u32_be(state.a[7], next_pc);
        state.call_stack.push(next_pc);
        true
    } else {
        sr_cond_true(state.sr, cond)
    };

    if taken {
        let Some(t) = target_pc(base_pc, disp) else {
            return Err(StopReason::OutOfBounds { pc });
        };
        state.pc = t;
    } else {
        state.pc = next_pc;
    }

    Ok(true)
}

} // verus!
