//! System instructions: RESET, NOP, STOP, RTE, TRAPV, RTR, MOVE USP,
//! MOVE to and from SR/CCR, and ORI/ANDI/EORI to CCR and SR.
use vstd::prelude::*;
use crate::palm::cpu::ea::{ea_read, ea_write, read_ea, regs, sat_add32, write_ea, EaKind, Regs};
use crate::palm::cpu::memory::{MemView, MemoryMap};
use crate::palm::cpu::state::{CpuState68k, StopReason};

verus! {

/// Reads a word operand through the data-alterable modes without indexing.
fn read_ea_word(
    state: &mut CpuState68k,
    memory: &MemoryMap,
    mode: u16,
    reg: usize,
    ext_pc: &mut u32,
) -> (v: Option<u16>)
    requires
        reg < 8,
    ensures
        ({
            let (r2, e2, w) = ea_read(regs(*old(state)), memory@, mode, reg as int, *old(ext_pc), 2, *old(ext_pc), EaKind::Word);
            &&& regs(*final(state)) == r2
            &&& *final(ext_pc) == e2
            &&& v == match w {
                Some(x) => Some(x as u16),
                None => None,
            }
        }),
        final(state).call_stack == old(state).call_stack,
{
    let base = *ext_pc;
    match read_ea(state, memory, mode, reg, ext_pc, 2, base, EaKind::Word) {
        Some(x) => Some(x as u16),
        None => None,
    }
}

/// Writes a word operand through the data-alterable modes without indexing.
fn write_ea_word(
    state: &mut CpuState68k,
    memory: &mut MemoryMap,
    mode: u16,
    reg: usize,
    ext_pc: &mut u32,
    value: u16,
) -> (ok: bool)
    requires
        reg < 8,
    ensures
        (regs(*final(state)), final(memory)@, *final(ext_pc), ok)
            == ea_write(regs(*old(state)), old(memory)@, mode, reg as int, *old(ext_pc), 2, value as u32, true),
        final(state).call_stack == old(state).call_stack,
{
    write_ea(state, memory, mode, reg, ext_pc, 2, value as u32, true)
}

/// Whether the instruction reads an immediate word right after itself.
pub open spec fn reads_imm_word(word: u16) -> bool {
    word == 0x003C || word == 0x023C || word == 0x0A3C || word == 0x007C || word == 0x027C
        || word == 0x0A7C || word == 0x4E72
}

/// RESET, NOP, STOP, RTE, TRAPV and RTR.
pub open spec fn core_system_spec(word: u16, pc: u32, r: Regs, m: MemView) -> (Result<bool, StopReason>, Regs) {
    let sp = r.a[7];
    if word == 0x4E70 || word == 0x4E71 {
        (Ok(true), r.with_pc(sat_add32(pc, 2)))
    } else if word == 0x4E72 {
        match m.read16((pc + 2) as u32) {
            None => (Err(StopReason::OutOfBounds { pc }), r),
            Some(v) => (Ok(true), r.with_sr(v).with_pc(sat_add32(pc, 4))),
        }
    } else if word == 0x4E73 || word == 0x4E77 {
        match m.read16(sp) {
            None => (Err(StopReason::OutOfBounds { pc }), r),
            Some(popped) => {
                let sp2 = sp.wrapping_add(2);
                match m.read32(sp2) {
                    None => (Err(StopReason::OutOfBounds { pc }), r.with_a(7, sp2)),
                    Some(new_pc) => {
                        let sr = if word == 0x4E73 { popped } else { (r.sr & 0xFFE0) | (popped & 0x001F) };
                        (Ok(true), r.with_a(7, sp2.wrapping_add(4)).with_sr(sr).with_pc(new_pc))
                    },
                }
            },
        }
    } else if word == 0x4E76 {
        if (r.sr & 0x0002) != 0 {
            (Err(StopReason::Trap { vector: 7, pc }), r)
        } else {
            (Ok(true), r.with_pc(sat_add32(pc, 2)))
        }
    } else {
        (Ok(false), r)
    }
}

fn execute_core_system(
    word: u16,
    pc: u32,
    state: &mut CpuState68k,
    memory: &mut MemoryMap,
) -> (res: Result<bool, StopReason>)
    requires
        reads_imm_word(word) ==> pc <= u32::MAX - 2,
    ensures
        (res, regs(*final(state))) == core_system_spec(word, pc, regs(*old(state)), old(memory)@),
        final(memory)@ == old(memory)@,
        final(state).call_stack == old(state).call_stack,
{
    if word == 0x4E70 || word == 0x4E71 {
        // RESET / NOP: nothing to do here.
        state.pc = pc.saturating_add(2);
        return Ok(true);
    } else if word == 0x4E72 {
        // STOP #imm: loads SR without halting the executor.
        let new_sr = match memory.read_u16_be(pc + 2) {
            Some(v) => v,
            None => {
                return Err(StopReason::OutOfBounds { pc });
            },
        };
        state.sr = new_sr;
        state.pc = pc.saturating_add(4);
        return Ok(true);
    } else if word == 0x4E73 || word == 0x4E77 {
        // RTE pops SR then PC; RTR pops the condition codes then PC.
        let popped = match memory.read_u16_be(state.a[7]) {
            Some(v) => v,
            None => {
                return Err(StopReason::OutOfBounds { pc });
            },
        };
        state.a[7] = state.a[7].wrapping_add(2);
        let new_pc = match memory.read_u32_be(state.a[7]) {
            Some(v) => v,
            None => {
                return Err(StopReason::OutOfBounds { pc });
            },
        };
        state.a[7] = state.a[7].wrapping_add(4);
        if word == 0x4E73 {
            state.sr = popped;
        } else {
            proof { crate::palm::cpu::ea::lemma_status_masks(state.sr); }
            state.sr = (state.sr & !0x001F) | (popped & 0x001F);
        }
        state.pc = new_pc;
        return Ok(true);
    } else if word == 0x4E76 {
        // TRAPV: traps only when V is set.
        if (state.sr & 0x0002) != 0 {
            return Err(StopReason::Trap { vector: 7, pc });
        }
        state.pc = pc.saturating_add(2);
        return Ok(true);
    }
    Ok(false)
}

/// MOVE An,USP and MOVE USP,An, with A7 standing for the user stack pointer.
pub open spec fn move_usp_spec(word: u16, pc: u32, r: Regs) -> (Result<bool, StopReason>, Regs) {
    let an = (word & 0x0007) as int;
    if (word & 0xFFF8) == 0x4E60 {
        (Ok(true), r.with_a(7, r.a[an]).with_pc(sat_add32(pc, 2)))
    } else if (word & 0xFFF8) == 0x4E68 {
        (Ok(true), r.with_a(an, r.a[7]).with_pc(sat_add32(pc, 2)))
    } else {
        (Ok(false), r)
    }
}

fn execute_move_usp(word: u16, pc: u32, state: &mut CpuState68k) -> (res: Result<bool, StopReason>)
    ensures
        (res, regs(*final(state))) == move_usp_spec(word, pc, regs(*old(state))),
        final(state).call_stack == old(state).call_stack,
{
    proof { crate::palm::cpu::ea::lemma_opcode_fields(word); }
    if (word & 0xFFF8) == 0x4E60 {
        // MOVE An,USP
        let an = (word & 0x0007) as usize;
        state.a[7] = state.a[an];
        state.pc = pc.saturating_add(2);
        return Ok(true);
    }
    if (word & 0xFFF8) == 0x4E68 {
        // MOVE USP,An
        let an = (word & 0x0007) as usize;
        state.a[an] = state.a[7];
        state.pc = pc.saturating_add(2);
        return Ok(true);
    }
    Ok(false)
}

/// MOVE from SR/CCR to `<ea>` and MOVE `<ea>` to SR/CCR; an operand that
/// cannot be reached stops as out of bounds.
pub open spec fn move_sr_ccr_spec(word: u16, pc: u32, r: Regs, m: MemView) -> (Result<bool, StopReason>, Regs, MemView) {
    let mode = (word >> 3) & 0x0007;
    let reg = (word & 0x0007) as int;
    let start = sat_add32(pc, 2);
    let op = word & 0xFFC0;
    if op == 0x40C0 || op == 0x42C0 {
        let v: u16 = if op == 0x40C0 { r.sr } else { r.sr & 0x001F };
        let (r2, m2, ext_pc, ok) = ea_write(r, m, mode, reg, start, 2, v as u32, true);
        if !ok {
            (Err(StopReason::OutOfBounds { pc }), r2, m2)
        } else {
            (Ok(true), r2.with_pc(ext_pc), m2)
        }
    } else if op == 0x46C0 || op == 0x44C0 {
        let (r2, ext_pc, v) = ea_read(r, m, mode, reg, start, 2, start, EaKind::Word);
        match v {
            None => (Err(StopReason::OutOfBounds { pc }), r2, m),
            Some(x) => {
                let w = x as u16;
                let sr = if op == 0x46C0 { w } else { (r2.sr & 0xFFE0) | (w & 0x001F) };
                (Ok(true), r2.with_sr(sr).with_pc(ext_pc), m)
            },
        }
    } else {
        (Ok(false), r, m)
    }
}

fn execute_move_sr_ccr(
    word: u16,
    pc: u32,
    state: &mut CpuState68k,
    memory: &mut MemoryMap,
) -> (res: Result<bool, StopReason>)
    ensures
        (res, regs(*final(state)), final(memory)@) == move_sr_ccr_spec(word, pc, regs(*old(state)), old(memory)@),
        final(state).call_stack == old(state).call_stack,
{
    let mode = (word >> 3) & 0x0007;
    let reg = (word & 0x0007) as usize;
    proof { crate::palm::cpu::ea::lemma_opcode_fields(word); }

    // MOVE from SR/CCR to <ea>.
    if (word & 0xFFC0) == 0x40C0 || (word & 0xFFC0) == 0x42C0 {
        let v = if (word & 0xFFC0) == 0x40C0 {
            state.sr
        } else {
            state.sr & 0x001F
        };
        let mut ext_pc = pc.saturating_add(2);
        if !write_ea_word(state, memory, mode, reg, &mut ext_pc, v) {
            return Err(StopReason::OutOfBounds { pc });
        }
        state.pc = ext_pc;
        return Ok(true);
    }

    // MOVE <ea> to SR/CCR.
    if (word & 0xFFC0) == 0x46C0 || (word & 0xFFC0) == 0x44C0 {
        let mut ext_pc = pc.saturating_add(2);
        let v = match read_ea_word(state, memory, mode, reg, &mut ext_pc) {
            Some(v) => v,
            None => {
                return Err(StopReason::OutOfBounds { pc });
            },
        };
        if (word & 0xFFC0) == 0x46C0 {
            state.sr = v;
        } else {
            proof { crate::palm::cpu::ea::lemma_status_masks(state.sr); }
            state.sr = (state.sr & !0x001F) | (v & 0x001F);
        }
        state.pc = ext_pc;
        return Ok(true);
    }

    Ok(false)
}

/// ORI/ANDI/EORI `#imm` to CCR (only the five condition-code bits change)
/// and to SR (the whole register).
pub open spec fn imm_status_spec(word: u16, pc: u32, r: Regs, m: MemView) -> (Result<bool, StopReason>, Regs) {
    let to_ccr = word == 0x003C || word == 0x023C || word == 0x0A3C;
    let to_sr = word == 0x007C || word == 0x027C || word == 0x0A7C;
    if !(to_ccr || to_sr) {
        (Ok(false), r)
    } else {
        match m.read16((pc + 2) as u32) {
            None => (Err(StopReason::OutOfBounds { pc }), r),
            Some(imm) => {
                let sr = if to_ccr {
                    let ccr = r.sr & 0x001F;
                    let i = imm & 0x001F;
                    let out = if word == 0x003C { ccr | i } else if word == 0x023C { ccr & i } else { ccr ^ i };
                    (r.sr & 0xFFE0) | out
                } else if word == 0x007C {
                    r.sr | imm
                } else if word == 0x027C {
                    r.sr & imm
                } else {
                    r.sr ^ imm
                };
                (Ok(true), r.with_sr(sr).with_pc(sat_add32(pc, 4)))
            },
        }
    }
}

/// The whole system group, tried in the order immediate-to-status, core,
/// USP moves, status moves.
pub open spec fn system_spec(word: u16, pc: u32, r: Regs, m: MemView) -> (Result<bool, StopReason>, Regs, MemView) {
    let (res1, r1) = imm_status_spec(word, pc, r, m);
    let (res2, r2) = core_system_spec(word, pc, r, m);
    let (res3, r3) = move_usp_spec(word, pc, r);
    if res1 != Ok::<bool, StopReason>(false) {
        (res1, r1, m)
    } else if res2 != Ok::<bool, StopReason>(false) {
        (res2, r2, m)
    } else if res3 != Ok::<bool, StopReason>(false) {
        (res3, r3, m)
    } else {
        move_sr_ccr_spec(word, pc, r, m)
    }
}

/// Executes one system instruction; `Ok(false)` when `word` is none of them.
pub fn execute(
    word: u16,
    pc: u32,
    state: &mut CpuState68k,
    memory: &mut MemoryMap,
) -> (res: Result<bool, StopReason>)
    requires
        reads_imm_word(word) ==> pc <= u32::MAX - 2,
    ensures
        (res, regs(*final(state)), final(memory)@) == system_spec(word, pc, regs(*old(state)), old(memory)@),
        final(state).call_stack == old(state).call_stack,
{
    // ORI/ANDI/EORI #imm,CCR
    if word == 0x003C || word == 0x023C || word == 0x0A3C {
        let imm = match memory.read_u16_be(pc + 2) {
            Some(v) => v,
            None => {
                return Err(StopReason::OutOfBounds { pc });
            },
        };
        let ccr = state.sr & 0x001F;
        let out = if word == 0x003C {
            ccr | (imm & 0x001F)
        } else if word == 0x023C {
            ccr & (imm & 0x001F)
        } else {
            ccr ^ (imm & 0x001F)
        };
        proof { crate::palm::cpu::ea::lemma_status_masks(state.sr); }
        state.sr = (state.sr & !0x001F) | out;
        state.pc = pc.saturating_add(4);
        return Ok(true);
    }
    // ORI/ANDI/EORI #imm,SR
    if word == 0x007C || word == 0x027C || word == 0x0A7C {
        let imm = match memory.read_u16_be(pc + 2) {
            Some(v) => v,
            None => {
                return Err(StopReason::OutOfBounds { pc });
            },
        };
        state.sr = if word == 0x007C {
            state.sr | imm
        } else if word == 0x027C {
            state.sr & imm
        } else {
            state.sr ^ imm
        };
        state.pc = pc.saturating_add(4);
        return Ok(true);
    }

    if execute_core_system(word, pc, state, memory)? {
        return Ok(true);
    }
    if execute_move_usp(word, pc, state)? {
        return Ok(true);
    }
    if execute_move_sr_ccr(word, pc, state, memory)? {
        return Ok(true);
    }
    Ok(false)
}

} // verus!
