//! Memory shifts and rotates by one bit (ASd, LSd, ROXd, ROd on a word in memory).
use vstd::prelude::*;
use crate::palm::cpu::ea::{
    add_mod32, add_signed_u32, indexed_addr, indexed_spec, lemma_i32_as_u32, lemma_u16_as_i16,
    regs, sat_add32, sext16, Regs,
};
use crate::palm::cpu::memory::{MemView, MemoryMap};
use crate::palm::cpu::state::{CpuState68k, StopReason};

verus! {

/// The word operand's address and the instruction length, for the memory
/// modes `(An)`, `(An)+`, `-(An)`, `d16(An)`, `d8(An,Xn)`, `abs.w` and
/// `abs.l`; `(An)+` and `-(An)` move `An` by two.
pub open spec fn target_spec(r: Regs, m: MemView, pc: u32, mode: u16, reg: int) -> (Regs, Option<(u32, u32)>) {
    let ext = (pc + 2) as u32;
    if mode == 2 {
        (r, Some((r.a[reg], 2u32)))
    } else if mode == 3 {
        (r.with_a(reg, r.a[reg].wrapping_add(2)), Some((r.a[reg], 2u32)))
    } else if mode == 4 {
        let addr = r.a[reg].wrapping_sub(2);
        (r.with_a(reg, addr), Some((addr, 2u32)))
    } else if mode == 5 {
        match m.read16(ext) {
            None => (r, None),
            Some(d) => (r, Some((add_mod32(r.a[reg], sext16(d as int)), 4u32))),
        }
    } else if mode == 6 {
        match m.read16(ext) {
            None => (r, None),
            Some(e) => (r, Some((indexed_spec(r.a[reg], e, r), 4u32))),
        }
    } else if mode == 7 && reg == 0 {
        match m.read16(ext) {
            None => (r, None),
            Some(aw) => (r, Some((add_mod32(0, sext16(aw as int)), 4u32))),
        }
    } else if mode == 7 && reg == 1 {
        match m.read32(ext) {
            None => (r, None),
            Some(al) => (r, Some((al, 6u32))),
        }
    } else {
        (r, None)
    }
}

/// Whether the memory mode `mode`/`reg` takes words after the opcode:
/// `d16(An)`, `d8(An,Xn)`, `abs.w` and `abs.l`.
pub open spec fn mode_reads_ext(mode: u16, reg: u16) -> bool {
    mode == 5 || mode == 6 || (mode == 7 && (reg == 0 || reg == 1))
}

/// Whether `word` is a memory shift whose operand address takes words after
/// the opcode.
pub open spec fn shiftmem_reads_ext(word: u16) -> bool {
    (word & 0xF0C0) == 0xE0C0 && mode_reads_ext((word >> 3) & 0x0007, word & 0x0007)
}

fn ea_target_addr(
    state: &mut CpuState68k,
    memory: &MemoryMap,
    pc: u32,
    mode: u16,
    reg: usize,
) -> (t: Option<(u32, u32)>)
    requires
        reg < 8,
        mode_reads_ext(mode, reg as u16) ==> pc <= u32::MAX - 2,
    ensures
        (regs(*final(state)), t) == target_spec(regs(*old(state)), memory@, pc, mode, reg as int),
        final(state).call_stack == old(state).call_stack,
{
    if mode == 2 {
        Some((state.a[reg], 2))
    } else if mode == 3 {
        let addr = state.a[reg];
        state.a[reg] = state.a[reg].wrapping_add(2);
        Some((addr, 2))
    } else if mode == 4 {
        state.a[reg] = state.a[reg].wrapping_sub(2);
        Some((state.a[reg], 2))
    } else if mode == 5 {
        let w = memory.read_u16_be(pc + 2)?;
        proof { lemma_u16_as_i16(w); }
        let disp16 = w as i16 as i32;
        Some((add_signed_u32(state.a[reg], disp16), 4))
    } else if mode == 6 {
        let ext = memory.read_u16_be(pc + 2)?;
        Some((indexed_addr(state.a[reg], ext, state), 4))
    } else if mode == 7 && reg == 0 {
        let w = memory.read_u16_be(pc + 2)?;
        proof { lemma_u16_as_i16(w); lemma_i32_as_u32(w as i16 as i32); }
        let aw = w as i16 as i32;
        Some((aw as u32, 4))
    } else if mode == 7 && reg == 1 {
        Some((memory.read_u32_be(pc + 2)?, 6))
    } else {
        None
    }
}

/// The shifted word and the bit shifted out, for the operation `kind`
/// (0 ASR, 1 ASL, 2 LSR, 3 LSL, 4 ROXR, 5 ROXL, 6 ROR, 7 ROL) with the
/// extend bit `x`.
pub open spec fn mem_shift_out(kind: u16, cur: u16, x: bool) -> (u16, bool) {
    let xi: u16 = if x { 1 } else { 0 };
    let low = (cur & 0x0001) != 0;
    let high = (cur & 0x8000) != 0;
    if kind == 0 {
        ((cur >> 1u16) | (cur & 0x8000), low)
    } else if kind == 1 || kind == 3 {
        (cur << 1u16, high)
    } else if kind == 2 {
        (cur >> 1u16, low)
    } else if kind == 4 {
        ((cur >> 1u16) | (xi << 15u16), low)
    } else if kind == 5 {
        ((cur << 1u16) | xi, high)
    } else if kind == 6 {
        ((cur >> 1u16) | ((cur & 0x0001) << 15u16), low)
    } else {
        ((cur << 1u16) | ((cur >> 15u16) & 1), high)
    }
}

/// Status register after a memory shift: N and Z from the result, V
/// cleared, C the bit shifted out, X set to C except for the plain rotates
/// (`keep_x`), which leave it alone.
pub open spec fn mem_shift_sr(sr: u16, out: u16, c: bool, keep_x: bool) -> u16 {
    let x = if keep_x { (sr & 0x0010) != 0 } else { c };
    (sr & 0xFFE0) | (if x { 0x0010u16 } else { 0u16 }) | (if (out & 0x8000) != 0 { 0x0008u16 } else { 0u16 })
        | (if out == 0 { 0x0004u16 } else { 0u16 }) | (if c { 0x0001u16 } else { 0u16 })
}

pub open spec fn is_shiftmem(word: u16) -> bool {
    (word & 0xF0C0) == 0xE0C0
}

/// One memory shift: `Ok(false)` for another instruction or an addressing
/// mode that is not decoded, `OutOfBounds` when the operand is not mapped
/// (after any `An` update).
pub open spec fn shiftmem_spec(word: u16, pc: u32, r: Regs, m: MemView) -> (Result<bool, StopReason>, Regs, MemView) {
    let mode = (word >> 3) & 0x0007;
    let reg = (word & 0x0007) as int;
    let kind = (word >> 9) & 0x0007;
    if !is_shiftmem(word) {
        (Ok(false), r, m)
    } else {
        let (r2, t) = target_spec(r, m, pc, mode, reg);
        match t {
            None => (Ok(false), r2, m),
            Some((addr, advance)) => match m.read16(addr) {
                None => (Err(StopReason::OutOfBounds { pc }), r2, m),
                Some(cur) => {
                    let (out, c) = mem_shift_out(kind, cur, (r2.sr & 0x0010) != 0);
                    (
                        Ok(true),
                        r2.with_sr(mem_shift_sr(r2.sr, out, c, kind == 6 || kind == 7)).with_pc(
                            sat_add32(pc, advance),
                        ),
                        m.write16(addr, out),
                    )
                },
            },
        }
    }
}

proof fn lemma_mem_shift_sr(sr: u16, out: u16, c: bool, keep_x: bool)
    ensures
        ({
            let s0 = sr & !0x001Fu16;
            let s1 = if (out & 0x8000) != 0 { s0 | 0x0008 } else { s0 };
            let s2 = if out == 0 { s1 | 0x0004 } else { s1 };
            let s3 = if c { s2 | 0x0001 } else { s2 };
            let s4 = if !keep_x {
                let t = s3 & !0x0010u16;
                if c { t | 0x0010 } else { t }
            } else {
                s3 | (sr & 0x0010)
            };
            s4 == mem_shift_sr(sr, out, c, keep_x)
        }),
{
    let n8: u16 = if (out & 0x8000) != 0 { 8u16 } else { 0u16 };
    let z4: u16 = if out == 0 { 4u16 } else { 0u16 };
    let c1: u16 = if c { 1u16 } else { 0u16 };
    let xb: u16 = if (if keep_x { (sr & 0x0010) != 0 } else { c }) { 0x10u16 } else { 0u16 };
    let s0 = sr & !0x001Fu16;
    let s1 = if (out & 0x8000) != 0 { s0 | 0x0008 } else { s0 };
    let s2 = if out == 0 { s1 | 0x0004 } else { s1 };
    let s3 = if c { s2 | 0x0001 } else { s2 };
    assert(s3 == s0 | n8 | z4 | c1) by (bit_vector)
        requires
            s1 == (if (out & 0x8000) != 0 { s0 | 0x0008 } else { s0 }),
            s2 == (if out == 0 { s1 | 0x0004 } else { s1 }),
            s3 == (if c { s2 | 0x0001 } else { s2 }),
            n8 == (if (out & 0x8000) != 0 { 8u16 } else { 0u16 }),
            z4 == (if out == 0 { 4u16 } else { 0u16 }),
            c1 == (if c { 1u16 } else { 0u16 });
    let s4 = if !keep_x {
        let t = s3 & !0x0010u16;
        if c { t | 0x0010 } else { t }
    } else {
        s3 | (sr & 0x0010)
    };
    assert(s4 == (sr & 0xFFE0) | xb | n8 | z4 | c1) by (bit_vector)
        requires
            s0 == sr & !0x001Fu16,
            s3 == s0 | n8 | z4 | c1,
            n8 == 0 || n8 == 8,
            z4 == 0 || z4 == 4,
            c1 == (if c { 1u16 } else { 0u16 }),
            xb == (if (if keep_x { (sr & 0x0010) != 0 } else { c }) { 0x10u16 } else { 0u16 }),
            s4 == (if !keep_x {
                if c { (s3 & !0x0010u16) | 0x0010 } else { s3 & !0x0010u16 }
            } else {
                s3 | (sr & 0x0010)
            });
}

/// Executes a memory shift or rotate by one bit; `Ok(false)` when `word` is
/// not one, or its addressing mode is not decoded.
pub fn execute(
    word: u16,
    pc: u32,
    state: &mut CpuState68k,
    memory: &mut MemoryMap,
) -> (res: Result<bool, StopReason>)
    requires
        shiftmem_reads_ext(word) ==> pc <= u32::MAX - 2,
    ensures
        (res, regs(*final(state)), final(memory)@) == shiftmem_spec(word, pc, regs(*old(state)), old(memory)@),
        final(state).call_stack == old(state).call_stack,
{
    // Memory AS/LS/ROX/RO by 1 bit.
    if (word & 0xF0C0) != 0xE0C0 {
        return Ok(false);
    }
    let mode = (word >> 3) & 0x0007;
    let reg = (word & 0x0007) as usize;
    proof { crate::palm::cpu::ea::lemma_opcode_fields(word); }
    let (addr, advance) = match ea_target_addr(state, memory, pc, mode, reg) {
        Some(t) => t,
        None => {
            return Ok(false);
        },
    };
    let cur = match memory.read_u16_be(addr) {
        Some(v) => v,
        None => {
            return Err(StopReason::OutOfBounds { pc });
        },
    };
    let kind = (word >> 9) & 0x0007;
    let x_in = if (state.sr & 0x0010) != 0 { 1u16 } else { 0u16 };
    let mut c = false;
    let out = if kind == 0 {
        // ASR: the sign bit stays.
        c = (cur & 0x0001) != 0;
        (cur >> 1) | (cur & 0x8000)
    } else if kind == 1 || kind == 3 {
        // ASL, LSL
        c = (cur & 0x8000) != 0;
        cur << 1
    } else if kind == 2 {
        // LSR
        c = (cur & 0x0001) != 0;
        cur >> 1
    } else if kind == 4 {
        // ROXR
        c = (cur & 0x0001) != 0;
        (cur >> 1) | (x_in << 15)
    } else if kind == 5 {
        // ROXL
        c = (cur & 0x8000) != 0;
        (cur << 1) | x_in
    } else if kind == 6 {
        // ROR
        c = (cur & 0x0001) != 0;
        (cur >> 1) | ((cur & 0x0001) << 15)
    } else {
        // ROL
        c = (cur & 0x8000) != 0;
        (cur << 1) | ((cur >> 15) & 1)
    };
    memory.write_u16_be(addr, out);

    proof { lemma_mem_shift_sr(state.sr, out, c, kind == 6 || kind == 7); }
    let mut sr = state.sr & !0x001F;
    if (out & 0x8000) != 0 {
        sr |= 0x0008;
    }
    if out == 0 {
        sr |= 0x0004;
    }
    if c {
        sr |= 0x0001;
    }
    // The plain rotates leave X alone; the others copy C into it.
    if kind != 6 && kind != 7 {
        sr &= !0x0010;
        if c {
            sr |= 0x0010;
        }
    } else {
        sr |= state.sr & 0x0010;
    }
    state.sr = sr;
    state.pc = pc.saturating_add(advance);
    Ok(true)
}

} // verus!
