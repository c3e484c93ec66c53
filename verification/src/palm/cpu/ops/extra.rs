//! NOT, NEGX, TAS, CHK and ILLEGAL.
use vstd::prelude::*;
use crate::palm::cpu::ea::{
    ea_read, ea_write, logic_flags, read_ea, regs, sat_add32, set_logic_flags, sext16, size_mask,
    size_sign, write_ea, EaKind, Regs,
};
use crate::palm::cpu::memory::{MemView, MemoryMap};
use crate::palm::cpu::state::{CpuState68k, StopReason};

verus! {

pub open spec fn is_negx(word: u16) -> bool {
    let top = word & 0xFF00;
    top == 0x4000 || top == 0x4040 || top == 0x4080
}

pub open spec fn is_not(word: u16) -> bool {
    let top = word & 0xFF00;
    top == 0x4600 || top == 0x4640 || top == 0x4680
}

pub open spec fn is_tas(word: u16) -> bool {
    (word & 0xFFC0) == 0x4AC0
}

/// Condition codes after NEGX: X and C set on a borrow, N from the result,
/// V on overflow, and Z cleared by a nonzero result and otherwise kept.
pub open spec fn negx_flags(sr: u16, out: u32, dst: u32, x: u32, mask: u32, sign: u32) -> u16 {
    let sub = dst.wrapping_add(x) & mask;
    let c = sub != 0;
    let v = ((dst ^ sub) & (dst ^ out) & sign) != 0;
    (sr & 0xFFE0) | (if c { 0x11u16 } else { 0u16 }) | (if (out & sign) != 0 { 8u16 } else { 0u16 })
        | (if out == 0 && (sr & 0x0004) != 0 { 4u16 } else { 0u16 }) | (if v { 2u16 } else { 0u16 })
}

pub open spec fn not_negx_tas_spec(word: u16, pc: u32, r: Regs, m: MemView) -> (Result<bool, StopReason>, Regs, MemView) {
    let mode = (word >> 3) & 0x0007;
    let reg = (word & 0x0007) as int;
    let size = (word >> 6) & 0x0003;
    let start = sat_add32(pc, 2);
    if !(is_negx(word) || is_not(word) || is_tas(word)) {
        (Ok(false), r, m)
    } else if !is_tas(word) && size == 3 {
        (Ok(false), r, m)
    } else {
        let bytes: u32 = if is_tas(word) { 1 } else if size == 0 { 1 } else if size == 1 { 2 } else { 4 };
        let bits = (bytes * 8) as u32;
        let mask = size_mask(bits);
        let (r1, ext_pc, v) = ea_read(r, m, mode, reg, start, bytes, start, EaKind::Alterable);
        match v {
            None => (Err(StopReason::OutOfBounds { pc }), r1, m),
            Some(raw) => {
                let dst = raw & mask;
                if is_tas(word) {
                    let r1f = r1.with_sr(logic_flags(r1.sr, dst, 8));
                    let (r2, m2, _, ok) = ea_write(r1f, m, mode, reg, start, 1, dst | 0x80, false);
                    if !ok {
                        (Err(StopReason::OutOfBounds { pc }), r2, m2)
                    } else {
                        (Ok(true), r2.with_pc(ext_pc), m2)
                    }
                } else {
                    let x: u32 = if (r1.sr & 0x0010) != 0 { 1 } else { 0 };
                    let out = if is_not(word) {
                        (!dst) & mask
                    } else {
                        (0u32).wrapping_sub(dst).wrapping_sub(x) & mask
                    };
                    let (r2, m2, _, ok) = ea_write(r1, m, mode, reg, start, bytes, out, false);
                    if !ok {
                        (Err(StopReason::OutOfBounds { pc }), r2, m2)
                    } else if is_not(word) {
                        (Ok(true), r2.with_sr(logic_flags(r2.sr, out, bits)).with_pc(ext_pc), m2)
                    } else {
                        (Ok(true), r2.with_sr(negx_flags(r2.sr, out, dst, x, mask, size_sign(bits))).with_pc(ext_pc), m2)
                    }
                }
            },
        }
    }
}

proof fn lemma_negx_sr(sr: u16, c: bool, n: bool, zero: bool, v: bool)
    ensures
        ({
            let prev_z = (sr & 0x0004) != 0;
            let s0 = sr & !0x001Fu16;
            let s1 = if c { s0 | 0x0011 } else { s0 };
            let s2 = if n { s1 | 0x0008 } else { s1 };
            let s3 = if zero { if prev_z { s2 | 0x0004 } else { s2 } } else { s2 & !0x0004u16 };
            let s4 = if v { s3 | 0x0002 } else { s3 };
            s4 == (sr & 0xFFE0) | (if c { 0x11u16 } else { 0u16 }) | (if n { 8u16 } else { 0u16 })
                | (if zero && prev_z { 4u16 } else { 0u16 }) | (if v { 2u16 } else { 0u16 })
        }),
{
    let c11: u16 = if c { 0x11u16 } else { 0u16 };
    let n8: u16 = if n { 8u16 } else { 0u16 };
    let v2: u16 = if v { 2u16 } else { 0u16 };
    let pz = (sr & 0x0004) != 0;
    let z4: u16 = if zero && pz { 4u16 } else { 0u16 };
    let s0 = sr & !0x001Fu16;
    let s1 = if c { s0 | 0x0011 } else { s0 };
    let s2 = if n { s1 | 0x0008 } else { s1 };
    let s3 = if zero { if pz { s2 | 0x0004 } else { s2 } } else { s2 & !0x0004u16 };
    let s4 = if v { s3 | 0x0002 } else { s3 };
    assert(s4 == (sr & 0xFFE0) | c11 | n8 | z4 | v2) by (bit_vector)
        requires
            c11 == (if c { 0x11u16 } else { 0u16 }),
            n8 == (if n { 8u16 } else { 0u16 }),
            v2 == (if v { 2u16 } else { 0u16 }),
            pz == ((sr & 0x0004) != 0),
            z4 == (if zero && pz { 4u16 } else { 0u16 }),
            s0 == sr & !0x001Fu16,
            s1 == (if c { s0 | 0x0011 } else { s0 }),
            s2 == (if n { s1 | 0x0008 } else { s1 }),
            s3 == (if zero { if pz { s2 | 0x0004 } else { s2 } } else { s2 & !0x0004u16 }),
            s4 == (if v { s3 | 0x0002 } else { s3 });
}

#[verifier::spinoff_prover]
#[verifier::rlimit(60)]
fn execute_not_negx_tas(
    word: u16,
    pc: u32,
    state: &mut CpuState68k,
    memory: &mut MemoryMap,
) -> (res: Result<bool, StopReason>)
    ensures
        (res, regs(*final(state)), final(memory)@) == not_negx_tas_spec(word, pc, regs(*old(state)), old(memory)@),
        final(state).call_stack == old(state).call_stack,
{
    let top = word & 0xFF00;
    let is_negx = top == 0x4000 || top == 0x4040 || top == 0x4080;
    let is_not = top == 0x4600 || top == 0x4640 || top == 0x4680;
    let is_tas = (word & 0xFFC0) == 0x4AC0;
    if !(is_negx || is_not || is_tas) {
        return Ok(false);
    }

    let mode = (word >> 3) & 0x0007;
    let reg = (word & 0x0007) as usize;
    proof { crate::palm::cpu::ea::lemma_opcode_fields(word); }
    let bytes = if is_tas {
        1
    } else {
        match (word >> 6) & 0x0003 {
            0 => 1,
            1 => 2,
            2 => 4,
            _ => return Ok(false),
        }
    };
    let mut ext_pc = pc.saturating_add(2);
    let Some(dst_raw) = read_ea(state, memory, mode, reg, &mut ext_pc, bytes, pc.saturating_add(2), EaKind::Alterable) else {
        return Err(StopReason::OutOfBounds { pc });
    };
    let mask = if bytes == 4 {
        u32::MAX
    } else {
        proof { crate::palm::cpu::ea::lemma_operand_bits(); }
        (1u32 << (bytes * 8)) - 1
    };
    let dst = dst_raw & mask;

    if is_tas {
        // TAS flags reflect original byte, then set bit 7.
        set_logic_flags(state, dst, 8);
        let out = dst | 0x80;
        let mut write_pc = pc.saturating_add(2);
        if !write_ea(state, memory, mode, reg, &mut write_pc, 1, out, false) {
            return Err(StopReason::OutOfBounds { pc });
        }
        state.pc = ext_pc;
        return Ok(true);
    }

    let out = if is_not {
        (!dst) & mask
    } else {
        let x = if (state.sr & 0x0010) != 0 { 1u32 } else { 0u32 };
        (0u32).wrapping_sub(dst).wrapping_sub(x) & mask
    };
    let mut write_pc = pc.saturating_add(2);
    if !write_ea(state, memory, mode, reg, &mut write_pc, bytes, out, false) {
        return Err(StopReason::OutOfBounds { pc });
    }

    if is_not {
        set_logic_flags(state, out, bytes * 8);
    } else {
        // NEGX flags: N/Z/V/C and X; Z is chained.
        let bits = bytes * 8;
        proof { crate::palm::cpu::ea::lemma_sign_mask(bits); }
        let sign = 1u32 << (bits - 1);
        let prev_z = (state.sr & 0x0004) != 0;
        let x = if (state.sr & 0x0010) != 0 { 1u32 } else { 0u32 };
        let sub = dst.wrapping_add(x) & mask;
        let c = sub != 0;
        let v = ((dst ^ sub) & (dst ^ out) & sign) != 0;
        proof { lemma_negx_sr(state.sr, c, (out & sign) != 0, out == 0, v); }
        let mut sr = state.sr & !0x001F;
        if c {
            sr |= 0x0011;
        }
        if (out & sign) != 0 {
            sr |= 0x0008;
        }
        if out == 0 {
            if prev_z {
                sr |= 0x0004;
            }
        } else {
            sr &= !0x0004;
        }
        if v {
            sr |= 0x0002;
        }
        state.sr = sr;
    }

    state.pc = ext_pc;
    Ok(true)
}


/// CHK <ea>,Dn: traps with vector 6 when the signed low word of Dn is below
/// zero (setting N) or above the signed bound; N is cleared otherwise.
pub open spec fn chk_spec(word: u16, pc: u32, r: Regs, m: MemView) -> (Result<bool, StopReason>, Regs) {
    let dn = ((word >> 9) & 0x0007) as int;
    let mode = (word >> 3) & 0x0007;
    let reg = (word & 0x0007) as int;
    let start = sat_add32(pc, 2);
    if (word & 0xF1C0) != 0x4180 {
        (Ok(false), r)
    } else {
        let (r1, ext_pc, v) = ea_read(r, m, mode, reg, start, 2, start, EaKind::Alterable);
        match v {
            None => (Err(StopReason::OutOfBounds { pc }), r1),
            Some(bound_w) => {
                let bound = sext16(bound_w as int);
                let val = sext16(r1.d[dn] as int);
                let cleared = r1.sr & 0xFFF7;
                if val < 0 {
                    (Err(StopReason::Trap { vector: 6, pc }), r1.with_sr(cleared | 0x0008))
                } else if val > bound {
                    (Err(StopReason::Trap { vector: 6, pc }), r1.with_sr(cleared))
                } else {
                    (Ok(true), r1.with_sr(cleared).with_pc(ext_pc))
                }
            },
        }
    }
}

fn execute_chk(word: u16, pc: u32, state: &mut CpuState68k, memory: &MemoryMap) -> (res: Result<bool, StopReason>)
    ensures
        (res, regs(*final(state))) == chk_spec(word, pc, regs(*old(state)), memory@),
        final(state).call_stack == old(state).call_stack,
{
    // CHK <ea>,Dn (word)
    if (word & 0xF1C0) != 0x4180 {
        return Ok(false);
    }
    let dn = ((word >> 9) & 0x0007) as usize;
    let mode = (word >> 3) & 0x0007;
    let reg = (word & 0x0007) as usize;
    proof { crate::palm::cpu::ea::lemma_opcode_fields(word); }
    let mut ext_pc = pc.saturating_add(2);
    let Some(bound_w) = read_ea(state, memory, mode, reg, &mut ext_pc, 2, pc.saturating_add(2), EaKind::Alterable) else {
        return Err(StopReason::OutOfBounds { pc });
    };
    proof {
        crate::palm::cpu::ea::lemma_u32_as_u16(bound_w);
        crate::palm::cpu::ea::lemma_u16_as_i16(bound_w as u16);
        crate::palm::cpu::ea::lemma_u32_as_u16(state.d[dn as int]);
        crate::palm::cpu::ea::lemma_u16_as_i16(state.d[dn as int] as u16);
        assert(sext16(bound_w as int) == sext16((bound_w as u16) as int));
        assert(sext16(state.d[dn as int] as int) == sext16((state.d[dn as int] as u16) as int));
    }
    let bound = (bound_w as u16) as i16 as i32;
    let val = (state.d[dn] as u16 as i16) as i32;
    // N reflects lower bound failure.
    proof { crate::palm::cpu::ea::lemma_status_masks(state.sr); }
    state.sr &= !0x0008;
    if val < 0 {
        state.sr |= 0x0008;
        return Err(StopReason::Trap { vector: 6, pc });
    }
    if val > bound {
        return Err(StopReason::Trap { vector: 6, pc });
    }
    state.pc = ext_pc;
    Ok(true)
}

/// ILLEGAL (`0x4AFC`) raises vector 4.
fn execute_illegal(word: u16, pc: u32) -> (res: Result<bool, StopReason>)
    ensures
        res == (if word == 0x4AFC { Err(StopReason::Trap { vector: 4, pc }) } else { Ok::<bool, StopReason>(false) }),
{
    if word == 0x4AFC {
        return Err(StopReason::Trap { vector: 4, pc });
    }
    Ok(false)
}

/// NOT/NEGX/TAS, then CHK, then ILLEGAL.
pub open spec fn extra_spec(word: u16, pc: u32, r: Regs, m: MemView) -> (Result<bool, StopReason>, Regs, MemView) {
    let (res1, r1, m1) = not_negx_tas_spec(word, pc, r, m);
    if res1 != Ok::<bool, StopReason>(false) {
        (res1, r1, m1)
    } else {
        let (res2, r2) = chk_spec(word, pc, r1, m1);
        if res2 != Ok::<bool, StopReason>(false) {
            (res2, r2, m1)
        } else if word == 0x4AFC {
            (Err(StopReason::Trap { vector: 4, pc }), r2, m1)
        } else {
            (Ok(false), r2, m1)
        }
    }
}

/// Runs `word` at `pc` when it is NOT, NEGX, TAS, CHK or ILLEGAL.
pub fn execute(
    word: u16,
    pc: u32,
    state: &mut CpuState68k,
    memory: &mut MemoryMap,
) -> (res: Result<bool, StopReason>)
    ensures
        (res, regs(*final(state)), final(memory)@) == extra_spec(word, pc, regs(*old(state)), old(memory)@),
        final(state).call_stack == old(state).call_stack,
{
    if execute_not_negx_tas(word, pc, state, memory)? {
        return Ok(true);
    }
    if execute_chk(word, pc, state, memory)? {
        return Ok(true);
    }
    if execute_illegal(word, pc)? {
        return Ok(true);
    }
    Ok(false)
}

} // verus!
