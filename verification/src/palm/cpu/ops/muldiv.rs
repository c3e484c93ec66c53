//! DIVU, DIVS, MULU and MULS.
use vstd::prelude::*;
use crate::palm::cpu::ea::{
    add_mod32, ea_ext_words, ea_read, ext_words_spec, lemma_i32_as_u32, lemma_u16_as_i16, lemma_u32_as_i32, lemma_u32_as_u16,
    read_ea, regs, sat_add32, sext16, sext32, EaKind, Regs,
};
use crate::palm::cpu::memory::{MemView, MemoryMap};
use crate::palm::cpu::state::{CpuState68k, StopReason};

verus! {

/// Quotient of `a / b` rounded toward zero, as Rust's `/` on signed integers.
pub open spec fn tdiv(a: int, b: int) -> int {
    let q = (if a < 0 { -a } else { a }) / (if b < 0 { -b } else { b });
    if (a < 0) != (b < 0) { -q } else { q }
}

/// Remainder that goes with [`tdiv`]: it has the sign of `a`.
pub open spec fn trem(a: int, b: int) -> int {
    a - b * tdiv(a, b)
}

pub open spec fn is_div(word: u16) -> bool {
    (word & 0xF1C0) == 0x80C0 || (word & 0xF1C0) == 0x81C0
}

/// The 16-bit divisor of DIVU/DIVS: from `Dn`, `An` or `(An)`.
pub open spec fn divisor_spec(word: u16, r: Regs, m: MemView) -> Option<u16> {
    let mode = (word >> 3) & 0x0007;
    let reg = (word & 0x0007) as int;
    if mode == 0 {
        Some((r.d[reg] & 0xFFFF) as u16)
    } else if mode == 1 {
        Some((r.a[reg] & 0xFFFF) as u16)
    } else if mode == 2 {
        m.read16(r.a[reg])
    } else {
        None
    }
}

/// The one DIVS that Rust's `/` on `i32` rejects: `i32::MIN / -1`.
pub open spec fn divs_overflows(word: u16, r: Regs, m: MemView) -> bool {
    let dn = ((word >> 9) & 0x0007) as int;
    &&& (word & 0xF1C0) == 0x81C0
    &&& divisor_spec(word, r, m) == Some(0xFFFFu16)
    &&& r.d[dn] == 0x8000_0000
}

/// Status register after a division overflow: V set, C cleared.
pub open spec fn div_overflow_sr(sr: u16) -> u16 {
    (sr | 0x0002) & 0xFFFE
}

/// DIVU/DIVS Dn by a 16-bit divisor into a 16-bit quotient (low word) and
/// remainder (high word); an overflowing quotient leaves Dn unchanged and
/// sets V; an undecoded mode or a zero divisor stops as an unknown opcode.
pub open spec fn div_spec(word: u16, pc: u32, r: Regs, m: MemView) -> (Result<bool, StopReason>, Regs) {
    let divu = (word & 0xF1C0) == 0x80C0;
    let dn = ((word >> 9) & 0x0007) as int;
    let mode = (word >> 3) & 0x0007;
    let reg = (word & 0x0007) as u16;
    let ext = match ext_words_spec(mode, reg) {
        Some(w) => w,
        None => 0,
    };
    let next = sat_add32(pc, (2 + ext * 2) as u32);
    if !is_div(word) {
        (Ok(false), r)
    } else {
        match divisor_spec(word, r, m) {
            None => (Err(StopReason::UnknownOpcode { pc, word }), r),
            Some(divisor) => if divisor == 0 {
                (Err(StopReason::UnknownOpcode { pc, word }), r)
            } else if divu {
                let q = r.d[dn] / (divisor as u32);
                let rem = r.d[dn] % (divisor as u32);
                if q > 0xFFFF {
                    (Ok(true), r.with_sr(div_overflow_sr(r.sr)).with_pc(next))
                } else {
                    (
                        Ok(true),
                        r.with_d(dn, ((rem & 0xFFFF) << 16) | (q & 0xFFFF)).with_sr(
                            crate::palm::cpu::ops::alu::nz_flags(r.sr, (q & 0x8000) != 0, (q & 0xFFFF) == 0),
                        ).with_pc(next),
                    )
                }
            } else {
                let a = sext32(r.d[dn]);
                let b = sext16(divisor as int);
                let q = tdiv(a, b);
                if q < -32768 || q > 32767 {
                    (Ok(true), r.with_sr(div_overflow_sr(r.sr)).with_pc(next))
                } else {
                    let q16 = (q % 0x1_0000) as u32;
                    let r16 = (trem(a, b) % 0x1_0000) as u32;
                    (
                        Ok(true),
                        r.with_d(dn, (r16 << 16) | q16).with_sr(
                            crate::palm::cpu::ops::alu::nz_flags(r.sr, (q16 & 0x8000) != 0, (q16 & 0xFFFF) == 0),
                        ).with_pc(next),
                    )
                }
            },
        }
    }
}

proof fn lemma_div_overflow_sr(sr: u16)
    ensures
        ((sr | 0x0002) & !0x0001u16) == div_overflow_sr(sr),
{
    assert(((sr | 0x0002) & !0x0001u16) == (sr | 0x0002) & 0xFFFE) by (bit_vector);
}

/// Signed division of a 32-bit dividend by a 16-bit divisor, rounding toward zero.
fn signed_div(a: i32, b: i32) -> (r: (i64, i64))
    requires
        b != 0,
        -32768 <= b <= 32767,
    ensures
        r.0 == tdiv(a as int, b as int),
        r.1 == trem(a as int, b as int),
        -32768 < r.1 < 32768,
{
    let na = a < 0;
    let nb = b < 0;
    let ua: u64 = if na { (0i64 - a as i64) as u64 } else { a as u64 };
    let ub: u64 = if nb { (0i64 - b as i64) as u64 } else { b as u64 };
    let uq = ua / ub;
    let ur = ua % ub;
    assert(uq <= ua) by (nonlinear_arith) requires uq == ua / ub, ub >= 1;
    let q: i64 = if na != nb { 0i64 - uq as i64 } else { uq as i64 };
    let rem: i64 = if na { 0i64 - ur as i64 } else { ur as i64 };
    proof {
        assert(ua as int == ub as int * uq as int + ur as int) by (nonlinear_arith)
            requires uq == ua / ub, ur == ua % ub, ub >= 1;
        assert(ur < ub) by (nonlinear_arith) requires ur == ua % ub, ub >= 1;
        let qa: int = if a < 0 { -(a as int) } else { a as int };
        let qb: int = if b < 0 { -(b as int) } else { b as int };
        assert(qa == ua as int && qb == ub as int);
        let t = tdiv(a as int, b as int);
        assert(t == q as int);
        if na {
            if nb {
                assert(a as int == b as int * t - ur as int) by (nonlinear_arith)
                    requires -(a as int) == (-(b as int)) * (uq as int) + ur as int, t == uq as int;
            } else {
                assert(a as int == b as int * t - ur as int) by (nonlinear_arith)
                    requires -(a as int) == (b as int) * (uq as int) + ur as int, t == -(uq as int);
            }
        } else {
            if nb {
                assert(a as int == b as int * t + ur as int) by (nonlinear_arith)
                    requires (a as int) == (-(b as int)) * (uq as int) + ur as int, t == -(uq as int);
            } else {
                assert(a as int == b as int * t + ur as int) by (nonlinear_arith)
                    requires (a as int) == (b as int) * (uq as int) + ur as int, t == uq as int;
            }
        }
    }
    (q, rem)
}

#[verifier::spinoff_prover]
fn execute_div(
    word: u16,
    pc: u32,
    state: &mut CpuState68k,
    memory: &mut MemoryMap,
) -> (res: Result<bool, StopReason>)
    requires
        !divs_overflows(word, regs(*old(state)), old(memory)@),
    ensures
        (res, regs(*final(state))) == div_spec(word, pc, regs(*old(state)), old(memory)@),
        final(memory)@ == old(memory)@,
        final(state).call_stack == old(state).call_stack,
{
    // Distinguish DIVU (opmode 0b011) vs DIVS (opmode 0b111) via bit 8.
    let divu = (word & 0xF1C0) == 0x80C0;
    let divs = (word & 0xF1C0) == 0x81C0;
    if !(divu || divs) {
        return Ok(false);
    }

    let dn = ((word >> 9) & 0x0007) as usize;
    let mode = (word >> 3) & 0x0007;
    let reg = (word & 0x0007) as usize;
    proof { crate::palm::cpu::ea::lemma_opcode_fields(word); }
    let divisor_opt: Option<u16> = match mode {
        0 => Some((state.d[reg] & 0xFFFF) as u16), // Dn
        1 => Some((state.a[reg] & 0xFFFF) as u16), // An
        2 => memory.read_u16_be(state.a[reg]),      // (An)
        _ => None,
    };
    let Some(divisor) = divisor_opt else {
        return Err(StopReason::UnknownOpcode { pc, word });
    };
    if divisor == 0 {
        return Err(StopReason::UnknownOpcode { pc, word });
    }

    if divu {
        let dividend = state.d[dn];
        let q = dividend / (divisor as u32);
        let r = dividend % (divisor as u32);
        if q > 0xFFFF {
            // Overflow: V set, C clear; destination remains unchanged.
            proof { lemma_div_overflow_sr(state.sr); }
            state.sr |= 0x0002;
            state.sr &= !0x0001;
        } else {
            state.d[dn] = ((r & 0xFFFF) << 16) | (q & 0xFFFF);
            proof { crate::palm::cpu::ea::lemma_nzvc_steps(state.sr, (q & 0x8000) != 0, (q & 0xFFFF) == 0, false, false); }
            state.sr &= !0x000F;
            if (q & 0x8000) != 0 {
                state.sr |= 0x0008;
            }
            if (q & 0xFFFF) == 0 {
                state.sr |= 0x0004;
            }
        }
    } else {
        proof {
            lemma_u16_as_i16(divisor);
            lemma_u32_as_i32(state.d[dn as int]);
        }
        let divisor_s = divisor as i16 as i32;
        let dividend_s = state.d[dn] as i32;
        let (q, r) = signed_div(dividend_s, divisor_s);
        if q < -32768 || q > 32767 {
            // Overflow: V set, C clear; destination remains unchanged.
            proof { lemma_div_overflow_sr(state.sr); }
            state.sr |= 0x0002;
            state.sr &= !0x0001;
        } else {
            let q16: u32 = if q < 0 { (q + 0x1_0000) as u32 } else { q as u32 };
            let r16: u32 = if r < 0 { (r + 0x1_0000) as u32 } else { r as u32 };
            state.d[dn] = (r16 << 16) | q16;
            proof { crate::palm::cpu::ea::lemma_nzvc_steps(state.sr, (q16 & 0x8000) != 0, (q16 & 0xFFFF) == 0, false, false); }
            state.sr &= !0x000F;
            if (q16 & 0x8000) != 0 {
                state.sr |= 0x0008;
            }
            if (q16 & 0xFFFF) == 0 {
                state.sr |= 0x0004;
            }
        }
    }
    let ea_words = match ea_ext_words(mode, reg as u16) {
        Some(w) => w,
        None => 0,
    };
    state.pc = pc.saturating_add(2 + ea_words * 2);
    Ok(true)
}


pub open spec fn is_mul(word: u16) -> bool {
    (word & 0xF1C0) == 0xC0C0 || (word & 0xF1C0) == 0xC1C0
}

/// The 32-bit product of the low words: unsigned for MULU, signed for MULS
/// (taken modulo 2^32).
pub open spec fn mul_result(unsigned: bool, d: u32, src: u32) -> u32 {
    if unsigned {
        ((d & 0xFFFF) * (src & 0xFFFF)) as u32
    } else {
        add_mod32(0, sext16(d as int) * sext16(src as int))
    }
}

/// MULU/MULS `<ea>,Dn`: the word operand is read through every mode but
/// `-(An)`; an operand that cannot be read stops as an unknown opcode, with
/// any address-register increment already made.
pub open spec fn mul_spec(word: u16, pc: u32, r: Regs, m: MemView) -> (Result<bool, StopReason>, Regs) {
    let unsigned = (word & 0xF1C0) == 0xC0C0;
    let dn = ((word >> 9) & 0x0007) as int;
    let mode = (word >> 3) & 0x0007;
    let reg = (word & 0x0007) as int;
    let start = sat_add32(pc, 2);
    if !is_mul(word) {
        (Ok(false), r)
    } else {
        let (r2, ext_pc, v) = ea_read(r, m, mode, reg, start, 2, start, EaKind::Value);
        match v {
            None => (Err(StopReason::UnknownOpcode { pc, word }), r2),
            Some(src) => {
                let res = mul_result(unsigned, r2.d[dn], src);
                (
                    Ok(true),
                    r2.with_d(dn, res).with_sr(
                        crate::palm::cpu::ops::alu::nz_flags(r2.sr, (res & 0x8000_0000) != 0, res == 0),
                    ).with_pc(ext_pc),
                )
            },
        }
    }
}

fn mul_value(unsigned: bool, d: u32, src: u32) -> (res: u32)
    ensures
        res == mul_result(unsigned, d, src),
{
    if unsigned {
        let a = d & 0xFFFF;
        let b = src & 0xFFFF;
        assert(a <= 0xFFFF && b <= 0xFFFF) by (bit_vector)
            requires a == d & 0xFFFF, b == src & 0xFFFF;
        assert(a * b <= 0xFFFF * 0xFFFF) by (nonlinear_arith) requires a <= 0xFFFF, b <= 0xFFFF;
        a * b
    } else {
        proof {
            lemma_u32_as_u16(d);
            lemma_u32_as_u16(src);
            lemma_u16_as_i16(d as u16);
            lemma_u16_as_i16(src as u16);
        }
        let lhs = (d as u16 as i16) as i32;
        let rhs = (src as u16 as i16) as i32;
        assert(-0x4000_0000 <= lhs * rhs <= 0x4000_0000) by (nonlinear_arith)
            requires -0x8000 <= lhs <= 0x7FFF, -0x8000 <= rhs <= 0x7FFF;
        let p = lhs * rhs;
        proof { lemma_i32_as_u32(p); }
        p as u32
    }
}

#[verifier::spinoff_prover]
fn execute_mul(
    word: u16,
    pc: u32,
    state: &mut CpuState68k,
    memory: &mut MemoryMap,
) -> (res: Result<bool, StopReason>)
    ensures
        (res, regs(*final(state))) == mul_spec(word, pc, regs(*old(state)), old(memory)@),
        final(memory)@ == old(memory)@,
        final(state).call_stack == old(state).call_stack,
{
    let mulu = (word & 0xF1C0) == 0xC0C0;
    let muls = (word & 0xF1C0) == 0xC1C0;
    if !(mulu || muls) {
        return Ok(false);
    }
    let dn = ((word >> 9) & 0x0007) as usize;
    let mode = (word >> 3) & 0x0007;
    let reg = (word & 0x0007) as usize;
    proof { crate::palm::cpu::ea::lemma_opcode_fields(word); }
    let mut ext_pc = pc.saturating_add(2);
    let src_opt = read_ea(state, memory, mode, reg, &mut ext_pc, 2, pc.saturating_add(2), EaKind::Value);
    let src_word = match src_opt {
        Some(v) => v,
        None => {
            return Err(StopReason::UnknownOpcode { pc, word });
        },
    };
    let result = mul_value(mulu, state.d[dn], src_word);
    state.d[dn] = result;
    proof { crate::palm::cpu::ea::lemma_nzvc_steps(state.sr, (result & 0x8000_0000) != 0, result == 0, false, false); }
    state.sr &= !0x000F;
    if (result & 0x8000_0000) != 0 {
        state.sr |= 0x0008;
    }
    if result == 0 {
        state.sr |= 0x0004;
    }
    state.pc = ext_pc;
    Ok(true)
}

/// The multiply/divide group: DIVU/DIVS, then MULU/MULS.
pub open spec fn muldiv_spec(word: u16, pc: u32, r: Regs, m: MemView) -> (Result<bool, StopReason>, Regs) {
    if is_div(word) {
        div_spec(word, pc, r, m)
    } else {
        mul_spec(word, pc, r, m)
    }
}

/// Executes one instruction of the multiply/divide group; `Ok(false)` when
/// `word` is none of them. Memory is only read.
pub fn execute(
    word: u16,
    pc: u32,
    state: &mut CpuState68k,
    memory: &mut MemoryMap,
) -> (res: Result<bool, StopReason>)
    requires
        !divs_overflows(word, regs(*old(state)), old(memory)@),
    ensures
        (res, regs(*final(state))) == muldiv_spec(word, pc, regs(*old(state)), old(memory)@),
        final(memory)@ == old(memory)@,
        final(state).call_stack == old(state).call_stack,
{
    if execute_div(word, pc, state, memory)? {
        return Ok(true);
    }
    if execute_mul(word, pc, state, memory)? {
        return Ok(true);
    }
    Ok(false)
}

/// DIVU without overflow leaves a quotient (low word) and a remainder (high
/// word) that give back the dividend, the remainder below the divisor.
pub proof fn lemma_divu_identity(word: u16, pc: u32, r: Regs, m: MemView)
    requires
        (word & 0xF1C0) == 0x80C0,
        r.d.len() == 8,
        divisor_spec(word, r, m) matches Some(dv) && dv != 0 && r.d[((word >> 9) & 0x0007) as int] / (dv as u32) <= 0xFFFF,
    ensures
        ({
            let dn = ((word >> 9) & 0x0007) as int;
            let dv = divisor_spec(word, r, m)->0;
            let (res, r2) = div_spec(word, pc, r, m);
            &&& res == Ok::<bool, StopReason>(true)
            &&& (r2.d[dn] & 0xFFFF) * dv + (r2.d[dn] >> 16) == r.d[dn]
            &&& (r2.d[dn] >> 16) < dv
        }),
{
    let dn = ((word >> 9) & 0x0007) as int;
    assert((word >> 9) & 0x0007 < 8) by (bit_vector);
    let dv = divisor_spec(word, r, m)->0;
    let x = r.d[dn];
    let q = x / (dv as u32);
    let rem = x % (dv as u32);
    let v = ((rem & 0xFFFF) << 16) | (q & 0xFFFF);
    assert(q * dv + rem == x) by (nonlinear_arith) requires q == x / (dv as u32), rem == x % (dv as u32), dv > 0;
    assert(v & 0xFFFF == q && v >> 16 == rem) by (bit_vector)
        requires
            v == ((rem & 0xFFFF) << 16) | (q & 0xFFFF),
            q <= 0xFFFF,
            rem < 0x1_0000,
    ;
}

/// MULS does not care which operand is the source: the two word operands
/// may trade places.
pub proof fn lemma_muls_commutes(d: u32, s: u32)
    ensures
        mul_result(false, d, s) == mul_result(false, s, d),
{
    assert(sext16(d as int) * sext16(s as int) == sext16(s as int) * sext16(d as int)) by (nonlinear_arith);
}

/// MULS is signed in its source: a source word and its two's-complement
/// negation give products that add up to zero modulo 2^32 (the word -32768
/// has no negation and is left out).
pub proof fn lemma_muls_negated_source(d: u32, s: u32, t: u32)
    requires
        s % 0x1_0000 != 0x8000,
        (s % 0x1_0000 + t % 0x1_0000) % 0x1_0000 == 0,
    ensures
        (mul_result(false, d, s) as int + mul_result(false, d, t) as int) % 0x1_0000_0000 == 0,
{
    let x = sext16(d as int);
    let a = sext16(s as int);
    let b = sext16(t as int);
    assert(b == -a);
    assert(x * b == -(x * a)) by (nonlinear_arith) requires b == -a;
    vstd::arithmetic::div_mod::lemma_add_mod_noop(x * a, x * b, 0x1_0000_0000);
}

/// MULS and MULU agree when both words are non-negative as signed words.
pub proof fn lemma_muls_agrees_with_mulu_on_small_words(d: u32, s: u32)
    requires
        d % 0x1_0000 < 0x8000,
        s % 0x1_0000 < 0x8000,
    ensures
        mul_result(false, d, s) == mul_result(true, d, s),
{
    assert(d & 0xFFFF == d % 0x1_0000 && s & 0xFFFF == s % 0x1_0000) by (bit_vector);
    let x = d % 0x1_0000;
    let y = s % 0x1_0000;
    assert(0 <= x * y < 0x4000_0000) by (nonlinear_arith) requires 0 <= x < 0x8000, 0 <= y < 0x8000;
}

} // verus!
