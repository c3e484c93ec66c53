//! CLR, TST, NEG, register shifts and the immediate arithmetic group.
use vstd::prelude::*;
use crate::palm::cpu::ea::{
    lemma_opcode_fields,
    add_mod32, add_signed_u32, ea_ext_words, ext_words_spec, lemma_sign_mask, lemma_nzvc_steps,
    lemma_u16_as_i16, regs, sat_add32, sext16, size_mask, size_sign, step_for, valid_bits,
    with_nzvc, Regs,
};
use crate::palm::cpu::memory::{MemView, MemoryMap};
use crate::palm::cpu::state::{CpuState68k, StopReason};

verus! {

/// N and Z from a result; V and C cleared; X kept.
pub open spec fn nz_flags(sr: u16, n: bool, z: bool) -> u16 {
    with_nzvc(sr, n, z, false, false)
}

/// Condition codes of `dst - src = res` on `bits`-bit operands (X is kept).
pub open spec fn sub_flags(sr: u16, src: u32, dst: u32, res: u32, bits: u32) -> u16 {
    let mask = size_mask(bits);
    let sign = size_sign(bits);
    let s = src & mask;
    let d = dst & mask;
    let r = res & mask;
    with_nzvc(sr, (r & sign) != 0, r == 0, ((d ^ s) & (d ^ r) & sign) != 0, s > d)
}

/// Condition codes of `dst + src = res` on `bits`-bit operands (X is kept).
pub open spec fn add_flags(sr: u16, src: u32, dst: u32, res: u32, bits: u32) -> u16 {
    let mask = size_mask(bits);
    let sign = size_sign(bits);
    let s = src & mask;
    let d = dst & mask;
    let r = res & mask;
    with_nzvc(sr, (r & sign) != 0, r == 0, (!(d ^ s) & (d ^ r) & sign) != 0, d + s > mask)
}

fn set_ccr_nz(state: &mut CpuState68k, negative: bool, zero: bool)
    ensures
        regs(*final(state)) == regs(*old(state)).with_sr(nz_flags(old(state).sr, negative, zero)),
        final(state).call_stack == old(state).call_stack,
{
    proof { lemma_nzvc_steps(state.sr, negative, zero, false, false); }
    state.sr &= !0x000F;
    if negative {
        state.sr |= 0x0008;
    }
    if zero {
        state.sr |= 0x0004;
    }
}

fn set_ccr_sub(state: &mut CpuState68k, src: u32, dst: u32, res: u32, bits: u32)
    requires
        valid_bits(bits),
    ensures
        regs(*final(state)) == regs(*old(state)).with_sr(sub_flags(old(state).sr, src, dst, res, bits)),
        final(state).call_stack == old(state).call_stack,
{
    proof { lemma_sign_mask(bits); }
    let sign = 1u32 << (bits - 1);
    let mask = if bits == 32 {
        u32::MAX
    } else {
        (1u32 << bits) - 1
    };
    let s = src & mask;
    let d = dst & mask;
    let r = res & mask;
    let n = (r & sign) != 0;
    let z = r == 0;
    let v = ((d ^ s) & (d ^ r) & sign) != 0;
    let c = s > d;
    proof { lemma_nzvc_steps(state.sr, n, z, v, c); }
    state.sr &= !0x000F;
    if n {
        state.sr |= 0x0008;
    }
    if z {
        state.sr |= 0x0004;
    }
    if v {
        state.sr |= 0x0002;
    }
    if c {
        state.sr |= 0x0001;
    }
}

fn set_ccr_add(state: &mut CpuState68k, src: u32, dst: u32, res: u32, bits: u32)
    requires
        valid_bits(bits),
    ensures
        regs(*final(state)) == regs(*old(state)).with_sr(add_flags(old(state).sr, src, dst, res, bits)),
        final(state).call_stack == old(state).call_stack,
{
    proof { lemma_sign_mask(bits); }
    let sign = 1u32 << (bits - 1);
    let mask = if bits == 32 {
        u32::MAX
    } else {
        (1u32 << bits) - 1
    };
    let s = src & mask;
    let d = dst & mask;
    let r = res & mask;
    let n = (r & sign) != 0;
    let z = r == 0;
    let v = ((!(d ^ s)) & (d ^ r) & sign) != 0;
    let c = (d as u64 + s as u64) > (mask as u64);
    proof { lemma_nzvc_steps(state.sr, n, z, v, c); }
    state.sr &= !0x000F;
    if n {
        state.sr |= 0x0008;
    }
    if z {
        state.sr |= 0x0004;
    }
    if v {
        state.sr |= 0x0002;
    }
    if c {
        state.sr |= 0x0001;
    }
}


pub open spec fn is_clr_tst(word: u16) -> bool {
    let g = word & 0xFFC0;
    g == 0x4200 || g == 0x4240 || g == 0x4280 || g == 0x4A00 || g == 0x4A40 || g == 0x4A80
}

/// Operand width in bytes of a two-bit size field (0 byte, 1 word, else long).
pub open spec fn size_bytes_of(size: u16) -> u32 {
    if size == 0 { 1 } else if size == 1 { 2 } else { 4 }
}

/// A data register after CLR of the given size.
pub open spec fn clr_reg(d: u32, size: u16) -> u32 {
    if size == 0 { d & 0xFFFF_FF00 } else if size == 1 { d & 0xFFFF_0000 } else { 0 }
}

/// Memory after CLR of the given size at `addr`.
pub open spec fn clr_mem(m: MemView, addr: u32, size: u16) -> MemView {
    if size == 0 { m.write8(addr, 0) } else if size == 1 { m.write16(addr, 0) } else { m.write32(addr, 0) }
}

/// Condition codes of TST on the low `bytes` bytes of `v`.
pub open spec fn tst_flags(sr: u16, v: u32, bytes: u32) -> u16 {
    nz_flags(sr, (v & size_sign((bytes * 8) as u32)) != 0, (v & size_mask((bytes * 8) as u32)) == 0)
}

/// CLR and TST on a data register, `(An)`, `-(An)` and `(d16,An)`; other
/// addressing modes only step over the instruction word.
pub open spec fn clr_tst_spec(word: u16, pc: u32, r: Regs, m: MemView) -> (Result<bool, StopReason>, Regs, MemView) {
    let mode = (word >> 3) & 0x0007;
    let reg = (word & 0x0007) as int;
    let size = (word >> 6) & 0x0003;
    let is_clr = (word & 0xFF00) == 0x4200;
    let bytes = size_bytes_of(size);
    let cleared = nz_flags(r.sr, false, true);
    if !is_clr_tst(word) {
        (Ok(false), r, m)
    } else if mode == 0 {
        if is_clr {
            (Ok(true), r.with_d(reg, clr_reg(r.d[reg], size)).with_sr(cleared).with_pc(sat_add32(pc, 2)), m)
        } else {
            (Ok(true), r.with_sr(tst_flags(r.sr, r.d[reg], bytes)).with_pc(sat_add32(pc, 2)), m)
        }
    } else if mode == 4 {
        if is_clr {
            let addr = r.a[reg].wrapping_sub(step_for(bytes, reg));
            (Ok(true), r.with_a(reg, addr).with_sr(cleared).with_pc(sat_add32(pc, 2)), clr_mem(m, addr, size))
        } else {
            (Ok(true), r.with_pc(sat_add32(pc, 2)), m)
        }
    } else if mode == 2 {
        if is_clr {
            (Ok(true), r.with_sr(cleared).with_pc(sat_add32(pc, 2)), clr_mem(m, r.a[reg], size))
        } else {
            (Ok(true), r.with_pc(sat_add32(pc, 2)), m)
        }
    } else if mode == 5 {
        match m.read16((pc + 2) as u32) {
            None => (Err(StopReason::OutOfBounds { pc }), r, m),
            Some(disp) => {
                let ea = add_mod32(r.a[reg], sext16(disp as int));
                if is_clr {
                    (Ok(true), r.with_sr(cleared).with_pc(sat_add32(pc, 4)), clr_mem(m, ea, size))
                } else {
                    let v = match m.read_sized(ea, bytes) {
                        Some(v) => v,
                        None => 0,
                    };
                    (Ok(true), r.with_sr(tst_flags(r.sr, v, bytes)).with_pc(sat_add32(pc, 4)), m)
                }
            },
        }
    } else {
        (Ok(true), r.with_pc(sat_add32(pc, 2)), m)
    }
}

proof fn lemma_tst_bits(v: u32)
    ensures
        ((((v & 0xFF) as u8) & 0x80) != 0) == ((v & 0x80) != 0),
        (((v & 0xFF) as u8) == 0) == ((v & 0xFF) == 0),
        ((((v & 0xFFFF) as u16) & 0x8000) != 0) == ((v & 0x8000) != 0),
        (((v & 0xFFFF) as u16) == 0) == ((v & 0xFFFF) == 0),
        (v & 0xFFFF_FFFF) == v,
{
    assert(((((v & 0xFF) as u8) & 0x80) != 0) == ((v & 0x80) != 0)) by (bit_vector);
    assert((((v & 0xFF) as u8) == 0) == ((v & 0xFF) == 0)) by (bit_vector);
    assert(((((v & 0xFFFF) as u16) & 0x8000) != 0) == ((v & 0x8000) != 0)) by (bit_vector);
    assert((((v & 0xFFFF) as u16) == 0) == ((v & 0xFFFF) == 0)) by (bit_vector);
    assert((v & 0xFFFF_FFFF) == v) by (bit_vector);
}

proof fn lemma_small_bits(b: u8, w: u16)
    ensures
        (((b as u32) & 0x80) != 0) == ((b & 0x80) != 0),
        (((b as u32) & 0xFF) == 0) == (b == 0),
        (((w as u32) & 0x8000) != 0) == ((w & 0x8000) != 0),
        (((w as u32) & 0xFFFF) == 0) == (w == 0),
{
    assert((((b as u32) & 0x80) != 0) == ((b & 0x80) != 0)) by (bit_vector);
    assert((((b as u32) & 0xFF) == 0) == (b == 0)) by (bit_vector);
    assert((((w as u32) & 0x8000) != 0) == ((w & 0x8000) != 0)) by (bit_vector);
    assert((((w as u32) & 0xFFFF) == 0) == (w == 0)) by (bit_vector);
}

fn execute_clr_tst(
    word: u16,
    pc: u32,
    state: &mut CpuState68k,
    memory: &mut MemoryMap,
) -> (res: Result<bool, StopReason>)
    requires
        (is_clr_tst(word) && (word >> 3) & 0x0007 == 5) ==> pc <= u32::MAX - 2,
    ensures
        (res, regs(*final(state)), final(memory)@) == clr_tst_spec(word, pc, regs(*old(state)), old(memory)@),
        final(state).call_stack == old(state).call_stack,
{
    if (word & 0xFFC0) != 0x4200
        && (word & 0xFFC0) != 0x4240
        && (word & 0xFFC0) != 0x4280
        && (word & 0xFFC0) != 0x4A00
        && (word & 0xFFC0) != 0x4A40
        && (word & 0xFFC0) != 0x4A80
    {
        return Ok(false);
    }

    let mode = (word >> 3) & 0x0007;
    let reg = (word & 0x0007) as usize;
    proof { crate::palm::cpu::ea::lemma_opcode_fields(word); }
    let size_bits = (word >> 6) & 0x0003;
    let is_clr = (word & 0xFF00) == 0x4200;
    let mut instr_len = 2u32;

    if mode == 0 {
        if is_clr {
            match size_bits {
                0 => state.d[reg] &= 0xFFFF_FF00,
                1 => state.d[reg] &= 0xFFFF_0000,
                _ => state.d[reg] = 0,
            }
            set_ccr_nz(state, false, true);
        } else {
            proof { lemma_tst_bits(state.d[reg as int]); }
            match size_bits {
                0 => {
                    let v = (state.d[reg] & 0xFF) as u8;
                    set_ccr_nz(state, (v & 0x80) != 0, v == 0);
                },
                1 => {
                    let v = (state.d[reg] & 0xFFFF) as u16;
                    set_ccr_nz(state, (v & 0x8000) != 0, v == 0);
                },
                _ => {
                    let v = state.d[reg];
                    set_ccr_nz(state, (v & 0x8000_0000) != 0, v == 0);
                },
            }
        }
    } else if mode == 4 {
        let an = reg;
        if is_clr {
            match size_bits {
                0 => {
                    let dec = if an == 7 { 2 } else { 1 };
                    state.a[an] = state.a[an].wrapping_sub(dec);
                    let _ = memory.write_u8(state.a[an], 0);
                },
                1 => {
                    state.a[an] = state.a[an].wrapping_sub(2);
                    let _ = memory.write_u16_be(state.a[an], 0);
                },
                _ => {
                    state.a[an] = state.a[an].wrapping_sub(4);
                    let _ = memory.write_u32_be(state.a[an], 0);
                },
            }
            set_ccr_nz(state, false, true);
        }
    } else if mode == 2 {
        let an = reg;
        if is_clr {
            match size_bits {
                0 => {
                    let _ = memory.write_u8(state.a[an], 0);
                },
                1 => {
                    let _ = memory.write_u16_be(state.a[an], 0);
                },
                _ => {
                    let _ = memory.write_u32_be(state.a[an], 0);
                },
            }
            set_ccr_nz(state, false, true);
        }
    } else if mode == 5 {
        let Some(disp16) = memory.read_u16_be(pc + 2) else {
            return Err(StopReason::OutOfBounds { pc });
        };
        instr_len = 4;
        proof { lemma_u16_as_i16(disp16); }
        let ea = add_signed_u32(state.a[reg], (disp16 as i16) as i32);
        if is_clr {
            match size_bits {
                0 => {
                    let _ = memory.write_u8(ea, 0);
                },
                1 => {
                    let _ = memory.write_u16_be(ea, 0);
                },
                _ => {
                    let _ = memory.write_u32_be(ea, 0);
                },
            }
            set_ccr_nz(state, false, true);
        } else {
            match size_bits {
                0 => {
                    let v = match memory.read_u8(ea) {
                        Some(v) => v,
                        None => 0,
                    };
                    proof { lemma_small_bits(v, 0); }
                    set_ccr_nz(state, (v & 0x80) != 0, v == 0);
                },
                1 => {
                    let v = match memory.read_u16_be(ea) {
                        Some(v) => v,
                        None => 0,
                    };
                    proof { lemma_small_bits(0, v); }
                    set_ccr_nz(state, (v & 0x8000) != 0, v == 0);
                },
                _ => {
                    let v = match memory.read_u32_be(ea) {
                        Some(v) => v,
                        None => 0,
                    };
                    proof { lemma_tst_bits(v); }
                    set_ccr_nz(state, (v & 0x8000_0000) != 0, v == 0);
                },
            }
        }
    }

    state.pc = pc.saturating_add(instr_len);
    Ok(true)
}


/// The condition-code bits of [`with_nzvc`] are the ones asked for, and the
/// rest of the status register is kept.
pub proof fn lemma_with_nzvc_bits(sr: u16, n: bool, z: bool, v: bool, c: bool)
    ensures
        ((with_nzvc(sr, n, z, v, c) & 0x0008) != 0) == n,
        ((with_nzvc(sr, n, z, v, c) & 0x0004) != 0) == z,
        ((with_nzvc(sr, n, z, v, c) & 0x0002) != 0) == v,
        ((with_nzvc(sr, n, z, v, c) & 0x0001) != 0) == c,
        with_nzvc(sr, n, z, v, c) & 0xFFF0 == sr & 0xFFF0,
{
    let n8: u16 = if n { 8u16 } else { 0u16 };
    let z4: u16 = if z { 4u16 } else { 0u16 };
    let v2: u16 = if v { 2u16 } else { 0u16 };
    let c1: u16 = if c { 1u16 } else { 0u16 };
    let f = (sr & 0xFFF0) | n8 | z4 | v2 | c1;
    assert(((f & 0x0008) != 0) == (n8 != 0) && ((f & 0x0004) != 0) == (z4 != 0) && ((f & 0x0002) != 0) == (v2 != 0)
        && ((f & 0x0001) != 0) == (c1 != 0) && f & 0xFFF0 == sr & 0xFFF0) by (bit_vector)
        requires
            f == (sr & 0xFFF0) | n8 | z4 | v2 | c1,
            n8 == 0 || n8 == 8,
            z4 == 0 || z4 == 4,
            v2 == 0 || v2 == 2,
            c1 == 0 || c1 == 1;
}

proof fn lemma_difference_zero(d: u32, s: u32, w: u32)
    by (bit_vector)
    requires
        w == (if d >= s { (d - s) as u32 } else { (d - s + 0x1_0000_0000) as u32 }),
    ensures
        (w & 0xFF == 0) == ((d & 0xFF) == (s & 0xFF)),
        (w & 0xFFFF == 0) == ((d & 0xFFFF) == (s & 0xFFFF)),
        (w & 0xFFFF_FFFF == 0) == ((d & 0xFFFF_FFFF) == (s & 0xFFFF_FFFF)),
{
}

/// The condition codes of a subtraction describe the comparison of its
/// operands: Z is set exactly when they are equal in the operand size, C
/// exactly when the source is the larger as an unsigned number, and the
/// system byte and X are kept.
pub proof fn lemma_sub_flags_compare(sr: u16, src: u32, dst: u32, bits: u32)
    requires
        valid_bits(bits),
    ensures
        ({
            let f = sub_flags(sr, src, dst, dst.wrapping_sub(src), bits);
            let mask = size_mask(bits);
            &&& ((f & 0x0004) != 0) == ((dst & mask) == (src & mask))
            &&& ((f & 0x0001) != 0) == ((src & mask) > (dst & mask))
            &&& f & 0xFFF0 == sr & 0xFFF0
        }),
{
    let mask = size_mask(bits);
    let sign = size_sign(bits);
    let w = dst.wrapping_sub(src);
    let sm = src & mask;
    let dm = dst & mask;
    let rm = w & mask;
    lemma_with_nzvc_bits(sr, (rm & sign) != 0, rm == 0, ((dm ^ sm) & (dm ^ rm) & sign) != 0, sm > dm);
    lemma_difference_zero(dst, src, w);
    if bits == 8 {
        assert(mask == 0xFF);
    } else if bits == 16 {
        assert(mask == 0xFFFF);
    } else {
        assert(mask == 0xFFFF_FFFF);
    }
}

/// The low byte of a data register negated twice is the byte itself; the
/// rest of the register is untouched.
pub proof fn lemma_neg_byte_twice(d: u32)
    ensures
        neg_byte(neg_byte(d)) == d,
{
    let lo = d & 0xFF;
    let n = ((0x100 - lo) % 0x100) as u32;
    let x = (d & 0xFFFF_FF00) | n;
    assert(lo < 0x100 && (d & 0xFFFF_FF00) | lo == d && (n < 0x100 ==> (x & 0xFF == n && x & 0xFFFF_FF00 == d
        & 0xFFFF_FF00))) by (bit_vector)
        requires
            lo == d & 0xFF,
            x == (d & 0xFFFF_FF00) | n;
    assert(((0x100 - n) % 0x100) as u32 == lo);
}

/// NEG applied twice to the same data register gives the register back.
pub proof fn lemma_neg_twice(word: u16, pc: u32, pc2: u32, r: Regs)
    requires
        is_neg(word),
        r.d.len() == 8,
    ensures
        ({
            let (_, r1) = neg_spec(word, pc, r);
            let (_, r2) = neg_spec(word, pc2, r1);
            r2.d == r.d
        }),
{
    let dn = (word & 0x0007) as int;
    lemma_opcode_fields(word);
    lemma_neg_byte_twice(r.d[dn]);
    let (_, r1) = neg_spec(word, pc, r);
    let (_, r2) = neg_spec(word, pc2, r1);
    assert(r2.d =~= r.d);
}

pub open spec fn is_neg(word: u16) -> bool {
    let g = word & 0xFFC0;
    g == 0x4400 || g == 0x4440 || g == 0x4480
}

/// A data register after NEG: every size field selects the low byte, which is
/// replaced by its two's-complement negation.
pub open spec fn neg_byte(d: u32) -> u32 {
    (d & 0xFFFF_FF00) | (((0x100 - (d & 0xFF)) % 0x100) as u32)
}

pub open spec fn neg_spec(word: u16, pc: u32, r: Regs) -> (Result<bool, StopReason>, Regs) {
    let dn = (word & 0x0007) as int;
    if !is_neg(word) {
        (Ok(false), r)
    } else {
        let out = neg_byte(r.d[dn]);
        let nb = out & 0xFF;
        (Ok(true), r.with_d(dn, out).with_sr(nz_flags(r.sr, (nb & 0x80) != 0, nb == 0)).with_pc(sat_add32(pc, 2)))
    }
}

proof fn lemma_neg_decode(word: u16)
    requires
        is_neg(word),
    ensures
        word & 0xFF00 == 0x4400,
{
    let g = word & 0xFFC0;
    assert((g == 0x4400 || g == 0x4440 || g == 0x4480) ==> word & 0xFF00 == 0x4400) by (bit_vector)
        requires g == word & 0xFFC0;
}

proof fn lemma_neg_byte(d: u32, v: u8, r: u8)
    requires
        v == (d & 0xFF) as u8,
        r == (0u8).wrapping_sub(v),
    ensures
        (d & 0xFFFF_FF00) | (r as u32) == neg_byte(d),
        ((r & 0x80) != 0) == ((neg_byte(d) & 0xFF & 0x80) != 0),
        (r == 0) == (neg_byte(d) & 0xFF == 0),
{
    assert((v as int) == (d & 0xFF) as int) by (bit_vector) requires v == (d & 0xFF) as u8;
    assert(r as int == (0x100 - (d & 0xFF)) % 0x100);
    let n = (((0x100 - (d & 0xFF)) % 0x100) as u32);
    assert(n == r as u32);
    assert((((d & 0xFFFF_FF00) | (r as u32)) & 0xFF) == r as u32) by (bit_vector);
}

fn execute_neg(word: u16, pc: u32, state: &mut CpuState68k) -> (res: Result<bool, StopReason>)
    ensures
        (res, regs(*final(state))) == neg_spec(word, pc, regs(*old(state))),
        final(state).call_stack == old(state).call_stack,
{
    if (word & 0xFFC0) != 0x4400 && (word & 0xFFC0) != 0x4440 && (word & 0xFFC0) != 0x4480 {
        return Ok(false);
    }
    proof { lemma_neg_decode(word); }
    let dn = (word & 0x0007) as usize;
    proof { crate::palm::cpu::ea::lemma_opcode_fields(word); }
    match word & 0xFF00 {
        0x4400 => {
            let v = (state.d[dn] & 0xFF) as u8;
            let r = (0u8).wrapping_sub(v);
            proof { lemma_neg_byte(state.d[dn as int], v, r); }
            state.d[dn] = (state.d[dn] & 0xFFFF_FF00) | (r as u32);
            set_ccr_nz(state, (r & 0x80) != 0, r == 0);
        },
        0x4440 => {
            let v = (state.d[dn] & 0xFFFF) as u16;
            let r = (0u16).wrapping_sub(v);
            state.d[dn] = (state.d[dn] & 0xFFFF_0000) | (r as u32);
            set_ccr_nz(state, (r & 0x8000) != 0, r == 0);
        },
        0x4480 => {
            let v = state.d[dn];
            let r = (0u32).wrapping_sub(v);
            state.d[dn] = r;
            set_ccr_nz(state, (r & 0x8000_0000) != 0, r == 0);
        },
        _ => {},
    }
    state.pc = pc.saturating_add(2);
    Ok(true)
}

pub open spec fn is_shift(word: u16) -> bool {
    (word & 0xF000) == 0xE000 && ((word >> 6) & 0x0003) != 0x0003
}

/// Shift count of a register shift: a register's low six bits, or an
/// immediate 1-8.
pub open spec fn shift_count(word: u16, r: Regs) -> u32 {
    let count_src = ((word >> 9) & 0x0007) as int;
    if (word & 0x0020) != 0 {
        r.d[count_src] & 0x3F
    } else if count_src == 0 {
        8
    } else {
        count_src as u32
    }
}

/// The shift the executor would attempt on a 32-bit value by 32 or more,
/// which Rust rejects.
pub open spec fn shift_overflows(word: u16, r: Regs) -> bool {
    is_shift(word) && ((word >> 3) & 0x0003) <= 1 && shift_count(word, r) >= 32
}

/// Result of ASL/ASR (op 0) and LSL/LSR (op 1) on `cur`; rotates (op 2, 3)
/// leave the value as it is.
pub open spec fn shift_value(cur: u32, count: u32, op: u16, left: bool, mask: u32, sign: u32) -> u32 {
    if count == 0 {
        cur
    } else if op == 0 {
        if left {
            (cur << count) & mask
        } else {
            let ext = if (cur & sign) != 0 { cur | !mask } else { cur };
            (#[verifier::truncate] (((#[verifier::truncate] (ext as i32)) >> count) as u32)) & mask
        }
    } else if op == 1 {
        if left { (cur << count) & mask } else { (cur >> count) & mask }
    } else {
        cur
    }
}

pub open spec fn shift_spec(word: u16, pc: u32, r: Regs) -> (Result<bool, StopReason>, Regs) {
    let size = (word >> 6) & 0x0003;
    let dest = (word & 0x0007) as int;
    let bits: u32 = if size == 0 { 8 } else if size == 1 { 16 } else { 32 };
    let mask = size_mask(bits);
    let sign = size_sign(bits);
    let cur = r.d[dest] & mask;
    let out = shift_value(cur, shift_count(word, r), (word >> 3) & 0x0003, (word & 0x0100) != 0, mask, sign);
    let merged = if size == 0 {
        (r.d[dest] & 0xFFFF_FF00) | (out & 0xFF)
    } else if size == 1 {
        (r.d[dest] & 0xFFFF_0000) | (out & 0xFFFF)
    } else {
        out
    };
    if !is_shift(word) {
        (Ok(false), r)
    } else {
        (Ok(true), r.with_d(dest, merged).with_sr(nz_flags(r.sr, (out & sign) != 0, out == 0)).with_pc(sat_add32(pc, 2)))
    }
}

fn execute_shift(word: u16, pc: u32, state: &mut CpuState68k) -> (res: Result<bool, StopReason>)
    requires
        !shift_overflows(word, regs(*old(state))),
    ensures
        (res, regs(*final(state))) == shift_spec(word, pc, regs(*old(state))),
        final(state).call_stack == old(state).call_stack,
{
    if (word & 0xF000) != 0xE000 {
        return Ok(false);
    }
    let size_bits = (word >> 6) & 0x0003;
    proof { crate::palm::cpu::ea::lemma_opcode_fields(word); }
    if size_bits == 0x0003 {
        return Ok(false);
    }

    let ir = (word & 0x0020) != 0;
    let op = (word >> 3) & 0x0003;
    let left = (word & 0x0100) != 0;
    let dest = (word & 0x0007) as usize;
    let count_src = ((word >> 9) & 0x0007) as usize;
    let mut count = if ir {
        (state.d[count_src] & 0x3F) as u32
    } else {
        let c = count_src as u32;
        if c == 0 { 8 } else { c }
    };
    let (mask, sign_bit, width) = match size_bits {
        0 => (0xFFu32, 0x80u32, 8u32),
        1 => (0xFFFFu32, 0x8000u32, 16u32),
        2 => (0xFFFF_FFFFu32, 0x8000_0000u32, 32u32),
        _ => (0, 0, 0),
    };
    if width == 0 {
        return Ok(false);
    }

    proof {
        let cv = state.d[count_src as int];
        assert((cv & 0x3F) < 64) by (bit_vector);
    }
    count %= 64;
    let cur = match size_bits {
        0 => state.d[dest] & 0xFF,
        1 => state.d[dest] & 0xFFFF,
        _ => {
            let v = state.d[dest];
            assert(v & 0xFFFF_FFFF == v) by (bit_vector);
            v
        },
    };
    let mut out = cur;
    if count != 0 {
        out = match op {
            0 => {
                if left {
                    (cur << count) & mask
                } else {
                    let ext = if (cur & sign_bit) != 0 { cur | (!mask) } else { cur };
                    (#[verifier::truncate] (((#[verifier::truncate] (ext as i32)) >> count) as u32)) & mask
                }
            },
            1 => {
                if left {
                    (cur << count) & mask
                } else {
                    (cur >> count) & mask
                }
            },
            _ => cur,
        };
    }

    match size_bits {
        0 => state.d[dest] = (state.d[dest] & 0xFFFF_FF00) | (out & 0xFF),
        1 => state.d[dest] = (state.d[dest] & 0xFFFF_0000) | (out & 0xFFFF),
        _ => state.d[dest] = out,
    }
    set_ccr_nz(state, (out & sign_bit) != 0, out == 0);
    state.pc = pc.saturating_add(2);
    Ok(true)
}


/// Opcode groups of the immediate family: ORI, ANDI, SUBI, ADDI, EORI, CMPI.
pub open spec fn is_imm_base(base: u16) -> bool {
    base == 0x0000 || base == 0x0200 || base == 0x0400 || base == 0x0600 || base == 0x0A00 || base == 0x0C00
}

/// Operand bytes of an immediate instruction's size field (3 reads as a word).
pub open spec fn imm_size_bytes(size: u16) -> u32 {
    if size == 0 { 1 } else if size == 2 { 4 } else { 2 }
}

/// The immediate operand and the extension pointer after it.
pub open spec fn fetch_imm_spec(m: MemView, ext_pc: u32, size_bytes: u32) -> Option<(u32, u32)> {
    if size_bytes == 1 {
        match m.read16(ext_pc) {
            Some(v) => Some(((v & 0x00FF) as u32, sat_add32(ext_pc, 2))),
            None => None,
        }
    } else if size_bytes == 2 {
        match m.read16(ext_pc) {
            Some(v) => Some((v as u32, sat_add32(ext_pc, 2))),
            None => None,
        }
    } else {
        match m.read32(ext_pc) {
            Some(v) => Some((v, sat_add32(ext_pc, 4))),
            None => None,
        }
    }
}

fn fetch_imm(memory: &MemoryMap, ext_pc: u32, size_bytes: u32) -> (r: Option<(u32, u32)>)
    ensures
        r == fetch_imm_spec(memory@, ext_pc, size_bytes),
{
    if size_bytes == 1 {
        match memory.read_u16_be(ext_pc) {
            Some(v) => Some(((v & 0x00FF) as u32, ext_pc.saturating_add(2))),
            None => None,
        }
    } else if size_bytes == 2 {
        match memory.read_u16_be(ext_pc) {
            Some(v) => Some((v as u32, ext_pc.saturating_add(2))),
            None => None,
        }
    } else {
        match memory.read_u32_be(ext_pc) {
            Some(v) => Some((v, ext_pc.saturating_add(4))),
            None => None,
        }
    }
}

/// The destination operand of CMPI: registers and extension pointer after
/// the fetch and the operand (`None` for undecoded modes), or `Err` when an
/// extension word is not mapped.
pub open spec fn compare_dst_spec(r: Regs, m: MemView, mode: u16, reg: int, ext_pc: u32, size_bytes: u32)
    -> Result<(Regs, u32, Option<u32>), ()>
{
    if mode == 0 {
        Ok((r, ext_pc, Some(r.d[reg])))
    } else if mode == 1 {
        Ok((r, ext_pc, Some(r.a[reg])))
    } else if mode == 2 {
        Ok((r, ext_pc, m.read_sized(r.a[reg], size_bytes)))
    } else if mode == 3 {
        Ok((r.with_a(reg, r.a[reg].wrapping_add(step_for(size_bytes, reg))), ext_pc, m.read_sized(r.a[reg], size_bytes)))
    } else if mode == 4 {
        let addr = r.a[reg].wrapping_sub(step_for(size_bytes, reg));
        Ok((r.with_a(reg, addr), ext_pc, m.read_sized(addr, size_bytes)))
    } else if mode == 5 {
        match m.read16(ext_pc) {
            None => Err(()),
            Some(w) => Ok((r, sat_add32(ext_pc, 2), m.read_sized(add_mod32(r.a[reg], sext16(w as int)), size_bytes))),
        }
    } else if mode == 7 && reg == 0 {
        match m.read16(ext_pc) {
            None => Err(()),
            Some(w) => Ok((r, sat_add32(ext_pc, 2), m.read_sized(add_mod32(0, sext16(w as int)), size_bytes))),
        }
    } else if mode == 7 && reg == 1 {
        match m.read32(ext_pc) {
            None => Err(()),
            Some(al) => Ok((r, sat_add32(ext_pc, 4), m.read_sized(al, size_bytes))),
        }
    } else {
        Ok((r, ext_pc, None))
    }
}

/// CMPI #imm,<ea>: compares and sets N Z V C from `<ea> - imm`.
pub open spec fn compare_imm_spec(word: u16, pc: u32, r: Regs, m: MemView) -> (Result<bool, StopReason>, Regs, MemView) {
    let size_bytes = imm_size_bytes((word >> 6) & 0x0003);
    let mode = (word >> 3) & 0x0007;
    let reg = (word & 0x0007) as int;
    match fetch_imm_spec(m, sat_add32(pc, 2), size_bytes) {
        None => (Err(StopReason::OutOfBounds { pc }), r, m),
        Some((imm, ext_pc)) => match compare_dst_spec(r, m, mode, reg, ext_pc, size_bytes) {
            Err(_) => (Err(StopReason::OutOfBounds { pc }), r, m),
            Ok((r2, ext_pc2, dst)) => {
                let bits = size_bytes * 8;
                let mask = size_mask(bits as u32);
                let r3 = match dst {
                    Some(dst_raw) => {
                        let imm_v = if bits == 32 { imm } else { imm & mask };
                        let dst_v = if bits == 32 { dst_raw } else { dst_raw & mask };
                        r2.with_sr(sub_flags(r2.sr, imm_v, dst_v, dst_v.wrapping_sub(imm_v), bits as u32))
                    },
                    None => r2,
                };
                (Ok(true), r3.with_pc(ext_pc2), m)
            },
        },
    }
}

fn execute_compare_imm(
    word: u16,
    pc: u32,
    state: &mut CpuState68k,
    memory: &MemoryMap,
) -> (res: Result<bool, StopReason>)
    ensures
        (res, regs(*final(state)), memory@) == compare_imm_spec(word, pc, regs(*old(state)), memory@),
        final(state).call_stack == old(state).call_stack,
{
    let size_bits = (word >> 6) & 0x0003;
    let mode = (word >> 3) & 0x0007;
    let reg = word & 0x0007;
    proof { crate::palm::cpu::ea::lemma_opcode_fields(word); }
    let size_bytes = match size_bits {
        0 => 1u32,
        2 => 4u32,
        _ => 2u32,
    };
    let Some((imm, mut ext_pc)) = fetch_imm(memory, pc.saturating_add(2), size_bytes) else {
        return Err(StopReason::OutOfBounds { pc });
    };
    let an = reg as usize;
    let dst = if mode == 0 {
        Some(state.d[an])
    } else if mode == 1 {
        Some(state.a[an])
    } else if mode == 2 {
        crate::palm::cpu::ea::read_sized(memory, state.a[an], size_bytes)
    } else if mode == 3 {
        let addr = state.a[an];
        let v = crate::palm::cpu::ea::read_sized(memory, addr, size_bytes);
        let inc = if size_bytes == 1 && an == 7 { 2 } else { size_bytes };
        state.a[an] = state.a[an].wrapping_add(inc);
        v
    } else if mode == 4 {
        let dec = if size_bytes == 1 && an == 7 { 2 } else { size_bytes };
        state.a[an] = state.a[an].wrapping_sub(dec);
        crate::palm::cpu::ea::read_sized(memory, state.a[an], size_bytes)
    } else if mode == 5 {
        let disp_w = match memory.read_u16_be(ext_pc) {
            Some(v) => v,
            None => return Err(StopReason::OutOfBounds { pc }),
        };
        ext_pc = ext_pc.saturating_add(2);
        proof { lemma_u16_as_i16(disp_w); }
        let addr = add_signed_u32(state.a[an], disp_w as i16 as i32);
        crate::palm::cpu::ea::read_sized(memory, addr, size_bytes)
    } else if mode == 7 && reg == 0 {
        let aw_w = match memory.read_u16_be(ext_pc) {
            Some(v) => v,
            None => return Err(StopReason::OutOfBounds { pc }),
        };
        ext_pc = ext_pc.saturating_add(2);
        proof { lemma_u16_as_i16(aw_w); crate::palm::cpu::ea::lemma_i32_as_u32(aw_w as i16 as i32); }
        let addr = (aw_w as i16 as i32) as u32;
        crate::palm::cpu::ea::read_sized(memory, addr, size_bytes)
    } else if mode == 7 && reg == 1 {
        let addr = match memory.read_u32_be(ext_pc) {
            Some(v) => v,
            None => return Err(StopReason::OutOfBounds { pc }),
        };
        ext_pc = ext_pc.saturating_add(4);
        crate::palm::cpu::ea::read_sized(memory, addr, size_bytes)
    } else {
        None
    };
    if let Some(dst_raw) = dst {
        let (imm_v, dst_v, bits) = match size_bytes {
            1 => (imm & 0xFF, dst_raw & 0xFF, 8u32),
            2 => (imm & 0xFFFF, dst_raw & 0xFFFF, 16u32),
            _ => (imm, dst_raw, 32u32),
        };
        let res = dst_v.wrapping_sub(imm_v);
        set_ccr_sub(state, imm_v, dst_v, res, bits);
    }
    state.pc = ext_pc;
    Ok(true)
}


/// ORI/ANDI/SUBI/ADDI/EORI on `bits`-bit operands `c` (destination) and `i`.
pub open spec fn imm_op(base: u16, c: u32, i: u32, bits: u32) -> u32 {
    let mask = size_mask(bits);
    if base == 0x0000 {
        c | i
    } else if base == 0x0200 {
        c & i
    } else if base == 0x0400 {
        if bits == 32 { c.wrapping_sub(i) } else { c.wrapping_sub(i) & mask }
    } else if base == 0x0600 {
        if bits == 32 { c.wrapping_add(i) } else { c.wrapping_add(i) & mask }
    } else if base == 0x0A00 {
        c ^ i
    } else {
        c
    }
}

/// Condition codes of an immediate operation: SUBI and ADDI set all four,
/// the logical ones set N and Z from the result.
pub open spec fn imm_flags(sr: u16, base: u16, i: u32, c: u32, out: u32, bits: u32) -> u16 {
    if base == 0x0400 {
        sub_flags(sr, i, c, out, bits)
    } else if base == 0x0600 {
        add_flags(sr, i, c, out, bits)
    } else {
        nz_flags(sr, (out & size_sign(bits)) != 0, out == 0)
    }
}

/// `op #imm,(An)` for ORI/ANDI/SUBI/ADDI/EORI.
pub open spec fn mem_imm_spec(word: u16, pc: u32, r: Regs, m: MemView) -> (Result<bool, StopReason>, Regs, MemView) {
    let base = word & 0xFF00;
    let size_bytes = imm_size_bytes((word >> 6) & 0x0003);
    let reg = (word & 0x0007) as int;
    let bits = (size_bytes * 8) as u32;
    let mask = size_mask(bits);
    match fetch_imm_spec(m, sat_add32(pc, 2), size_bytes) {
        None => (Err(StopReason::OutOfBounds { pc }), r, m),
        Some((imm, ext_pc)) => match m.read_sized(r.a[reg], size_bytes) {
            None => (Err(StopReason::OutOfBounds { pc }), r, m),
            Some(cur) => {
                let i = if bits == 32 { imm } else { imm & mask };
                let c = if bits == 32 { cur } else { cur & mask };
                let out = imm_op(base, c, i, bits);
                (
                    Ok(true),
                    r.with_sr(imm_flags(r.sr, base, i, c, out, bits)).with_pc(ext_pc),
                    m.write_sized(r.a[reg], size_bytes, out),
                )
            },
        },
    }
}

fn execute_mem_imm(
    word: u16,
    pc: u32,
    state: &mut CpuState68k,
    memory: &mut MemoryMap,
) -> (res: Result<bool, StopReason>)
    ensures
        (res, regs(*final(state)), final(memory)@) == mem_imm_spec(word, pc, regs(*old(state)), old(memory)@),
        final(state).call_stack == old(state).call_stack,
{
    let base = word & 0xFF00;
    let size_bits = (word >> 6) & 0x0003;
    let reg = (word & 0x0007) as usize;
    proof { crate::palm::cpu::ea::lemma_opcode_fields(word); }
    let size_bytes = match size_bits {
        0 => 1u32,
        2 => 4u32,
        _ => 2u32,
    };
    let Some((imm, ext_pc)) = fetch_imm(memory, pc.saturating_add(2), size_bytes) else {
        return Err(StopReason::OutOfBounds { pc });
    };
    let addr = state.a[reg];
    let Some(cur) = crate::palm::cpu::ea::read_sized(memory, addr, size_bytes) else {
        return Err(StopReason::OutOfBounds { pc });
    };
    let (imm_v, cur_v, bits, out) = match size_bytes {
        1 => {
            let i = imm & 0xFF;
            let c = cur & 0xFF;
            let o = match base {
                0x0000 => c | i,
                0x0200 => c & i,
                0x0400 => c.wrapping_sub(i) & 0xFF,
                0x0600 => c.wrapping_add(i) & 0xFF,
                0x0A00 => c ^ i,
                _ => c,
            };
            (i, c, 8u32, o)
        },
        2 => {
            let i = imm & 0xFFFF;
            let c = cur & 0xFFFF;
            let o = match base {
                0x0000 => c | i,
                0x0200 => c & i,
                0x0400 => c.wrapping_sub(i) & 0xFFFF,
                0x0600 => c.wrapping_add(i) & 0xFFFF,
                0x0A00 => c ^ i,
                _ => c,
            };
            (i, c, 16u32, o)
        },
        _ => {
            let i = imm;
            let c = cur;
            let o = match base {
                0x0000 => c | i,
                0x0200 => c & i,
                0x0400 => c.wrapping_sub(i),
                0x0600 => c.wrapping_add(i),
                0x0A00 => c ^ i,
                _ => c,
            };
            (i, c, 32u32, o)
        },
    };
    crate::palm::cpu::ea::write_sized(memory, addr, size_bytes, out);
    match base {
        0x0400 => set_ccr_sub(state, imm_v, cur_v, out, bits),
        0x0600 => set_ccr_add(state, imm_v, cur_v, out, bits),
        _ => {
            let sign = if bits == 8 {
                (out & 0x80) != 0
            } else if bits == 16 {
                (out & 0x8000) != 0
            } else {
                (out & 0x8000_0000) != 0
            };
            set_ccr_nz(state, sign, out == 0);
        },
    }
    state.pc = ext_pc;
    Ok(true)
}


/// ORI, SUBI, ADDI and EORI update a data register directly.
pub open spec fn is_reg_imm_op(base: u16) -> bool {
    base == 0x0000 || base == 0x0400 || base == 0x0600 || base == 0x0A00
}

pub open spec fn reg_imm_byte(base: u16, cur: u8, imm: u8) -> u8 {
    if base == 0x0000 {
        cur | imm
    } else if base == 0x0400 {
        cur.wrapping_sub(imm)
    } else if base == 0x0600 {
        cur.wrapping_add(imm)
    } else if base == 0x0A00 {
        cur ^ imm
    } else {
        cur
    }
}

pub open spec fn reg_imm_word(base: u16, cur: u16, imm: u16) -> u16 {
    if base == 0x0000 {
        cur | imm
    } else if base == 0x0400 {
        cur.wrapping_sub(imm)
    } else if base == 0x0600 {
        cur.wrapping_add(imm)
    } else if base == 0x0A00 {
        cur ^ imm
    } else {
        cur
    }
}

pub open spec fn reg_imm_long(base: u16, cur: u32, imm: u32) -> u32 {
    if base == 0x0000 {
        cur | imm
    } else if base == 0x0400 {
        cur.wrapping_sub(imm)
    } else if base == 0x0600 {
        cur.wrapping_add(imm)
    } else if base == 0x0A00 {
        cur ^ imm
    } else {
        cur
    }
}

/// `op #imm,Dn` for ORI/SUBI/ADDI/EORI; a missing immediate leaves the
/// registers as they are.
pub open spec fn reg_imm_spec(word: u16, pc: u32, r: Regs, m: MemView) -> Regs {
    let base = word & 0xFF00;
    let size = (word >> 6) & 0x0003;
    let dn = (word & 0x0007) as int;
    let d = r.d[dn];
    if size == 2 {
        match m.read32((pc + 2) as u32) {
            None => r,
            Some(imm) => {
                let out = reg_imm_long(base, d, imm);
                if !is_reg_imm_op(base) {
                    r
                } else {
                    r.with_d(dn, out).with_sr(imm_flags(r.sr, base, imm, d, out, 32))
                }
            },
        }
    } else {
        match m.read16((pc + 2) as u32) {
            None => r,
            Some(immw) => if !is_reg_imm_op(base) {
                r
            } else if size == 0 {
                let cur = (d & 0xFF) as u8;
                let imm = (immw & 0x00FF) as u8;
                let out = reg_imm_byte(base, cur, imm);
                r.with_d(dn, (d & 0xFFFF_FF00) | (out as u32)).with_sr(
                    imm_flags(r.sr, base, imm as u32, cur as u32, out as u32, 8),
                )
            } else {
                let cur = (d & 0xFFFF) as u16;
                let out = reg_imm_word(base, cur, immw);
                r.with_d(dn, (d & 0xFFFF_0000) | (out as u32)).with_sr(
                    imm_flags(r.sr, base, immw as u32, cur as u32, out as u32, 16),
                )
            },
        }
    }
}

/// ANDI #imm,Dn: byte and word sizes both AND the low word; long ANDs the
/// whole register.
pub open spec fn andi_reg_spec(word: u16, pc: u32, r: Regs, m: MemView) -> Result<Regs, StopReason> {
    let size = (word >> 6) & 0x0003;
    let dn = (word & 0x0007) as int;
    let d = r.d[dn];
    if size == 2 {
        match m.read32((pc + 2) as u32) {
            None => Err(StopReason::OutOfBounds { pc }),
            Some(imm) => {
                let val = d & imm;
                Ok(r.with_d(dn, val).with_sr(nz_flags(r.sr, (val & 0x8000_0000) != 0, val == 0)))
            },
        }
    } else {
        match m.read16((pc + 2) as u32) {
            None => Err(StopReason::OutOfBounds { pc }),
            Some(imm) => {
                let val = (d as u16) & imm;
                Ok(r.with_d(dn, (d & 0xFFFF_0000) | (val as u32)).with_sr(nz_flags(r.sr, (val & 0x8000) != 0, val == 0)))
            },
        }
    }
}

/// The immediate family: CMPI on any decoded mode, the other operations on
/// `(An)` and on data registers; other addressing modes only step over the
/// instruction and its extension words.
pub open spec fn imm_spec(word: u16, pc: u32, r: Regs, m: MemView) -> (Result<bool, StopReason>, Regs, MemView) {
    let base = word & 0xFF00;
    let size = (word >> 6) & 0x0003;
    let mode = (word >> 3) & 0x0007;
    let reg = word & 0x0007;
    let imm_words: u32 = if size == 2 { 2 } else { 1 };
    if !is_imm_base(base) {
        (Ok(false), r, m)
    } else if base == 0x0C00 {
        compare_imm_spec(word, pc, r, m)
    } else if mode == 2 {
        mem_imm_spec(word, pc, r, m)
    } else {
        let r1 = if mode == 0 { reg_imm_spec(word, pc, r, m) } else { r };
        let r2 = if base == 0x0200 && mode == 0 { andi_reg_spec(word, pc, r1, m) } else { Ok(r1) };
        match r2 {
            Err(e) => (Err(e), r1, m),
            Ok(r2) => match ext_words_spec(mode, reg) {
                Some(w) => (Ok(true), r2.with_pc(sat_add32(pc, (2 + imm_words * 2 + w * 2) as u32)), m),
                None => (Ok(false), r2, m),
            },
        }
    }
}

/// Whether `word` is ORI/ANDI/SUBI/ADDI/EORI to a data register, whose
/// immediate follows the opcode.
pub open spec fn reg_imm_reads_ext(word: u16) -> bool {
    let base = word & 0xFF00;
    is_imm_base(base) && base != 0x0C00 && (word >> 3) & 0x0007 == 0
}

/// Whether `word` takes the word after it directly: CLR/TST on `d16(An)`
/// or an immediate to a data register.
pub open spec fn alu_reads_ext(word: u16) -> bool {
    (is_clr_tst(word) && (word >> 3) & 0x0007 == 5) || reg_imm_reads_ext(word)
}

fn execute_immediate(
    word: u16,
    pc: u32,
    state: &mut CpuState68k,
    memory: &mut MemoryMap,
) -> (res: Result<bool, StopReason>)
    requires
        reg_imm_reads_ext(word) ==> pc <= u32::MAX - 2,
    ensures
        (res, regs(*final(state)), final(memory)@) == imm_spec(word, pc, regs(*old(state)), old(memory)@),
        final(state).call_stack == old(state).call_stack,
{
    let base = word & 0xFF00;
    let is_imm_op = match base {
        0x0000 | 0x0200 | 0x0400 | 0x0600 | 0x0A00 | 0x0C00 => true,
        _ => false,
    };
    if !is_imm_op {
        return Ok(false);
    }

    let size_bits = (word >> 6) & 0x0003;
    proof { crate::palm::cpu::ea::lemma_opcode_fields(word); }
    let imm_words: u32 = match size_bits {
        0 | 1 => 1,
        2 => 2,
        _ => 1,
    };

    let mode = (word >> 3) & 0x0007;
    let reg = word & 0x0007;

    if base == 0x0C00 {
        // CMPI #imm,<ea>: compute <ea> - imm and set CCR.
        return execute_compare_imm(word, pc, state, memory);
    }

    // Execute immediate ops to memory for simple address-indirect forms.
    // ROM apps use `ADDI.L #imm,(A7)` in the code#1 startup veneer.
    if mode == 2 {
        return execute_mem_imm(word, pc, state, memory);
    }

    if mode == 0 {
        // Register-immediate ops on Dn used heavily by app logic.
        let dn = reg as usize;
        if size_bits == 2 {
            if let Some(imm) = memory.read_u32_be(pc + 2) {
                let cur = state.d[dn];
                let out = match base {
                    0x0000 => cur | imm,
                    0x0400 => cur.wrapping_sub(imm),
                    0x0600 => cur.wrapping_add(imm),
                    0x0A00 => cur ^ imm,
                    _ => cur,
                };
                if base == 0x0000 || base == 0x0400 || base == 0x0600 || base == 0x0A00 {
                    state.d[dn] = out;
                    match base {
                        0x0400 => set_ccr_sub(state, imm, cur, out, 32),
                        0x0600 => set_ccr_add(state, imm, cur, out, 32),
                        _ => set_ccr_nz(state, (out & 0x8000_0000) != 0, out == 0),
                    }
                }
            }
        } else if let Some(immw) = memory.read_u16_be(pc + 2) {
            match size_bits {
                0 => {
                    let cur = (state.d[dn] & 0xFF) as u8;
                    let imm = (immw & 0x00FF) as u8;
                    let out = match base {
                        0x0000 => cur | imm,
                        0x0400 => cur.wrapping_sub(imm),
                        0x0600 => cur.wrapping_add(imm),
                        0x0A00 => cur ^ imm,
                        _ => cur,
                    };
                    if base == 0x0000 || base == 0x0400 || base == 0x0600 || base == 0x0A00 {
                        state.d[dn] = (state.d[dn] & 0xFFFF_FF00) | (out as u32);
                        match base {
                            0x0400 => set_ccr_sub(state, imm as u32, cur as u32, out as u32, 8),
                            0x0600 => set_ccr_add(state, imm as u32, cur as u32, out as u32, 8),
                            _ => {
                                proof { lemma_small_bits(out, 0); }
                                set_ccr_nz(state, (out & 0x80) != 0, out == 0)
                            },
                        }
                    }
                },
                _ => {
                    let cur = (state.d[dn] & 0xFFFF) as u16;
                    let imm = immw;
                    let out = match base {
                        0x0000 => cur | imm,
                        0x0400 => cur.wrapping_sub(imm),
                        0x0600 => cur.wrapping_add(imm),
                        0x0A00 => cur ^ imm,
                        _ => cur,
                    };
                    if base == 0x0000 || base == 0x0400 || base == 0x0600 || base == 0x0A00 {
                        state.d[dn] = (state.d[dn] & 0xFFFF_0000) | (out as u32);
                        match base {
                            0x0400 => set_ccr_sub(state, imm as u32, cur as u32, out as u32, 16),
                            0x0600 => set_ccr_add(state, imm as u32, cur as u32, out as u32, 16),
                            _ => {
                                proof { lemma_small_bits(0, out); }
                                set_ccr_nz(state, (out & 0x8000) != 0, out == 0)
                            },
                        }
                    }
                },
            }
        }
    }

    // Minimal execution semantics for ANDI to Dn (used in Noah loop).
    if base == 0x0200 && mode == 0 {
        let dn = reg as usize;
        match size_bits {
            2 => {
                let Some(imm) = memory.read_u32_be(pc + 2) else {
                    return Err(StopReason::OutOfBounds { pc });
                };
                let val = state.d[dn] & imm;
                state.d[dn] = val;
                set_ccr_nz(state, (val & 0x8000_0000) != 0, val == 0);
            },
            _ => {
                let Some(imm) = memory.read_u16_be(pc + 2) else {
                    return Err(StopReason::OutOfBounds { pc });
                };
                let val = (state.d[dn] as u16) & imm;
                state.d[dn] = (state.d[dn] & 0xFFFF_0000) | (val as u32);
                set_ccr_nz(state, (val & 0x8000) != 0, val == 0);
            },
        }
    }

    if let Some(ea_words) = ea_ext_words(mode, reg) {
        let bytes = 2 + (imm_words * 2) + (ea_words * 2);
        state.pc = pc.saturating_add(bytes);
        return Ok(true);
    }

    Ok(false)
}


/// CLR/TST, NEG, register shifts and the immediate family, tried in that
/// order; the first group that claims the word decides the outcome.
pub open spec fn alu_spec(word: u16, pc: u32, r: Regs, m: MemView) -> (Result<bool, StopReason>, Regs, MemView) {
    let (res1, r1, m1) = clr_tst_spec(word, pc, r, m);
    if res1 != Ok::<bool, StopReason>(false) {
        (res1, r1, m1)
    } else {
        let (res2, r2) = neg_spec(word, pc, r1);
        if res2 != Ok::<bool, StopReason>(false) {
            (res2, r2, m1)
        } else {
            let (res3, r3) = shift_spec(word, pc, r2);
            if res3 != Ok::<bool, StopReason>(false) {
                (res3, r3, m1)
            } else {
                imm_spec(word, pc, r3, m1)
            }
        }
    }
}

/// Runs `word` at `pc` when it is one of CLR, TST, NEG, ASx/LSx on a data
/// register, or ORI/ANDI/SUBI/ADDI/EORI/CMPI.
pub fn execute(
    word: u16,
    pc: u32,
    state: &mut CpuState68k,
    memory: &mut MemoryMap,
) -> (res: Result<bool, StopReason>)
    requires
        alu_reads_ext(word) ==> pc <= u32::MAX - 2,
        !shift_overflows(word, regs(*old(state))),
    ensures
        (res, regs(*final(state)), final(memory)@) == alu_spec(word, pc, regs(*old(state)), old(memory)@),
        final(state).call_stack == old(state).call_stack,
{
    if execute_clr_tst(word, pc, state, memory)? {
        return Ok(true);
    }
    if execute_neg(word, pc, state)? {
        return Ok(true);
    }
    if execute_shift(word, pc, state)? {
        return Ok(true);
    }
    if execute_immediate(word, pc, state, memory)? {
        return Ok(true);
    }
    Ok(false)
}

} // verus!
