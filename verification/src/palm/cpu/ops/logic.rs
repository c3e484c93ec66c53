//! OR, AND, EOR, the static bit operations and MOVEP.
use vstd::prelude::*;
use crate::palm::cpu::ea::{
    add_mod32, add_signed_u32, ea_ext_words, ea_read, ea_write, ext_words_spec, lemma_u16_as_i16,
    logic_flags, read_ea, regs, sat_add32, set_logic_flags, sext16, size_mask, write_ea, EaKind,
    Regs,
};
use crate::palm::cpu::memory::{MemView, MemoryMap};
use crate::palm::cpu::state::{CpuState68k, StopReason};

verus! {

/// Operand size in bytes and direction (`true`: `<ea>` into `Dn`) of an
/// OR/AND opmode field.
pub open spec fn or_and_size(opmode: u16) -> Option<(u32, bool)> {
    if opmode == 0 {
        Some((1, true))
    } else if opmode == 1 {
        Some((2, true))
    } else if opmode == 2 {
        Some((4, true))
    } else if opmode == 4 {
        Some((1, false))
    } else if opmode == 5 {
        Some((2, false))
    } else if opmode == 6 {
        Some((4, false))
    } else {
        None
    }
}

/// OR (`0x8xxx`) and AND (`0xCxxx`) between a data register and an operand.
pub open spec fn or_and_spec(word: u16, pc: u32, r: Regs, m: MemView) -> (Result<bool, StopReason>, Regs, MemView) {
    let top = word & 0xF000;
    let dn = ((word >> 9) & 0x0007) as int;
    let mode = (word >> 3) & 0x0007;
    let reg = (word & 0x0007) as int;
    let start = sat_add32(pc, 2);
    if top != 0x8000 && top != 0xC000 {
        (Ok(false), r, m)
    } else {
        match or_and_size((word >> 6) & 0x0007) {
            None => (Ok(false), r, m),
            Some((size_bytes, ea_to_dn)) => {
                let mask = size_mask((size_bytes * 8) as u32);
                let (r1, ext_pc, v) = ea_read(r, m, mode, reg, start, size_bytes, start, EaKind::Data);
                match v {
                    None => (Err(StopReason::OutOfBounds { pc }), r1, m),
                    Some(raw) => {
                        let a = raw & mask;
                        let b = r1.d[dn] & mask;
                        let out = if top == 0x8000 { b | a } else { b & a };
                        if ea_to_dn {
                            let d = r1.d[dn];
                            let merged = if size_bytes == 1 {
                                (d & 0xFFFF_FF00) | out
                            } else if size_bytes == 2 {
                                (d & 0xFFFF_0000) | out
                            } else {
                                out
                            };
                            let r2 = r1.with_d(dn, merged);
                            (Ok(true), r2.with_sr(logic_flags(r2.sr, out, (size_bytes * 8) as u32)).with_pc(ext_pc), m)
                        } else {
                            let out = if top == 0x8000 { a | b } else { a & b };
                            let (r2, m2, _, ok) = ea_write(r1, m, mode, reg, start, size_bytes, out, false);
                            if !ok {
                                (Err(StopReason::OutOfBounds { pc }), r2, m2)
                            } else {
                                (Ok(true), r2.with_sr(logic_flags(r2.sr, out, (size_bytes * 8) as u32)).with_pc(ext_pc), m2)
                            }
                        }
                    },
                }
            },
        }
    }
}

#[verifier::rlimit(40)]
#[verifier::spinoff_prover]
fn execute_or_and(
    word: u16,
    pc: u32,
    state: &mut CpuState68k,
    memory: &mut MemoryMap,
) -> (res: Result<bool, StopReason>)
    ensures
        (res, regs(*final(state)), final(memory)@) == or_and_spec(word, pc, regs(*old(state)), old(memory)@),
        final(state).call_stack == old(state).call_stack,
{
    let top = word & 0xF000;
    if top != 0x8000 && top != 0xC000 {
        return Ok(false);
    }
    let opmode = (word >> 6) & 0x0007;
    let dn = ((word >> 9) & 0x0007) as usize;
    let mode = (word >> 3) & 0x0007;
    let reg = (word & 0x0007) as usize;
    proof { crate::palm::cpu::ea::lemma_opcode_fields(word); }

    let (size_bytes, ea_to_dn) = match opmode {
        0 => (1u32, true),
        1 => (2u32, true),
        2 => (4u32, true),
        4 => (1u32, false),
        5 => (2u32, false),
        6 => (4u32, false),
        _ => return Ok(false),
    };
    let mask = if size_bytes == 4 {
        u32::MAX
    } else {
        proof { crate::palm::cpu::ea::lemma_operand_bits(); }
        (1u32 << (size_bytes * 8)) - 1
    };

    if ea_to_dn {
        let mut ext_pc = pc.saturating_add(2);
        let Some(src_raw) =
            read_ea(state, memory, mode, reg, &mut ext_pc, size_bytes, pc.saturating_add(2), EaKind::Data)
        else {
            return Err(StopReason::OutOfBounds { pc });
        };
        let src = src_raw & mask;
        let dst = state.d[dn] & mask;
        let out = if top == 0x8000 { dst | src } else { dst & src };
        match size_bytes {
            1 => state.d[dn] = (state.d[dn] & 0xFFFF_FF00) | out,
            2 => state.d[dn] = (state.d[dn] & 0xFFFF_0000) | out,
            _ => state.d[dn] = out,
        }
        set_logic_flags(state, out, size_bytes * 8);
        state.pc = ext_pc;
        return Ok(true);
    }

    // Dn,<ea>
    let mut ext_pc = pc.saturating_add(2);
    let Some(dst_raw) =
        read_ea(state, memory, mode, reg, &mut ext_pc, size_bytes, pc.saturating_add(2), EaKind::Data)
    else {
        return Err(StopReason::OutOfBounds { pc });
    };
    let src = state.d[dn] & mask;
    let dst = dst_raw & mask;
    let out = if top == 0x8000 { dst | src } else { dst & src };
    let mut dst_ext_pc = pc.saturating_add(2);
    if !write_ea(state, memory, mode, reg, &mut dst_ext_pc, size_bytes, out, false) {
        return Err(StopReason::OutOfBounds { pc });
    }
    set_logic_flags(state, out, size_bytes * 8);
    state.pc = ext_pc;
    Ok(true)
}


/// EOR Dn,<ea>.
pub open spec fn eor_spec(word: u16, pc: u32, r: Regs, m: MemView) -> (Result<bool, StopReason>, Regs, MemView) {
    let opmode = (word >> 6) & 0x0007;
    let dn = ((word >> 9) & 0x0007) as int;
    let mode = (word >> 3) & 0x0007;
    let reg = (word & 0x0007) as int;
    let start = sat_add32(pc, 2);
    let size_bytes: u32 = if opmode == 4 { 1 } else if opmode == 5 { 2 } else { 4 };
    let mask = size_mask((size_bytes * 8) as u32);
    if (word & 0xF000) != 0xB000 || opmode < 4 || opmode > 6 {
        (Ok(false), r, m)
    } else {
        let (r1, ext_pc, v) = ea_read(r, m, mode, reg, start, size_bytes, start, EaKind::Data);
        match v {
            None => (Err(StopReason::OutOfBounds { pc }), r1, m),
            Some(raw) => {
                let out = (raw & mask) ^ (r1.d[dn] & mask);
                let (r2, m2, _, ok) = ea_write(r1, m, mode, reg, start, size_bytes, out, false);
                if !ok {
                    (Err(StopReason::OutOfBounds { pc }), r2, m2)
                } else {
                    (Ok(true), r2.with_sr(logic_flags(r2.sr, out, (size_bytes * 8) as u32)).with_pc(ext_pc), m2)
                }
            },
        }
    }
}

#[verifier::spinoff_prover]
fn execute_eor(
    word: u16,
    pc: u32,
    state: &mut CpuState68k,
    memory: &mut MemoryMap,
) -> (res: Result<bool, StopReason>)
    ensures
        (res, regs(*final(state)), final(memory)@) == eor_spec(word, pc, regs(*old(state)), old(memory)@),
        final(state).call_stack == old(state).call_stack,
{
    if (word & 0xF000) != 0xB000 {
        return Ok(false);
    }
    let opmode = (word >> 6) & 0x0007;
    let size_bytes = match opmode {
        4 => 1u32,
        5 => 2u32,
        6 => 4u32,
        _ => return Ok(false),
    };

    let dn = ((word >> 9) & 0x0007) as usize;
    let mode = (word >> 3) & 0x0007;
    let reg = (word & 0x0007) as usize;
    proof { crate::palm::cpu::ea::lemma_opcode_fields(word); }

    let mut ext_pc = pc.saturating_add(2);
    let Some(dst_raw) =
        read_ea(state, memory, mode, reg, &mut ext_pc, size_bytes, pc.saturating_add(2), EaKind::Data)
    else {
        return Err(StopReason::OutOfBounds { pc });
    };
    let mask = if size_bytes == 4 {
        u32::MAX
    } else {
        proof { crate::palm::cpu::ea::lemma_operand_bits(); }
        (1u32 << (size_bytes * 8)) - 1
    };
    let src = state.d[dn] & mask;
    let out = (dst_raw & mask) ^ src;
    let mut dst_ext_pc = pc.saturating_add(2);
    if !write_ea(state, memory, mode, reg, &mut dst_ext_pc, size_bytes, out, false) {
        return Err(StopReason::OutOfBounds { pc });
    }
    set_logic_flags(state, out, size_bytes * 8);
    state.pc = ext_pc;
    Ok(true)
}

/// The status register with Z set to `z` and every other bit kept.
pub open spec fn with_z(sr: u16, z: bool) -> u16 {
    (sr & 0xFFFB) | (if z { 4u16 } else { 0u16 })
}

/// BTST (0), BCHG (1), BCLR (2) and BSET (3) applied to `old` with `mask`.
pub open spec fn bit_op(op_kind: u16, old: u32, mask: u32) -> u32 {
    if op_kind == 0 {
        old
    } else if op_kind == 1 {
        old ^ mask
    } else if op_kind == 2 {
        old & !mask
    } else {
        old | mask
    }
}

pub open spec fn bit_op8(op_kind: u16, old: u8, mask: u8) -> u8 {
    if op_kind == 0 {
        old
    } else if op_kind == 1 {
        old ^ mask
    } else if op_kind == 2 {
        old & !mask
    } else {
        old | mask
    }
}

/// Bit operations with an immediate bit number: on a data register the
/// number is taken modulo 32, on a memory byte modulo 8. Z reports whether
/// the bit was clear; an undecoded memory mode only steps over the
/// instruction.
pub open spec fn static_bit_spec(word: u16, pc: u32, r: Regs, m: MemView) -> (Result<bool, StopReason>, Regs, MemView) {
    let op_kind = (word >> 6) & 0x0003;
    let mode = (word >> 3) & 0x0007;
    let reg = (word & 0x0007) as int;
    if (word & 0xF000) != 0x0000 || (word & 0x0F00) != 0x0800 {
        (Ok(false), r, m)
    } else {
        match m.read16((pc + 2) as u32) {
            None => (Err(StopReason::OutOfBounds { pc }), r, m),
            Some(bit_imm) => if mode == 0 {
                let mask = 1u32 << ((bit_imm as u32) & 31);
                let old = r.d[reg];
                let r1 = r.with_sr(with_z(r.sr, (old & mask) == 0));
                let r2 = if op_kind != 0 { r1.with_d(reg, bit_op(op_kind, old, mask)) } else { r1 };
                (Ok(true), r2.with_pc(sat_add32(pc, 4)), m)
            } else {
                let mask = 1u8 << ((bit_imm as u8) & 7);
                let (r1, ext_pc, v) = ea_read(r, m, mode, reg, sat_add32(pc, 4), 1, sat_add32(pc, 2), EaKind::Data);
                match v {
                    None => {
                        let extra = match ext_words_spec(mode, reg as u16) {
                            Some(w) => w,
                            None => 0,
                        };
                        (Ok(true), r1.with_pc(sat_add32(pc, (4 + extra * 2) as u32)), m)
                    },
                    Some(raw) => {
                        let old = raw as u8;
                        let r2 = r1.with_sr(with_z(r1.sr, (old & mask) == 0));
                        if op_kind != 0 {
                            let (r3, m3, _, ok) = ea_write(r2, m, mode, reg, sat_add32(pc, 4), 1, bit_op8(op_kind, old, mask) as u32, false);
                            if !ok {
                                (Err(StopReason::OutOfBounds { pc }), r3, m3)
                            } else {
                                (Ok(true), r3.with_pc(ext_pc), m3)
                            }
                        } else {
                            (Ok(true), r2.with_pc(ext_pc), m)
                        }
                    },
                }
            },
        }
    }
}

proof fn lemma_with_z(sr: u16, z: bool)
    ensures
        (if z { (sr & !0x0004u16) | 0x0004 } else { sr & !0x0004u16 }) == with_z(sr, z),
{
    let z4: u16 = if z { 4u16 } else { 0u16 };
    assert((if z { (sr & !0x0004u16) | 0x0004 } else { sr & !0x0004u16 }) == (sr & 0xFFFB) | z4) by (bit_vector)
        requires z4 == (if z { 4u16 } else { 0u16 });
}

#[verifier::spinoff_prover]
fn execute_static_bit(
    word: u16,
    pc: u32,
    state: &mut CpuState68k,
    memory: &mut MemoryMap,
) -> (res: Result<bool, StopReason>)
    requires
        ((word & 0xF000) == 0x0000 && (word & 0x0F00) == 0x0800) ==> pc <= u32::MAX - 2,
    ensures
        (res, regs(*final(state)), final(memory)@) == static_bit_spec(word, pc, regs(*old(state)), old(memory)@),
        final(state).call_stack == old(state).call_stack,
{
    if (word & 0xF000) != 0x0000 || (word & 0x0F00) != 0x0800 {
        return Ok(false);
    }
    let op_kind = (word >> 6) & 0x0003; // 0=BTST 1=BCHG 2=BCLR 3=BSET
    let mode = (word >> 3) & 0x0007;
    let reg = (word & 0x0007) as usize;
    proof { crate::palm::cpu::ea::lemma_opcode_fields(word); }
    let Some(bit_imm) = memory.read_u16_be(pc + 2) else {
        return Err(StopReason::OutOfBounds { pc });
    };
    let mut ext_pc = pc.saturating_add(4);

    if mode == 0 {
        let bit = (bit_imm as u32) & 31;
        assert(((bit_imm as u32) & 31) < 32) by (bit_vector);
        let mask = 1u32 << bit;
        let old = state.d[reg];
        // Z only, preserve all other flags.
        proof { lemma_with_z(state.sr, (old & mask) == 0); }
        state.sr &= !0x0004;
        if (old & mask) == 0 {
            state.sr |= 0x0004;
        }
        let new_val = match op_kind {
            0 => old,
            1 => old ^ mask,
            2 => old & !mask,
            _ => old | mask,
        };
        if op_kind != 0 {
            state.d[reg] = new_val;
        }
        state.pc = ext_pc;
        return Ok(true);
    }

    // Byte memory forms use low 3 bits.
    let bit = (bit_imm as u8) & 7;
    assert(((bit_imm as u8) & 7) < 8) by (bit_vector);
    let mask = 1u8 << bit;
    let Some(old_raw) = read_ea(
        state,
        memory,
        mode,
        reg,
        &mut ext_pc,
        1,
        pc.saturating_add(2),
        EaKind::Data,
    ) else {
        // For unsupported EAs, still consume extension and keep running.
        let extra = match ea_ext_words(mode, reg as u16) {
            Some(w) => w,
            None => 0,
        };
        state.pc = pc.saturating_add(4 + extra * 2);
        return Ok(true);
    };
    let old = old_raw as u8;
    proof { lemma_with_z(state.sr, (old & mask) == 0); }
    state.sr &= !0x0004;
    if (old & mask) == 0 {
        state.sr |= 0x0004;
    }
    let new_val = match op_kind {
        0 => old,
        1 => old ^ mask,
        2 => old & !mask,
        _ => old | mask,
    };
    if op_kind != 0 {
        let mut dst_ext_pc = pc.saturating_add(4);
        if !write_ea(
            state,
            memory,
            mode,
            reg,
            &mut dst_ext_pc,
            1,
            new_val as u32,
            false,
        ) {
            return Err(StopReason::OutOfBounds { pc });
        }
    }
    state.pc = ext_pc;
    Ok(true)
}


pub open spec fn byte_or_zero(m: MemView, addr: u32) -> u32 {
    match m.read8(addr) {
        Some(b) => b as u32,
        None => 0,
    }
}

/// MOVEP: moves a word or long between a data register and every other byte
/// from `(d16,Ay)`; unmapped source bytes read as zero.
pub open spec fn movep_spec(word: u16, pc: u32, r: Regs, m: MemView) -> (Result<bool, StopReason>, Regs, MemView) {
    let dn = ((word >> 9) & 0x0007) as int;
    let ay = (word & 0x0007) as int;
    let opmode = (word >> 6) & 0x0003;
    if (word & 0xF138) != 0x0108 {
        (Ok(false), r, m)
    } else {
        match m.read16((pc + 2) as u32) {
            None => (Err(StopReason::OutOfBounds { pc }), r, m),
            Some(disp16) => {
                let base = add_mod32(r.a[ay], sext16(disp16 as int));
                let b0 = byte_or_zero(m, base);
                let b1 = byte_or_zero(m, base.wrapping_add(2));
                let b2 = byte_or_zero(m, base.wrapping_add(4));
                let b3 = byte_or_zero(m, base.wrapping_add(6));
                let d = r.d[dn];
                let (r1, m1) = if opmode == 0 {
                    (r.with_d(dn, (d & 0xFFFF_0000) | ((b0 << 8) | b1)), m)
                } else if opmode == 1 {
                    (r.with_d(dn, (b0 << 24) | (b1 << 16) | (b2 << 8) | b3), m)
                } else if opmode == 2 {
                    let v = d & 0xFFFF;
                    (r, m.write8(base, ((v >> 8) & 0xFF) as u8).write8(base.wrapping_add(2), (v & 0xFF) as u8))
                } else {
                    (
                        r,
                        m.write8(base, ((d >> 24) & 0xFF) as u8)
                            .write8(base.wrapping_add(2), ((d >> 16) & 0xFF) as u8)
                            .write8(base.wrapping_add(4), ((d >> 8) & 0xFF) as u8)
                            .write8(base.wrapping_add(6), (d & 0xFF) as u8),
                    )
                };
                (Ok(true), r1.with_pc(sat_add32(pc, 4)), m1)
            },
        }
    }
}

fn read_byte_or_zero(memory: &MemoryMap, addr: u32) -> (v: u32)
    ensures
        v == byte_or_zero(memory@, addr),
        v < 0x100,
{
    match memory.read_u8(addr) {
        Some(b) => b as u32,
        None => 0,
    }
}

#[verifier::spinoff_prover]
fn execute_movep(
    word: u16,
    pc: u32,
    state: &mut CpuState68k,
    memory: &mut MemoryMap,
) -> (res: Result<bool, StopReason>)
    requires
        (word & 0xF138) == 0x0108 ==> pc <= u32::MAX - 2,
    ensures
        (res, regs(*final(state)), final(memory)@) == movep_spec(word, pc, regs(*old(state)), old(memory)@),
        final(state).call_stack == old(state).call_stack,
{
    // MOVEP.{W/L} Dn,(d16,Ay) and (d16,Ay),Dn
    if (word & 0xF138) != 0x0108 {
        return Ok(false);
    }
    let dn = ((word >> 9) & 0x0007) as usize;
    let ay = (word & 0x0007) as usize;
    proof { crate::palm::cpu::ea::lemma_opcode_fields(word); }
    let opmode = (word >> 6) & 0x0003;
    let Some(disp16) = memory.read_u16_be(pc + 2) else {
        return Err(StopReason::OutOfBounds { pc });
    };
    proof { lemma_u16_as_i16(disp16); }
    let base = add_signed_u32(state.a[ay], (disp16 as i16) as i32);
    match opmode {
        0 => {
            // (d16,Ay) -> Dn, word
            let b0 = read_byte_or_zero(memory, base);
            let b1 = read_byte_or_zero(memory, base.wrapping_add(2));
            let w = (b0 << 8) | b1;
            state.d[dn] = (state.d[dn] & 0xFFFF_0000) | w;
        },
        1 => {
            // (d16,Ay) -> Dn, long
            let b0 = read_byte_or_zero(memory, base);
            let b1 = read_byte_or_zero(memory, base.wrapping_add(2));
            let b2 = read_byte_or_zero(memory, base.wrapping_add(4));
            let b3 = read_byte_or_zero(memory, base.wrapping_add(6));
            state.d[dn] = (b0 << 24) | (b1 << 16) | (b2 << 8) | b3;
        },
        2 => {
            // Dn -> (d16,Ay), word
            let v = state.d[dn] & 0xFFFF;
            memory.write_u8(base, ((v >> 8) & 0xFF) as u8);
            memory.write_u8(base.wrapping_add(2), (v & 0xFF) as u8);
        },
        _ => {
            // Dn -> (d16,Ay), long
            let v = state.d[dn];
            memory.write_u8(base, ((v >> 24) & 0xFF) as u8);
            memory.write_u8(base.wrapping_add(2), ((v >> 16) & 0xFF) as u8);
            memory.write_u8(base.wrapping_add(4), ((v >> 8) & 0xFF) as u8);
            memory.write_u8(base.wrapping_add(6), (v & 0xFF) as u8);
        },
    }
    state.pc = pc.saturating_add(4);
    Ok(true)
}

/// Static bit operations, MOVEP, EOR, then OR/AND, in that order.
pub open spec fn logic_spec(word: u16, pc: u32, r: Regs, m: MemView) -> (Result<bool, StopReason>, Regs, MemView) {
    let (res1, r1, m1) = static_bit_spec(word, pc, r, m);
    if res1 != Ok::<bool, StopReason>(false) {
        (res1, r1, m1)
    } else {
        let (res2, r2, m2) = movep_spec(word, pc, r1, m1);
        if res2 != Ok::<bool, StopReason>(false) {
            (res2, r2, m2)
        } else {
            let (res3, r3, m3) = eor_spec(word, pc, r2, m2);
            if res3 != Ok::<bool, StopReason>(false) {
                (res3, r3, m3)
            } else {
                or_and_spec(word, pc, r3, m3)
            }
        }
    }
}

/// Whether `word` is a static bit operation or MOVEP, the forms that read
/// the word after the opcode.
pub open spec fn logic_reads_ext(word: u16) -> bool {
    ((word & 0xF000) == 0x0000 && (word & 0x0F00) == 0x0800) || (word & 0xF138) == 0x0108
}

/// Runs `word` at `pc` when it is BTST/BCHG/BCLR/BSET #n, MOVEP, EOR, OR or AND.
pub fn execute(
    word: u16,
    pc: u32,
    state: &mut CpuState68k,
    memory: &mut MemoryMap,
) -> (res: Result<bool, StopReason>)
    requires
        logic_reads_ext(word) ==> pc <= u32::MAX - 2,
    ensures
        (res, regs(*final(state)), final(memory)@) == logic_spec(word, pc, regs(*old(state)), old(memory)@),
        final(state).call_stack == old(state).call_stack,
{
    if execute_static_bit(word, pc, state, memory)? {
        return Ok(true);
    }
    if execute_movep(word, pc, state, memory)? {
        return Ok(true);
    }
    if execute_eor(word, pc, state, memory)? {
        return Ok(true);
    }
    if execute_or_and(word, pc, state, memory)? {
        return Ok(true);
    }
    Ok(false)
}

proof fn lemma_eor_long_facts(x: u32, k: u32)
    by (bit_vector)
    ensures
        (0xB380u16 & 0xF000) == 0xB000,
        (0xB380u16 & 0x0F00) != 0x0800,
        (0xB380u16 & 0xF138) != 0x0108,
        (0xB380u16 >> 6) & 0x0007 == 6,
        (0xB380u16 >> 9) & 0x0007 == 1,
        (0xB380u16 >> 3) & 0x0007 == 0,
        0xB380u16 & 0x0007 == 0,
        (x & 0xFFFF_FFFF) ^ (k & 0xFFFF_FFFF) == x ^ k,
        ((x ^ k) & 0xFFFF_FFFF) ^ (k & 0xFFFF_FFFF) == x,
{
}

/// `EOR.L D1,D0` run twice, with D1 left alone in between, gives D0 back;
/// each run moves past its opcode, keeps D1 and memory, and sets N and Z
/// from the result with V and C clear (X kept).
pub proof fn lemma_eor_twice(pc: u32, pc2: u32, r: Regs, m: MemView)
    requires
        r.d.len() == 8,
        r.a.len() == 8,
    ensures
        ({
            let (res1, r1, m1) = logic_spec(0xB380, pc, r, m);
            let (res2, r2, m2) = logic_spec(0xB380, pc2, r1, m1);
            &&& res1 == Ok::<bool, StopReason>(true)
            &&& r1.d[0] == r.d[0] ^ r.d[1]
            &&& r1.d[1] == r.d[1]
            &&& r1.pc == sat_add32(pc, 2)
            &&& r1.sr == logic_flags(r.sr, r1.d[0], 32)
            &&& m1 == m
            &&& res2 == Ok::<bool, StopReason>(true)
            &&& r2.d[0] == r.d[0]
            &&& r2.d[1] == r.d[1]
            &&& r2.pc == sat_add32(pc2, 2)
            &&& r2.sr == logic_flags(r1.sr, r2.d[0], 32)
            &&& m2 == m
        }),
{
    lemma_eor_long_facts(r.d[0], r.d[1]);
    lemma_eor_long_facts(r.d[0] ^ r.d[1], r.d[1]);
}

} // verus!
