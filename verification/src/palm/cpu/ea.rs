//! Addressing arithmetic shared by the instruction groups.
use vstd::prelude::*;
use crate::palm::cpu::state::CpuState68k;
use crate::palm::cpu::memory::{MemView, MemoryMap};

verus! {

/// Two's-complement value of the low 8 bits of `x`.
pub open spec fn sext8(x: int) -> int {
    let b = x % 0x100;
    if b < 0x80 { b } else { b - 0x100 }
}

/// Two's-complement value of the low 16 bits of `x`.
pub open spec fn sext16(x: int) -> int {
    let w = x % 0x1_0000;
    if w < 0x8000 { w } else { w - 0x1_0000 }
}

/// Two's-complement value of a 32-bit word.
pub open spec fn sext32(x: u32) -> int {
    if x < 0x8000_0000 { x as int } else { x - 0x1_0000_0000 }
}

/// `v + delta` modulo 2^32.
pub open spec fn add_mod32(v: u32, delta: int) -> u32 {
    ((v + delta) % 0x1_0000_0000) as u32
}

pub proof fn lemma_u16_as_i16(x: u16)
    ensures
        (x as i16) as int == sext16(x as int),
        ((x as i16) as i32) as int == sext16(x as int),
{
    assert((x < 0x8000 ==> (x as i16) as int == x as int) && (x >= 0x8000 ==> (x as i16) as int == x as int - 0x1_0000))
        by (bit_vector);
}

pub proof fn lemma_u8_as_i8(x: u8)
    ensures
        (x as i8) as int == sext8(x as int),
        ((x as i8) as i32) as int == sext8(x as int),
{
    assert((x < 0x80 ==> (x as i8) as int == x as int) && (x >= 0x80 ==> (x as i8) as int == x as int - 0x100)) by (bit_vector);
}

/// `v` moved by a signed displacement, wrapping around the 32-bit space.
pub fn add_signed_u32(v: u32, delta: i32) -> (r: u32)
    requires
        delta != i32::MIN,
    ensures
        r == add_mod32(v, delta as int),
{
    if delta >= 0 {
        v.wrapping_add(delta as u32)
    } else {
        v.wrapping_sub((-delta) as u32)
    }
}


pub proof fn lemma_u32_as_i32(x: u32)
    ensures
        (x as i32) as int == sext32(x),
{
    assert((x < 0x8000_0000 ==> (x as i32) as int == x as int) && (x >= 0x8000_0000 ==> (x as i32) as int == x as int
        - 0x1_0000_0000)) by (bit_vector);
}

pub proof fn lemma_u32_as_u16(x: u32)
    ensures
        (x as u16) as int == x % 0x1_0000,
{
    assert((x as u16) as int == x % 0x1_0000) by (bit_vector);
}

/// The bit fields of an instruction word (or brief extension word) are
/// small numbers.
pub proof fn lemma_opcode_fields(word: u16)
    by (bit_vector)
    ensures
        word & 0x0007 < 8,
        (word >> 3) & 0x0007 < 8,
        (word >> 6) & 0x0003 <= 3,
        (word >> 9) & 0x0007 < 8,
        (word >> 12) & 0x0007 < 8,
{
}

/// Clearing status bits with a complemented mask.
pub proof fn lemma_status_masks(sr: u16)
    by (bit_vector)
    ensures
        sr & !0x001Fu16 == sr & 0xFFE0,
        sr & !0x000Fu16 == sr & 0xFFF0,
        sr & !0x0008u16 == sr & 0xFFF7,
{
}

/// The powers of two that size the operands.
pub proof fn lemma_operand_bits()
    by (bit_vector)
    ensures
        1u32 << 7u32 == 0x80,
        1u32 << 8u32 == 0x100,
        1u32 << 15u32 == 0x8000,
        1u32 << 16u32 == 0x1_0000,
        1u32 << 31u32 == 0x8000_0000,
{
}

/// The register file as mathematical values.
#[verifier::ext_equal]
pub struct Regs {
    pub d: Seq<u32>,
    pub a: Seq<u32>,
    pub pc: u32,
    pub sr: u16,
}

pub open spec fn regs(s: CpuState68k) -> Regs {
    Regs { d: s.d@, a: s.a@, pc: s.pc, sr: s.sr }
}

impl Regs {
    pub open spec fn with_a(self, i: int, v: u32) -> Regs {
        Regs { a: self.a.update(i, v), ..self }
    }

    pub open spec fn with_d(self, i: int, v: u32) -> Regs {
        Regs { d: self.d.update(i, v), ..self }
    }

    pub open spec fn with_sr(self, sr: u16) -> Regs {
        Regs { sr, ..self }
    }

    pub open spec fn with_pc(self, pc: u32) -> Regs {
        Regs { pc, ..self }
    }
}

/// The index term of a brief extension word: an address or data register,
/// either whole or as its sign-extended low word.
pub open spec fn index_value(r: Regs, ext: u16) -> int {
    let idx_reg = ((ext >> 12) & 0x0007) as int;
    let raw = if (ext & 0x8000) != 0 { r.a[idx_reg] } else { r.d[idx_reg] };
    if (ext & 0x0800) != 0 { sext32(raw) } else { sext16(raw as int) }
}

/// `x` clamped into the range of `i32`.
pub open spec fn clamp_i32(x: int) -> int {
    if x < i32::MIN { i32::MIN as int } else if x > i32::MAX { i32::MAX as int } else { x }
}

/// Effective address of the indexed modes `(d8,An,Xn)` and `(d8,PC,Xn)`:
/// the base plus the 8-bit displacement plus the index, with the sum of the
/// last two saturated to 32 bits.
pub open spec fn indexed_spec(base: u32, ext: u16, r: Regs) -> u32 {
    add_mod32(base, clamp_i32(sext8((ext & 0x00FF) as int) + index_value(r, ext)))
}

pub fn indexed_addr(base: u32, ext: u16, state: &CpuState68k) -> (addr: u32)
    ensures
        addr == indexed_spec(base, ext, regs(*state)),
{
    let da = (ext & 0x8000) != 0;
    let idx_reg = ((ext >> 12) & 0x0007) as usize;
    proof { lemma_opcode_fields(ext); }
    let idx_long = (ext & 0x0800) != 0;
    let disp8 = (ext & 0x00FF) as u8 as i8 as i32;
    proof {
        assert(((ext & 0x00FF) as u8) as int == (ext & 0x00FF) as int) by (bit_vector);
        lemma_u8_as_i8((ext & 0x00FF) as u8);
        assert(sext8((ext & 0x00FF) as int) == sext8(((ext & 0x00FF) as u8) as int));
    }
    let idx_raw = if da { state.a[idx_reg] } else { state.d[idx_reg] };
    let idx = if idx_long {
        proof { lemma_u32_as_i32(idx_raw); }
        idx_raw as i32
    } else {
        proof {
            lemma_u32_as_u16(idx_raw);
            lemma_u16_as_i16(idx_raw as u16);
        }
        (idx_raw as u16 as i16) as i32
    };
    // i32::saturating_add
    let wide = disp8 as i64 + idx as i64;
    let sum: i32 = if wide < i32::MIN as i64 {
        i32::MIN
    } else if wide > i32::MAX as i64 {
        i32::MAX
    } else {
        wide as i32
    };
    if sum == i32::MIN {
        base.wrapping_add(0x8000_0000)
    } else {
        add_signed_u32(base, sum)
    }
}


pub proof fn lemma_i32_as_u32(x: i32)
    ensures
        (x as u32) == add_mod32(0, x as int),
{
    assert((x >= 0 ==> (x as u32) as int == x as int) && (x < 0 ==> (x as u32) as int == x as int + 0x1_0000_0000))
        by (bit_vector);
}

/// `u32::saturating_add`.
pub open spec fn sat_add32(x: u32, y: u32) -> u32 {
    if x + y > u32::MAX { u32::MAX } else { (x + y) as u32 }
}

/// Number of extension words that follow an instruction for the effective
/// address `mode`/`reg`, or `None` for an encoding with no addressing mode.
pub open spec fn ext_words_spec(mode: u16, reg: u16) -> Option<u32> {
    if mode <= 4 {
        Some(0)
    } else if mode == 5 || mode == 6 {
        Some(1)
    } else if mode == 7 {
        if reg == 0 || reg == 2 || reg == 3 {
            Some(1)
        } else if reg == 1 {
            Some(2)
        } else if reg == 4 {
            Some(0)
        } else {
            None
        }
    } else {
        None
    }
}

pub fn ea_ext_words(mode: u16, reg: u16) -> (r: Option<u32>)
    ensures
        r == ext_words_spec(mode, reg),
{
    match mode {
        0 | 1 | 2 | 3 | 4 => Some(0),
        5 | 6 => Some(1),
        7 => match reg {
            0 => Some(1),
            1 => Some(2),
            2 => Some(1),
            3 => Some(1),
            4 => Some(0),
            _ => None,
        },
        _ => None,
    }
}

/// Mask of an operand of `bits` (8, 16 or 32) bits.
pub open spec fn size_mask(bits: u32) -> u32 {
    if bits == 8 { 0xFF } else if bits == 16 { 0xFFFF } else { 0xFFFF_FFFF }
}

/// Sign bit of an operand of `bits` (8, 16 or 32) bits.
pub open spec fn size_sign(bits: u32) -> u32 {
    if bits == 8 { 0x80 } else if bits == 16 { 0x8000 } else { 0x8000_0000 }
}

pub open spec fn valid_bits(bits: u32) -> bool {
    bits == 8 || bits == 16 || bits == 32
}

/// The status register with N, Z, V and C replaced; X and the system byte kept.
pub open spec fn with_nzvc(sr: u16, n: bool, z: bool, v: bool, c: bool) -> u16 {
    (sr & 0xFFF0) | (if n { 8u16 } else { 0u16 }) | (if z { 4u16 } else { 0u16 })
        | (if v { 2u16 } else { 0u16 }) | (if c { 1u16 } else { 0u16 })
}

/// Condition codes after a logical result: N and Z from the value, V and C
/// cleared, X kept.
pub open spec fn logic_flags(sr: u16, value: u32, bits: u32) -> u16 {
    let v = value & size_mask(bits);
    with_nzvc(sr, (v & size_sign(bits)) != 0, v == 0, false, false)
}

pub proof fn lemma_sign_mask(bits: u32)
    requires
        valid_bits(bits),
    ensures
        1u32 << ((bits - 1) as u32) == size_sign(bits),
        bits != 32 ==> ((1u32 << bits) - 1) as u32 == size_mask(bits) && (1u32 << bits) >= 1,
{
    lemma_operand_bits();
}

pub proof fn lemma_nzvc_steps(sr: u16, n: bool, z: bool, v: bool, c: bool)
    ensures
        ({
            let s0 = sr & !0x000Fu16;
            let s1 = if n { s0 | 0x0008 } else { s0 };
            let s2 = if z { s1 | 0x0004 } else { s1 };
            let s3 = if v { s2 | 0x0002 } else { s2 };
            let s4 = if c { s3 | 0x0001 } else { s3 };
            s4 == with_nzvc(sr, n, z, v, c)
        }),
{
    let n8: u16 = if n { 8u16 } else { 0u16 };
    let z4: u16 = if z { 4u16 } else { 0u16 };
    let v2: u16 = if v { 2u16 } else { 0u16 };
    let c1: u16 = if c { 1u16 } else { 0u16 };
    let s0 = sr & !0x000Fu16;
    let s1 = if n { s0 | 0x0008 } else { s0 };
    let s2 = if z { s1 | 0x0004 } else { s1 };
    let s3 = if v { s2 | 0x0002 } else { s2 };
    let s4 = if c { s3 | 0x0001 } else { s3 };
    assert(s1 == s0 | n8) by (bit_vector)
        requires s1 == (if n { s0 | 0x0008 } else { s0 }), n8 == (if n { 8u16 } else { 0u16 });
    assert(s2 == s1 | z4) by (bit_vector)
        requires s2 == (if z { s1 | 0x0004 } else { s1 }), z4 == (if z { 4u16 } else { 0u16 });
    assert(s3 == s2 | v2) by (bit_vector)
        requires s3 == (if v { s2 | 0x0002 } else { s2 }), v2 == (if v { 2u16 } else { 0u16 });
    assert(s4 == s3 | c1) by (bit_vector)
        requires s4 == (if c { s3 | 0x0001 } else { s3 }), c1 == (if c { 1u16 } else { 0u16 });
    lemma_status_masks(sr);
}

/// Sets N and Z from a logical result, clears V and C, keeps X.
pub fn set_logic_flags(state: &mut CpuState68k, value: u32, bits: u32)
    requires
        valid_bits(bits),
    ensures
        regs(*final(state)) == regs(*old(state)).with_sr(logic_flags(old(state).sr, value, bits)),
        final(state).call_stack == old(state).call_stack,
{
    proof { lemma_sign_mask(bits); }
    let sign = 1u32 << (bits - 1);
    let mask = if bits == 32 {
        u32::MAX
    } else {
        (1u32 << bits) - 1
    };
    let v = value & mask;
    // Preserve X. Clear N/Z/V/C then set N/Z.
    let x = state.sr & 0x0010;
    let ghost sr0 = state.sr;
    state.sr = (state.sr & !0x001F) | x;
    assert((sr0 & !0x001Fu16) | (sr0 & 0x0010) == sr0 & !0x000Fu16) by (bit_vector);
    proof { lemma_nzvc_steps(sr0, (v & sign) != 0, v == 0, false, false); }
    if (v & sign) != 0 {
        state.sr |= 0x0008;
    }
    if v == 0 {
        state.sr |= 0x0004;
    }
}


/// Which addressing modes an instruction group decodes when it reads an
/// operand.
#[derive(Clone, Copy, PartialEq, Eq, Structural)]
pub enum EaKind {
    /// Logical operations: every mode but `An`, including the PC-relative
    /// and immediate forms.
    Data,
    /// NOT/NEGX/TAS and CHK: the data-alterable modes plus absolute addresses.
    Alterable,
    /// Multiplication: every mode but `-(An)`, including `An`.
    Value,
    /// Status-register moves: word operands without the indexed mode.
    Word,
}

pub open spec fn step_for(bytes: u32, reg: int) -> u32 {
    if bytes == 1 && reg == 7 { 2 } else { bytes }
}

pub open spec fn valid_bytes(bytes: u32) -> bool {
    bytes == 1 || bytes == 2 || bytes == 4
}

pub open spec fn pc_relative_ok(kind: EaKind) -> bool {
    kind == EaKind::Data || kind == EaKind::Value
}

/// Reading an operand through the effective address `mode`/`reg`:
/// the registers afterwards (post-increment and pre-decrement move `An`),
/// the extension-word pointer afterwards, and the operand, `None` when the
/// mode is not decoded or memory is not mapped.
pub open spec fn ea_read(
    r: Regs,
    m: MemView,
    mode: u16,
    reg: int,
    ext_pc: u32,
    bytes: u32,
    pc_base: u32,
    kind: EaKind,
) -> (Regs, u32, Option<u32>) {
    if mode == 0 {
        (r, ext_pc, Some(r.d[reg]))
    } else if mode == 1 {
        (r, ext_pc, if kind == EaKind::Value { Some(r.a[reg]) } else { None })
    } else if mode == 2 {
        (r, ext_pc, m.read_sized(r.a[reg], bytes))
    } else if mode == 3 {
        (r.with_a(reg, r.a[reg].wrapping_add(step_for(bytes, reg))), ext_pc, m.read_sized(r.a[reg], bytes))
    } else if mode == 4 && kind != EaKind::Value {
        let addr = r.a[reg].wrapping_sub(step_for(bytes, reg));
        (r.with_a(reg, addr), ext_pc, m.read_sized(addr, bytes))
    } else if mode == 5 {
        match m.read16(ext_pc) {
            None => (r, ext_pc, None),
            Some(disp) => (r, sat_add32(ext_pc, 2), m.read_sized(add_mod32(r.a[reg], sext16(disp as int)), bytes)),
        }
    } else if mode == 6 && kind != EaKind::Word {
        match m.read16(ext_pc) {
            None => (r, ext_pc, None),
            Some(ext) => (r, sat_add32(ext_pc, 2), m.read_sized(indexed_spec(r.a[reg], ext, r), bytes)),
        }
    } else if mode == 7 && reg == 0 {
        match m.read16(ext_pc) {
            None => (r, ext_pc, None),
            Some(aw) => (r, sat_add32(ext_pc, 2), m.read_sized(add_mod32(0, sext16(aw as int)), bytes)),
        }
    } else if mode == 7 && reg == 1 {
        match m.read32(ext_pc) {
            None => (r, ext_pc, None),
            Some(al) => (r, sat_add32(ext_pc, 4), m.read_sized(al, bytes)),
        }
    } else if mode == 7 && reg == 2 && pc_relative_ok(kind) {
        match m.read16(ext_pc) {
            None => (r, ext_pc, None),
            Some(disp) => (r, sat_add32(ext_pc, 2), m.read_sized(add_mod32(pc_base, sext16(disp as int)), bytes)),
        }
    } else if mode == 7 && reg == 3 && pc_relative_ok(kind) {
        match m.read16(ext_pc) {
            None => (r, ext_pc, None),
            Some(ext) => (r, sat_add32(ext_pc, 2), m.read_sized(indexed_spec(pc_base, ext, r), bytes)),
        }
    } else if mode == 7 && reg == 4 && pc_relative_ok(kind) {
        let v = if bytes == 4 {
            m.read32(ext_pc)
        } else {
            match m.read16(ext_pc) {
                Some(w) => Some(w as u32),
                None => None,
            }
        };
        (r, sat_add32(ext_pc, if bytes == 4 { 4 } else { 2 }), v)
    } else {
        (r, ext_pc, None)
    }
}

proof fn lemma_u16_sext_i32(x: u16)
    ensures
        x as i16 as i32 != i32::MIN,
        (x as i16 as i32) as int == sext16(x as int),
{
    lemma_u16_as_i16(x);
}

/// Reads a `bytes`-sized value (1, 2 or 4) from memory.
pub fn read_sized(memory: &MemoryMap, addr: u32, bytes: u32) -> (v: Option<u32>)
    ensures
        v == memory@.read_sized(addr, bytes),
{
    match bytes {
        1 => match memory.read_u8(addr) {
            Some(b) => Some(b as u32),
            None => None,
        },
        2 => match memory.read_u16_be(addr) {
            Some(w) => Some(w as u32),
            None => None,
        },
        4 => memory.read_u32_be(addr),
        _ => None,
    }
}

/// Fetches an operand through an effective address; see [`ea_read`].
pub fn read_ea(
    state: &mut CpuState68k,
    memory: &MemoryMap,
    mode: u16,
    reg: usize,
    ext_pc: &mut u32,
    bytes: u32,
    pc_base: u32,
    kind: EaKind,
) -> (v: Option<u32>)
    requires
        reg < 8,
        valid_bytes(bytes),
    ensures
        (regs(*final(state)), *final(ext_pc), v) == ea_read(
            regs(*old(state)),
            memory@,
            mode,
            reg as int,
            *old(ext_pc),
            bytes,
            pc_base,
            kind,
        ),
        final(state).call_stack == old(state).call_stack,
{
    let value_kind = match kind { EaKind::Value => true, _ => false };
    let word_kind = match kind { EaKind::Word => true, _ => false };
    let pc_rel = match kind { EaKind::Data | EaKind::Value => true, _ => false };
    if mode == 0 {
        Some(state.d[reg])
    } else if mode == 1 {
        if value_kind { Some(state.a[reg]) } else { None }
    } else if mode == 2 {
        read_sized(memory, state.a[reg], bytes)
    } else if mode == 3 {
        let addr = state.a[reg];
        let v = read_sized(memory, addr, bytes);
        let inc = if bytes == 1 && reg == 7 { 2 } else { bytes };
        state.a[reg] = state.a[reg].wrapping_add(inc);
        v
    } else if mode == 4 && !value_kind {
        let dec = if bytes == 1 && reg == 7 { 2 } else { bytes };
        state.a[reg] = state.a[reg].wrapping_sub(dec);
        read_sized(memory, state.a[reg], bytes)
    } else if mode == 5 {
        let w = memory.read_u16_be(*ext_pc)?;
        proof { lemma_u16_sext_i32(w); }
        let disp = w as i16 as i32;
        *ext_pc = ext_pc.saturating_add(2);
        read_sized(memory, add_signed_u32(state.a[reg], disp), bytes)
    } else if mode == 6 && !word_kind {
        let ext = memory.read_u16_be(*ext_pc)?;
        *ext_pc = ext_pc.saturating_add(2);
        let addr = indexed_addr(state.a[reg], ext, state);
        read_sized(memory, addr, bytes)
    } else if mode == 7 && reg == 0 {
        let w = memory.read_u16_be(*ext_pc)?;
        proof { lemma_u16_sext_i32(w); lemma_i32_as_u32(w as i16 as i32); }
        let aw = w as i16 as i32;
        *ext_pc = ext_pc.saturating_add(2);
        read_sized(memory, aw as u32, bytes)
    } else if mode == 7 && reg == 1 {
        let addr = memory.read_u32_be(*ext_pc)?;
        *ext_pc = ext_pc.saturating_add(4);
        read_sized(memory, addr, bytes)
    } else if mode == 7 && reg == 2 && pc_rel {
        let w = memory.read_u16_be(*ext_pc)?;
        proof { lemma_u16_sext_i32(w); }
        let disp = w as i16 as i32;
        *ext_pc = ext_pc.saturating_add(2);
        read_sized(memory, add_signed_u32(pc_base, disp), bytes)
    } else if mode == 7 && reg == 3 && pc_rel {
        let ext = memory.read_u16_be(*ext_pc)?;
        *ext_pc = ext_pc.saturating_add(2);
        let addr = indexed_addr(pc_base, ext, state);
        read_sized(memory, addr, bytes)
    } else if mode == 7 && reg == 4 && pc_rel {
        let v = if bytes == 4 {
            memory.read_u32_be(*ext_pc)
        } else {
            match memory.read_u16_be(*ext_pc) {
                Some(w) => Some(w as u32),
                None => None,
            }
        };
        *ext_pc = ext_pc.saturating_add(if bytes == 4 { 4 } else { 2 });
        v
    } else {
        None
    }
}


/// A data register after storing the low `bytes` bytes of `value` into it.
pub open spec fn merge_sized(old: u32, value: u32, bytes: u32) -> u32 {
    if bytes == 1 {
        (old & 0xFFFF_FF00) | (value & 0xFF)
    } else if bytes == 2 {
        (old & 0xFFFF_0000) | (value & 0xFFFF)
    } else {
        value
    }
}

/// Storing `value` through the effective address `mode`/`reg`: registers,
/// memory and extension-word pointer afterwards, and whether the mode was
/// decoded. `word_only` leaves out the indexed mode.
pub open spec fn ea_write(
    r: Regs,
    m: MemView,
    mode: u16,
    reg: int,
    ext_pc: u32,
    bytes: u32,
    value: u32,
    word_only: bool,
) -> (Regs, MemView, u32, bool) {
    if mode == 0 {
        (r.with_d(reg, merge_sized(r.d[reg], value, bytes)), m, ext_pc, true)
    } else if mode == 2 {
        (r, m.write_sized(r.a[reg], bytes, value), ext_pc, true)
    } else if mode == 3 {
        (r.with_a(reg, r.a[reg].wrapping_add(step_for(bytes, reg))), m.write_sized(r.a[reg], bytes, value), ext_pc, true)
    } else if mode == 4 {
        let addr = r.a[reg].wrapping_sub(step_for(bytes, reg));
        (r.with_a(reg, addr), m.write_sized(addr, bytes, value), ext_pc, true)
    } else if mode == 5 {
        match m.read16(ext_pc) {
            None => (r, m, ext_pc, false),
            Some(disp) => (r, m.write_sized(add_mod32(r.a[reg], sext16(disp as int)), bytes, value), sat_add32(ext_pc, 2), true),
        }
    } else if mode == 6 && !word_only {
        match m.read16(ext_pc) {
            None => (r, m, ext_pc, false),
            Some(ext) => (r, m.write_sized(indexed_spec(r.a[reg], ext, r), bytes, value), sat_add32(ext_pc, 2), true),
        }
    } else if mode == 7 && reg == 0 {
        match m.read16(ext_pc) {
            None => (r, m, ext_pc, false),
            Some(aw) => (r, m.write_sized(add_mod32(0, sext16(aw as int)), bytes, value), sat_add32(ext_pc, 2), true),
        }
    } else if mode == 7 && reg == 1 {
        match m.read32(ext_pc) {
            None => (r, m, ext_pc, false),
            Some(al) => (r, m.write_sized(al, bytes, value), sat_add32(ext_pc, 4), true),
        }
    } else {
        (r, m, ext_pc, false)
    }
}

/// Writes a `bytes`-sized value (1, 2 or 4) to memory; unmapped stores are dropped.
pub fn write_sized(memory: &mut MemoryMap, addr: u32, bytes: u32, value: u32)
    requires
        valid_bytes(bytes),
    ensures
        final(memory)@ == old(memory)@.write_sized(addr, bytes, value),
{
    if bytes == 1 {
        memory.write_u8(addr, value as u8);
    } else if bytes == 2 {
        memory.write_u16_be(addr, value as u16);
    } else {
        memory.write_u32_be(addr, value);
    }
}

/// Stores an operand through an effective address; see [`ea_write`].
pub fn write_ea(
    state: &mut CpuState68k,
    memory: &mut MemoryMap,
    mode: u16,
    reg: usize,
    ext_pc: &mut u32,
    bytes: u32,
    value: u32,
    word_only: bool,
) -> (ok: bool)
    requires
        reg < 8,
        valid_bytes(bytes),
    ensures
        (regs(*final(state)), final(memory)@, *final(ext_pc), ok) == ea_write(
            regs(*old(state)),
            old(memory)@,
            mode,
            reg as int,
            *old(ext_pc),
            bytes,
            value,
            word_only,
        ),
        final(state).call_stack == old(state).call_stack,
{
    if mode == 0 {
        if bytes == 1 {
            state.d[reg] = (state.d[reg] & 0xFFFF_FF00) | (value & 0xFF);
        } else if bytes == 2 {
            state.d[reg] = (state.d[reg] & 0xFFFF_0000) | (value & 0xFFFF);
        } else {
            state.d[reg] = value;
        }
        true
    } else if mode == 2 {
        write_sized(memory, state.a[reg], bytes, value);
        true
    } else if mode == 3 {
        write_sized(memory, state.a[reg], bytes, value);
        let inc = if bytes == 1 && reg == 7 { 2 } else { bytes };
        state.a[reg] = state.a[reg].wrapping_add(inc);
        true
    } else if mode == 4 {
        let dec = if bytes == 1 && reg == 7 { 2 } else { bytes };
        state.a[reg] = state.a[reg].wrapping_sub(dec);
        write_sized(memory, state.a[reg], bytes, value);
        true
    } else if mode == 5 {
        let Some(disp16) = memory.read_u16_be(*ext_pc) else {
            return false;
        };
        *ext_pc = ext_pc.saturating_add(2);
        proof { lemma_u16_sext_i32(disp16); }
        let addr = add_signed_u32(state.a[reg], (disp16 as i16) as i32);
        write_sized(memory, addr, bytes, value);
        true
    } else if mode == 6 && !word_only {
        let Some(ext) = memory.read_u16_be(*ext_pc) else {
            return false;
        };
        *ext_pc = ext_pc.saturating_add(2);
        let addr = indexed_addr(state.a[reg], ext, state);
        write_sized(memory, addr, bytes, value);
        true
    } else if mode == 7 && reg == 0 {
        let Some(aw) = memory.read_u16_be(*ext_pc) else {
            return false;
        };
        *ext_pc = ext_pc.saturating_add(2);
        proof { lemma_u16_sext_i32(aw); lemma_i32_as_u32(aw as i16 as i32); }
        let addr = (aw as i16 as i32) as u32;
        write_sized(memory, addr, bytes, value);
        true
    } else if mode == 7 && reg == 1 {
        let Some(al) = memory.read_u32_be(*ext_pc) else {
            return false;
        };
        *ext_pc = ext_pc.saturating_add(4);
        write_sized(memory, al, bytes, value);
        true
    } else {
        false
    }
}

} // verus!
