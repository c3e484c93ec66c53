//! MOVEM between register lists and memory.
use vstd::prelude::*;
use crate::palm::cpu::ea::{
    add_mod32, add_signed_u32, ea_ext_words, ext_words_spec, lemma_i32_as_u32, lemma_u16_as_i16,
    lemma_u32_as_u16, regs, sat_add32, sext16, Regs,
};
use crate::palm::cpu::memory::{MemView, MemoryMap};
use crate::palm::cpu::state::{CpuState68k, StopReason};

verus! {

/// Register `idx` of a MOVEM list: 0-7 are D0-D7, 8-15 are A0-A7.
pub open spec fn list_reg(r: Regs, idx: int) -> u32 {
    if idx < 8 { r.d[idx] } else { r.a[idx - 8] }
}

/// A word sign-extended to 32 bits.
pub open spec fn sext_word(v: u32) -> u32 {
    add_mod32(0, sext16(v as int))
}

/// Register `idx` after a MOVEM load of `v`; word loads are sign-extended.
pub open spec fn set_list_reg(r: Regs, idx: int, v: u32, size: u32) -> Regs {
    let val = if size == 2 { sext_word(v) } else { v };
    if idx < 8 { r.with_d(idx, val) } else { r.with_a(idx - 8, val) }
}

pub open spec fn mem_put(m: MemView, addr: u32, size: u32, v: u32) -> MemView {
    if size == 2 { m.write16(addr, v as u16) } else { m.write32(addr, v) }
}

pub open spec fn mem_get(m: MemView, addr: u32, size: u32) -> u32 {
    let v = if size == 2 {
        match m.read16(addr) {
            Some(w) => Some(w as u32),
            None => None,
        }
    } else {
        m.read32(addr)
    };
    match v {
        Some(x) => x,
        None => 0,
    }
}

pub open spec fn bit_set(mask: u16, bit: int) -> bool {
    (mask & (1u16 << (bit as u16))) != 0
}

/// `MOVEM <list>,-(An)` after the first `k` mask bits: bit `b` names
/// register `15 - b`, and each store first lowers the address.
pub open spec fn store_predec(r: Regs, m: MemView, mask: u16, addr: u32, size: u32, k: nat) -> (MemView, u32)
    decreases k,
{
    if k == 0 {
        (m, addr)
    } else {
        let (m1, a1) = store_predec(r, m, mask, addr, size, (k - 1) as nat);
        let bit = k - 1;
        if bit_set(mask, bit) {
            let a2 = a1.wrapping_sub(size);
            (mem_put(m1, a2, size, list_reg(r, 15 - bit)), a2)
        } else {
            (m1, a1)
        }
    }
}

/// `MOVEM <list>,(An)` or `(d16,An)` after the first `k` mask bits: bit `b`
/// names register `b`, stored at rising addresses.
pub open spec fn store_postinc(r: Regs, m: MemView, mask: u16, addr: u32, size: u32, k: nat) -> (MemView, u32)
    decreases k,
{
    if k == 0 {
        (m, addr)
    } else {
        let (m1, a1) = store_postinc(r, m, mask, addr, size, (k - 1) as nat);
        let bit = k - 1;
        if bit_set(mask, bit) {
            (mem_put(m1, a1, size, list_reg(r, bit)), a1.wrapping_add(size))
        } else {
            (m1, a1)
        }
    }
}

/// `MOVEM (An)+,<list>` or `MOVEM (An)/(d16,An),<list>` after the first `k`
/// mask bits; unmapped words load as zero.
pub open spec fn load_list(r: Regs, m: MemView, mask: u16, addr: u32, size: u32, k: nat) -> (Regs, u32)
    decreases k,
{
    if k == 0 {
        (r, addr)
    } else {
        let (r1, a1) = load_list(r, m, mask, addr, size, (k - 1) as nat);
        let bit = k - 1;
        if bit_set(mask, bit) {
            (set_list_reg(r1, bit, mem_get(m, a1, size), size), a1.wrapping_add(size))
        } else {
            (r1, a1)
        }
    }
}

pub open spec fn is_movem(word: u16) -> bool {
    let mode = (word >> 3) & 0x0007;
    ((word & 0xFB80) == 0x4880 || (word & 0xFB80) == 0x4C80) && (mode == 2 || mode == 3 || mode == 4 || mode == 5)
}

/// MOVEM in the forms a Palm prologue and epilogue use: stores to `-(An)`,
/// `(An)` and `(d16,An)`, loads from `(An)+`, `(An)` and `(d16,An)`.
pub open spec fn movem_spec(word: u16, pc: u32, r: Regs, m: MemView) -> (Result<bool, StopReason>, Regs, MemView) {
    let mode = (word >> 3) & 0x0007;
    let reg = (word & 0x0007) as int;
    let to_regs = (word & 0x0400) != 0;
    let size: u32 = if (word & 0x0040) != 0 { 4 } else { 2 };
    if !is_movem(word) {
        (Ok(false), r, m)
    } else {
        match m.read16((pc + 2) as u32) {
            None => (Err(StopReason::OutOfBounds { pc }), r, m),
            Some(mask) => {
                let disp = if mode == 5 {
                    match m.read16(sat_add32(pc, 4)) {
                        Some(w) => sext16(w as int),
                        None => 0,
                    }
                } else {
                    0
                };
                let base = if mode == 5 { add_mod32(r.a[reg], disp) } else { r.a[reg] };
                let (r1, m1) = if !to_regs && mode == 4 {
                    let (m1, a1) = store_predec(r, m, mask, r.a[reg], size, 16);
                    (r.with_a(reg, a1), m1)
                } else if !to_regs && (mode == 2 || mode == 5) {
                    (r, store_postinc(r, m, mask, base, size, 16).0)
                } else if to_regs && mode == 3 {
                    let (r1, a1) = load_list(r, m, mask, r.a[reg], size, 16);
                    (r1.with_a(reg, a1), m)
                } else if to_regs && (mode == 2 || mode == 5) {
                    (load_list(r, m, mask, base, size, 16).0, m)
                } else {
                    (r, m)
                };
                let ext = match ext_words_spec(mode, reg as u16) {
                    Some(w) => w,
                    None => 0,
                };
                (Ok(true), r1.with_pc(sat_add32(pc, (4 + ext * 2) as u32)), m1)
            },
        }
    }
}

fn reg_read(state: &CpuState68k, idx: usize) -> (v: u32)
    requires
        idx < 16,
    ensures
        v == list_reg(regs(*state), idx as int),
{
    if idx < 8 { state.d[idx] } else { state.a[idx - 8] }
}

fn reg_write(state: &mut CpuState68k, idx: usize, v: u32, sz: u32)
    requires
        idx < 16,
    ensures
        regs(*final(state)) == set_list_reg(regs(*old(state)), idx as int, v, sz),
        final(state).call_stack == old(state).call_stack,
{
    proof {
        assert((v as i16) == ((v as u16) as i16)) by (bit_vector);
        lemma_u32_as_u16(v);
        lemma_u16_as_i16(v as u16);
        lemma_i32_as_u32(v as i16 as i32);
    }
    if idx < 8 {
        match sz {
            2 => state.d[idx] = v as i16 as i32 as u32,
            _ => state.d[idx] = v,
        }
    } else {
        // An from word is sign-extended.
        state.a[idx - 8] = match sz {
            2 => v as i16 as i32 as u32,
            _ => v,
        };
    }
}

fn put(memory: &mut MemoryMap, addr: u32, size: u32, v: u32)
    ensures
        final(memory)@ == mem_put(old(memory)@, addr, size, v),
{
    if size == 2 {
        memory.write_u16_be(addr, v as u16);
    } else {
        memory.write_u32_be(addr, v);
    }
}

fn get(memory: &MemoryMap, addr: u32, size: u32) -> (v: u32)
    ensures
        v == mem_get(memory@, addr, size),
{
    let v = if size == 2 {
        match memory.read_u16_be(addr) {
            Some(x) => Some(x as u32),
            None => None,
        }
    } else {
        memory.read_u32_be(addr)
    };
    match v {
        Some(x) => x,
        None => 0,
    }
}


/// Runs `word` at `pc` when it is MOVEM with `(An)`, `(An)+`, `-(An)` or
/// `(d16,An)`.
pub fn execute(
    word: u16,
    pc: u32,
    state: &mut CpuState68k,
    memory: &mut MemoryMap,
) -> (res: Result<bool, StopReason>)
    requires
        is_movem(word) ==> pc <= u32::MAX - 2,
    ensures
        (res, regs(*final(state)), final(memory)@) == movem_spec(word, pc, regs(*old(state)), old(memory)@),
        final(state).call_stack == old(state).call_stack,
{
    // MOVEM.[W/L] subset used by app prolog/epilog.
    // Guard by addressing mode first so EXT.W/EXT.L (0x488x/0x48Cx) are
    // not mis-decoded as MOVEM and accidentally skip the following opcode.
    let movem_mode = (word >> 3) & 0x0007;
    if ((word & 0xFB80) == 0x4880 || (word & 0xFB80) == 0x4C80)
        && (movem_mode == 2 || movem_mode == 3 || movem_mode == 4 || movem_mode == 5)
    {
        let mode = movem_mode;
        let reg = (word & 0x0007) as usize;
        proof { crate::palm::cpu::ea::lemma_opcode_fields(word); }
        let is_mem_to_regs = (word & 0x0400) != 0; // 0x4Cxx direction
        let size_bytes = if (word & 0x0040) != 0 { 4u32 } else { 2u32 };
        let Some(mask) = memory.read_u16_be(pc + 2) else {
            return Err(StopReason::OutOfBounds { pc });
        };

        let pc_ext = pc.saturating_add(4);
        let disp16: Option<i32> = if mode == 5 {
            match memory.read_u16_be(pc_ext) {
                Some(v) => {
                    proof { lemma_u16_as_i16(v); }
                    Some((v as i16) as i32)
                },
                None => None,
            }
        } else {
            None
        };
        let base = if mode == 5 {
            let d = match disp16 {
                Some(d) => d,
                None => 0,
            };
            add_signed_u32(state.a[reg], d)
        } else {
            state.a[reg]
        };
        let ghost r0 = regs(*state);
        let ghost m0 = memory@;

        if !is_mem_to_regs && mode == 4 {
            // MOVEM <reglist>,-(An)
            let mut addr = state.a[reg];
            // For predecrement register->memory, MOVEM uses reversed
            // register mask encoding (bit 0 => A7 ... bit 15 => D0).
            // Iterate mask bits ascending so transfer order matches 68k.
            for bit in 0..16usize
                invariant
                    regs(*state) == r0,
                    state.call_stack == old(state).call_stack,
                    reg < 8,
                    (memory@, addr) == store_predec(r0, m0, mask, r0.a[reg as int], size_bytes, bit as nat),
            {
                let b = bit as u16;
                if (mask & (1u16 << b)) != 0 {
                    let idx = 15usize - bit;
                    let v = reg_read(state, idx);
                    addr = addr.wrapping_sub(size_bytes);
                    put(memory, addr, size_bytes, v);
                }
            }
            state.a[reg] = addr;
        } else if !is_mem_to_regs && (mode == 2 || mode == 5) {
            // MOVEM <reglist>,(An) or (d16,An)
            let mut addr = base;
            for idx in 0..16usize
                invariant
                    regs(*state) == r0,
                    state.call_stack == old(state).call_stack,
                    (memory@, addr) == store_postinc(r0, m0, mask, base, size_bytes, idx as nat),
            {
                let b = idx as u16;
                if (mask & (1u16 << b)) != 0 {
                    let v = reg_read(state, idx);
                    put(memory, addr, size_bytes, v);
                    addr = addr.wrapping_add(size_bytes);
                }
            }
        } else if is_mem_to_regs && mode == 3 {
            // MOVEM (An)+,<reglist>
            let mut addr = state.a[reg];
            for idx in 0..16usize
                invariant
                    memory@ == m0,
                    state.call_stack == old(state).call_stack,
                    reg < 8,
                    (regs(*state), addr) == load_list(r0, m0, mask, r0.a[reg as int], size_bytes, idx as nat),
            {
                let b = idx as u16;
                if (mask & (1u16 << b)) != 0 {
                    let v = get(memory, addr, size_bytes);
                    reg_write(state, idx, v, size_bytes);
                    addr = addr.wrapping_add(size_bytes);
                }
            }
            state.a[reg] = addr;
        } else if is_mem_to_regs && (mode == 2 || mode == 5) {
            // MOVEM (An) or (d16,An),<reglist>
            let mut addr = base;
            for idx in 0..16usize
                invariant
                    memory@ == m0,
                    state.call_stack == old(state).call_stack,
                    (regs(*state), addr) == load_list(r0, m0, mask, base, size_bytes, idx as nat),
            {
                let b = idx as u16;
                if (mask & (1u16 << b)) != 0 {
                    let v = get(memory, addr, size_bytes);
                    reg_write(state, idx, v, size_bytes);
                    addr = addr.wrapping_add(size_bytes);
                }
            }
        }
        let ext_words = match ea_ext_words(mode, reg as u16) {
            Some(w) => w,
            None => 0,
        };
        state.pc = pc.saturating_add(4 + ext_words * 2);
        return Ok(true);
    }

    Ok(false)
}

/// An EXT.W or EXT.L word (data-register mode) is no MOVEM: it is left for
/// the next group, with nothing changed.
pub proof fn lemma_ext_is_not_movem(word: u16, pc: u32, r: Regs, m: MemView)
    requires
        (word & 0xFFF8) == 0x4880 || (word & 0xFFF8) == 0x48C0,
    ensures
        movem_spec(word, pc, r, m) == (Ok::<bool, StopReason>(false), r, m),
{
    assert(((word & 0xFFF8) == 0x4880 || (word & 0xFFF8) == 0x48C0) ==> (word >> 3) & 0x0007 == 0) by (bit_vector);
}

proof fn lemma_round_trip_words()
    by (bit_vector)
    ensures
        forall|b: u16| b < 14 ==> #[trigger] (0xC000u16 & (1u16 << b)) == 0,
        (0xC000u16 & (1u16 << 14u16)) != 0,
        (0xC000u16 & (1u16 << 15u16)) != 0,
        forall|b: u16| 2 <= b < 16 ==> #[trigger] (0x0003u16 & (1u16 << b)) == 0,
        (0x0003u16 & (1u16 << 0u16)) != 0,
        (0x0003u16 & (1u16 << 1u16)) != 0,
        (0x48E7u16 & 0xFB80) == 0x4880,
        (0x48E7u16 >> 3) & 0x0007 == 4,
        0x48E7u16 & 0x0007 == 7,
        (0x48E7u16 & 0x0400) == 0,
        (0x48E7u16 & 0x0040) != 0,
        (0x4CDFu16 & 0xFB80) == 0x4880,
        (0x4CDFu16 >> 3) & 0x0007 == 3,
        0x4CDFu16 & 0x0007 == 7,
        (0x4CDFu16 & 0x0400) != 0,
        (0x4CDFu16 & 0x0040) != 0,
{
}

proof fn lemma_store_predec_none(r: Regs, m: MemView, mask: u16, addr: u32, size: u32, k: nat)
    requires
        forall|b: int| 0 <= b < k ==> !#[trigger] bit_set(mask, b),
    ensures
        store_predec(r, m, mask, addr, size, k) == (m, addr),
    decreases k,
{
    if k > 0 {
        lemma_store_predec_none(r, m, mask, addr, size, (k - 1) as nat);
        assert(!bit_set(mask, k - 1));
    }
}

proof fn lemma_load_list_skip(r: Regs, m: MemView, mask: u16, addr: u32, size: u32, j: nat, k: nat)
    requires
        j <= k,
        forall|b: int| j <= b < k ==> !#[trigger] bit_set(mask, b),
    ensures
        load_list(r, m, mask, addr, size, k) == load_list(r, m, mask, addr, size, j),
    decreases k,
{
    if k > j {
        lemma_load_list_skip(r, m, mask, addr, size, j, (k - 1) as nat);
        assert(!bit_set(mask, k - 1));
    }
}

proof fn lemma_write32_disjoint(m: MemView, a: u32, v: u32, b: u32)
    requires
        a + 4 <= b || b + 4 <= a,
    ensures
        m.write32(a, v).read32(b) == m.read32(b),
{
}

/// Pushing D0 and D1 with `MOVEM.L D0-D1,-(A7)` and popping them with
/// `MOVEM.L (A7)+,D0-D1` gives both registers and the stack pointer back,
/// whatever the registers hold in between.
pub proof fn lemma_movem_push_pop_round_trip(pc: u32, pc2: u32, r: Regs, m: MemView, mid: Regs)
    requires
        r.d.len() == 8,
        r.a.len() == 8,
        mid.d.len() == 8,
        mid.a.len() == 8,
        pc <= u32::MAX - 4,
        pc2 <= u32::MAX - 4,
        m.read16((pc + 2) as u32) == Some(0xC000u16),
        r.a[7] >= 8,
        m.mapped((r.a[7] - 8) as u32, 8),
        mid.a[7] == movem_spec(0x48E7, pc, r, m).1.a[7],
        movem_spec(0x48E7, pc, r, m).2.read16((pc2 + 2) as u32) == Some(0x0003u16),
    ensures
        ({
            let (res1, r1, m1) = movem_spec(0x48E7, pc, r, m);
            let (res2, r2, m2) = movem_spec(0x4CDF, pc2, mid, m1);
            &&& res1 == Ok::<bool, StopReason>(true)
            &&& r1.a[7] == r.a[7] - 8
            &&& m1.read32((r.a[7] - 8) as u32) == Some(r.d[0])
            &&& m1.read32((r.a[7] - 4) as u32) == Some(r.d[1])
            &&& r1.pc == pc + 4
            &&& res2 == Ok::<bool, StopReason>(true)
            &&& r2.d[0] == r.d[0]
            &&& r2.d[1] == r.d[1]
            &&& r2.a[7] == r.a[7]
            &&& r2.pc == pc2 + 4
            &&& m2 == m1
        }),
{
    lemma_round_trip_words();
    let s = r.a[7];
    let hi: u16 = 0xC000;
    let lo: u16 = 0x0003;
    assert forall|b: int| 0 <= b < 14 implies !#[trigger] bit_set(hi, b) by {
        assert((hi & (1u16 << (b as u16))) == 0);
    }
    assert(bit_set(hi, 14));
    assert(bit_set(hi, 15));
    assert forall|b: int| 2 <= b < 16 implies !#[trigger] bit_set(lo, b) by {
        assert((lo & (1u16 << (b as u16))) == 0);
    }
    assert(bit_set(lo, 0));
    assert(bit_set(lo, 1));
    assert(is_movem(0x48E7));
    assert(is_movem(0x4CDF));
    lemma_store_predec_none(r, m, hi, s, 4, 14);
    reveal_with_fuel(store_predec, 3);
    let m_a = m.write32((s - 4) as u32, r.d[1]);
    let m1 = m_a.write32((s - 8) as u32, r.d[0]);
    assert(store_predec(r, m, hi, s, 4, 16) == (m1, (s - 8) as u32));
    crate::palm::cpu::memory::lemma_write32_read32(m_a, (s - 8) as u32, r.d[0]);
    crate::palm::cpu::memory::lemma_write32_read32(m, (s - 4) as u32, r.d[1]);
    lemma_write32_disjoint(m_a, (s - 8) as u32, r.d[0], (s - 4) as u32);
    assert(m1.read32((s - 8) as u32) == Some(r.d[0]));
    assert(m1.read32((s - 4) as u32) == Some(r.d[1]));
    lemma_load_list_skip(mid, m1, lo, (s - 8) as u32, 4, 2, 16);
    reveal_with_fuel(load_list, 3);
}

} // verus!
