//! Which Palm OS system traps the runtime answers itself, and the stubs of
//! the feature manager (`FtrSet`, `FtrGet`), the clock (`SysTicksPerSecond`,
//! `TimGetTicks`, `TimGetSeconds`), `SysRandom` and `StrLen`, with the
//! record of stubbed traps.
use vstd::prelude::*;
use crate::palm::cpu::ea::{regs, sat_add32, Regs};
use crate::palm::cpu::memory::{MemView, MemoryMap};
use crate::palm::cpu::state::CpuState68k;
use crate::palm::trap_stub::heap::MemBlock;

pub mod dispatch;
pub mod heap;
pub mod misc;

verus! {

/// Whether the runtime handles the trap `trap_word` itself: every word of
/// the system trap range `0xA000..=0xAFFF`.
pub fn is_prc_runtime_trap_handled(trap_word: u16) -> (r: bool)
    ensures
        r == (0xA000 <= trap_word <= 0xAFFF),
{
    if 0xA000 <= trap_word && trap_word <= 0xAFFF {
        return true;
    }
    // The traps with a dedicated stub; all of them lie in the range above.
    trap_word == 0xA08F // SysAppStartup
        || trap_word == 0xA090 // SysAppExit
        || trap_word == 0xA0C2 // SysRandom
        || trap_word == 0xA0A9 // SysHandleEvent
        || trap_word == 0xA0BA // SysLibFind
        || trap_word == 0xA2AC // SysLibLoad
        || trap_word == 0xA0C5 // StrCopy
        || trap_word == 0xA0C7 // StrLen
        || trap_word == 0xA0F7 // TimGetTicks
        || trap_word == 0xA11D // EvtGetEvent
        || trap_word == 0xA060 // DmGet1Resource
        || trap_word == 0xA01E // MemHandleNew
        || trap_word == 0xA021 // MemHandleLock
        || trap_word == 0xA022 // MemHandleUnlock
        || trap_word == 0xA02B // MemHandleFree
        || trap_word == 0xA027 // MemSet
        || trap_word == 0xA013 // MemPtrNew
        || trap_word == 0xA05F // DmGetResource
        || trap_word == 0xA226 // WinDrawBitmap
        || trap_word == 0xA234 // SndPlaySystemSound
        || trap_word == 0xA27B // FtrGet
        || trap_word == 0xA27C // FtrSet
        || trap_word == 0xA2E9 // SysTicksPerSecond
        || trap_word == 0xA061 // DmReleaseResource
        || trap_word == 0xA16F // FrmInitForm
        || trap_word == 0xA171 // FrmDrawForm
        || trap_word == 0xA173 // FrmGetActiveForm
        || trap_word == 0xA174 // FrmSetActiveForm
        || trap_word == 0xA178 // FrmGetFocus
        || trap_word == 0xA179 // FrmSetFocus
        || trap_word == 0xA180 // FrmGetObjectIndex
        || trap_word == 0xA183 // FrmGetObjectPtr
        || trap_word == 0xA195 // FrmHelp
        || trap_word == 0xA19F // FrmSetEventHandler
        || trap_word == 0xA1BF // MenuHandleEvent
        || trap_word == 0xA200 // WinGetDisplayWindow
        || trap_word == 0xA456 // WinGetBounds
        || trap_word == 0xA163 // FntGetFont
        || trap_word == 0xA164 // FntSetFont
        || trap_word == 0xA167 // FntCharHeight
        || trap_word == 0xA16B // FntCharsWidth
        || trap_word == 0xA16D // FntCharsInWidth
        || trap_word == 0xA153 // FldGetTextHandle
        || trap_word == 0xA158 // FldSetTextHandle
        || trap_word == 0xA135 // FldDrawField
        || trap_word == 0xA19B // FrmGotoForm
        || trap_word == 0xA1A1 // FrmCloseAllForms
        || trap_word == 0xA1A0 // FrmDispatchEvent
        || trap_word == 0xA9F0 // libTrapDispatch
}

/// A value that an application stored with `FtrSet`, under its creator and number.
#[derive(Clone, Copy, Debug, PartialEq, Eq, Structural)]
pub struct FeatureEntry {
    pub creator: u32,
    pub num: u16,
    pub value: u32,
}

/// What the trap stubs keep between calls: the traps that fell to a stub,
/// in the order first seen, and the feature store.
pub struct PrcRuntimeContext {
    pub default_stubbed_traps: Vec<u16>,
    pub features: Vec<FeatureEntry>,
    /// State of the `SysRandom` generator.
    pub rand_state: u32,
    /// System ticks (a hundred a second).
    pub ticks: u32,
    /// The form on screen.
    pub active_form_id: Option<u16>,
    /// The forms that popups return to, innermost last.
    pub form_return_stack: Vec<u16>,
    /// Events waiting for the application.
    pub event_queue: Vec<RuntimeEvent>,
    /// Whether the first form's open event has gone out.
    pub startup_open_dispatched: bool,
    /// The handle of the form on screen.
    pub active_form_handle: u32,
    /// The field of that form with the focus.
    pub focused_field_index: Option<usize>,
    /// Whether the application asked to exit.
    pub shutting_down: bool,
    /// The font the application last chose.
    pub current_font: u16,
    /// The blocks of the dynamic heap.
    pub mem_blocks: Vec<MemBlock>,
    /// The handle the next block gets.
    pub next_handle: u32,
    /// Where the next block is placed.
    pub next_ptr: u32,
}

/// An event waiting for the application: its type and a 16-bit datum.
#[derive(Clone, Copy, Debug, PartialEq, Eq, Structural)]
pub struct RuntimeEvent {
    pub e_type: u16,
    pub data_u16: u16,
}

/// Palm OS `frmLoadEvent`.
pub const EVT_FRM_LOAD: u16 = 23;
/// Palm OS `frmOpenEvent`.
pub const EVT_FRM_OPEN: u16 = 24;

/// `list` with `trap_word` at its end, unless it is there already.
pub open spec fn add_once(list: Seq<u16>, trap_word: u16) -> Seq<u16> {
    if list.contains(trap_word) { list } else { list.push(trap_word) }
}

/// The first feature at or after `i` stored under `creator` and `num`.
pub open spec fn find_feature(fs: Seq<FeatureEntry>, creator: u32, num: u16, i: int) -> Option<int>
    decreases fs.len() - i,
{
    if i < 0 || i >= fs.len() {
        None
    } else if fs[i].creator == creator && fs[i].num == num {
        Some(i)
    } else {
        find_feature(fs, creator, num, i + 1)
    }
}

/// The value stored under `creator` and `num`, if any.
pub open spec fn ftr_lookup(fs: Seq<FeatureEntry>, creator: u32, num: u16) -> Option<u32> {
    match find_feature(fs, creator, num, 0) {
        Some(i) => Some(fs[i].value),
        None => None,
    }
}

/// The store after `value` is set under `creator` and `num`: the first
/// matching entry takes the value, or a new entry goes at the end.
pub open spec fn ftr_set_spec(fs: Seq<FeatureEntry>, creator: u32, num: u16, value: u32) -> Seq<FeatureEntry> {
    match find_feature(fs, creator, num, 0) {
        Some(i) => fs.update(i, FeatureEntry { value, ..fs[i] }),
        None => fs.push(FeatureEntry { creator, num, value }),
    }
}

pub open spec fn or_u32(v: Option<u32>, d: u32) -> u32 {
    match v {
        Some(x) => x,
        None => d,
    }
}

/// The creator argument of a feature trap: the long at the stack pointer,
/// or D0.
pub open spec fn ftr_creator(r: Regs, m: MemView) -> u32 {
    or_u32(m.read32(r.a[7]), r.d[0])
}

/// The feature-number argument: the word four bytes up the stack, or the
/// low word of D1.
pub open spec fn ftr_num(r: Regs, m: MemView) -> u16 {
    match m.read16(sat_add32(r.a[7], 4)) {
        Some(v) => v,
        None => r.d[1] as u16,
    }
}

/// The third argument: the long six bytes up the stack, or eight bytes up,
/// or `fallback`.
pub open spec fn ftr_third(r: Regs, m: MemView, fallback: u32) -> u32 {
    or_u32(m.read32(sat_add32(r.a[7], 6)), or_u32(m.read32(sat_add32(r.a[7], 8)), fallback))
}

pub open spec fn max_u32(a: u32, b: u32) -> u32 {
    if a >= b { a } else { b }
}

/// `'psys'`, the system's creator.
pub const SYS_CREATOR: u32 = 0x7073_7973;
/// `'gdbS'`, the Graffiti database's creator.
pub const GDBS_CREATOR: u32 = 0x6764_6253;

/// What `FtrGet` finds for `creator` and `num`: the stored value with
/// error 0; else the ROM version `0x0500_0000` for system feature 1, 0 for
/// any Graffiti feature (both error 0), and 0 with error 1 for the rest.
pub open spec fn ftr_get_result(fs: Seq<FeatureEntry>, creator: u32, num: u16) -> (u32, u32) {
    match ftr_lookup(fs, creator, num) {
        Some(v) => (v, 0),
        None => if creator == SYS_CREATOR && num == 1 {
            (0x0500_0000, 0)
        } else if creator == GDBS_CREATOR {
            (0, 0)
        } else {
            (0, 1)
        },
    }
}

/// Records that `trap_word` fell to a stub: it joins the list once.
pub fn note_stubbed_trap(runtime: &mut PrcRuntimeContext, trap_word: u16)
    ensures
        final(runtime).default_stubbed_traps@ == add_once(old(runtime).default_stubbed_traps@, trap_word),
        *final(runtime) == (PrcRuntimeContext { default_stubbed_traps: final(runtime).default_stubbed_traps, ..*old(runtime) }),
{
    let mut i: usize = 0;
    while i < runtime.default_stubbed_traps.len()
        invariant
            i <= runtime.default_stubbed_traps@.len(),
            *runtime == *old(runtime),
            forall|j: int| 0 <= j < i ==> runtime.default_stubbed_traps@[j] != trap_word,
        decreases runtime.default_stubbed_traps@.len() - i,
    {
        if runtime.default_stubbed_traps[i] == trap_word {
            proof { assert(runtime.default_stubbed_traps@.contains(trap_word)); }
            return;
        }
        i += 1;
    }
    proof {
        assert(!runtime.default_stubbed_traps@.contains(trap_word));
    }
    runtime.default_stubbed_traps.push(trap_word);
}

/// The index of the first feature stored under `creator` and `num`.
fn find_feature_index(fs: &Vec<FeatureEntry>, creator: u32, num: u16) -> (r: Option<usize>)
    ensures
        match r {
            Some(i) => i < fs@.len() && find_feature(fs@, creator, num, 0) == Some(i as int),
            None => find_feature(fs@, creator, num, 0) is None,
        },
{
    let mut i: usize = 0;
    while i < fs.len()
        invariant
            i <= fs@.len(),
            find_feature(fs@, creator, num, 0) == find_feature(fs@, creator, num, i as int),
        decreases fs@.len() - i,
    {
        if fs[i].creator == creator && fs[i].num == num {
            return Some(i);
        }
        i += 1;
    }
    None
}

/// The `FtrSet` trap: stores the value under the creator and number read
/// from the stack (see [`ftr_creator`], [`ftr_num`], [`ftr_third`], the
/// value falling back to the larger of A0 and D2) and returns error 0 in D0.
pub fn ftr_set_trap(cpu: &mut CpuState68k, runtime: &mut PrcRuntimeContext, memory: &MemoryMap)
    ensures
        ({
            let r = regs(*old(cpu));
            let m = memory@;
            let value = ftr_third(r, m, max_u32(r.a[0], r.d[2]));
            final(runtime).features@ == ftr_set_spec(old(runtime).features@, ftr_creator(r, m), ftr_num(r, m), value)
        }),
        *final(runtime) == (PrcRuntimeContext { features: final(runtime).features, ..*old(runtime) }),
        regs(*final(cpu)) == regs(*old(cpu)).with_d(0, 0),
        final(cpu).call_stack == old(cpu).call_stack,
{
    let sp = cpu.a[7];
    let creator = match memory.read_u32_be(sp) {
        Some(v) => v,
        None => cpu.d[0],
    };
    let num = match memory.read_u16_be(sp.saturating_add(4)) {
        Some(v) => v,
        None => cpu.d[1] as u16,
    };
    let value = match memory.read_u32_be(sp.saturating_add(6)) {
        Some(v) => v,
        None => match memory.read_u32_be(sp.saturating_add(8)) {
            Some(v) => v,
            None => if cpu.a[0] >= cpu.d[2] { cpu.a[0] } else { cpu.d[2] },
        },
    };
    match find_feature_index(&runtime.features, creator, num) {
        Some(i) => {
            let f = runtime.features[i];
            runtime.features.set(i, FeatureEntry { value, ..f });
        },
        None => {
            runtime.features.push(FeatureEntry { creator, num, value });
        },
    }
    cpu.d[0] = 0;
}

/// The `FtrGet` trap: writes what [`ftr_get_result`] finds for the creator
/// and number read from the stack to the pointer argument (falling back to
/// A0; a pointer outside memory writes nothing) and returns its error in D0.
pub fn ftr_get_trap(cpu: &mut CpuState68k, runtime: &PrcRuntimeContext, memory: &mut MemoryMap)
    ensures
        ({
            let r = regs(*old(cpu));
            let m = old(memory)@;
            let (value, err) = ftr_get_result(runtime.features@, ftr_creator(r, m), ftr_num(r, m));
            &&& final(memory)@ == m.write32(ftr_third(r, m, r.a[0]), value)
            &&& regs(*final(cpu)) == r.with_d(0, err)
        }),
        final(cpu).call_stack == old(cpu).call_stack,
{
    let sp = cpu.a[7];
    let creator = match memory.read_u32_be(sp) {
        Some(v) => v,
        None => cpu.d[0],
    };
    let num = match memory.read_u16_be(sp.saturating_add(4)) {
        Some(v) => v,
        None => cpu.d[1] as u16,
    };
    let value_p = match memory.read_u32_be(sp.saturating_add(6)) {
        Some(v) => v,
        None => match memory.read_u32_be(sp.saturating_add(8)) {
            Some(v) => v,
            None => cpu.a[0],
        },
    };
    match find_feature_index(&runtime.features, creator, num) {
        Some(i) => {
            memory.write_u32_be(value_p, runtime.features[i].value);
            cpu.d[0] = 0;
        },
        None => {
            if creator == SYS_CREATOR && num == 1 {
                memory.write_u32_be(value_p, 0x0500_0000);
                cpu.d[0] = 0;
            } else if creator == GDBS_CREATOR {
                memory.write_u32_be(value_p, 0);
                cpu.d[0] = 0;
            } else {
                memory.write_u32_be(value_p, 0);
                cpu.d[0] = 1;
            }
        },
    }
}

proof fn lemma_find_feature_update(fs: Seq<FeatureEntry>, creator: u32, num: u16, i: int, k: int, value: u32)
    requires
        0 <= i <= k < fs.len(),
        fs[k].creator == creator && fs[k].num == num,
        find_feature(fs, creator, num, i) == Some(k),
    ensures
        find_feature(fs.update(k, FeatureEntry { value, ..fs[k] }), creator, num, i) == Some(k),
    decreases k - i,
{
    let u = fs.update(k, FeatureEntry { value, ..fs[k] });
    if i < k {
        assert(!(fs[i].creator == creator && fs[i].num == num));
        assert(u[i] == fs[i]);
        lemma_find_feature_update(fs, creator, num, i + 1, k, value);
    } else {
        assert(u[k].creator == creator && u[k].num == num);
    }
}

proof fn lemma_find_feature_push(fs: Seq<FeatureEntry>, e: FeatureEntry, i: int)
    requires
        0 <= i <= fs.len(),
        find_feature(fs, e.creator, e.num, i) is None,
    ensures
        find_feature(fs.push(e), e.creator, e.num, i) == Some(fs.len() as int),
    decreases fs.len() - i,
{
    if i < fs.len() {
        lemma_find_feature_push(fs, e, i + 1);
    }
}

/// A value set under a creator and number is what a lookup of them finds.
pub proof fn lemma_ftr_set_then_get(fs: Seq<FeatureEntry>, creator: u32, num: u16, value: u32)
    ensures
        ftr_lookup(ftr_set_spec(fs, creator, num, value), creator, num) == Some(value),
        ftr_get_result(ftr_set_spec(fs, creator, num, value), creator, num) == (value, 0u32),
{
    match find_feature(fs, creator, num, 0) {
        Some(k) => {
            lemma_find_feature_found(fs, creator, num, 0);
            lemma_find_feature_update(fs, creator, num, 0, k, value);
        },
        None => {
            lemma_find_feature_push(fs, FeatureEntry { creator, num, value }, 0);
        },
    }
}

proof fn lemma_find_feature_found(fs: Seq<FeatureEntry>, creator: u32, num: u16, i: int)
    requires
        0 <= i,
    ensures
        find_feature(fs, creator, num, i) matches Some(k) ==> i <= k < fs.len() && fs[k].creator == creator
            && fs[k].num == num,
    decreases fs.len() - i,
{
    if i < fs.len() && !(fs[i].creator == creator && fs[i].num == num) {
        lemma_find_feature_found(fs, creator, num, i + 1);
    }
}

/// `FtrSet` followed by `FtrGet` with the same creator and number on the
/// stack writes the value that was set and returns error 0.
pub proof fn lemma_ftr_set_then_get_traps(fs: Seq<FeatureEntry>, r1: Regs, m1: MemView, r2: Regs, m2: MemView)
    requires
        ftr_creator(r1, m1) == ftr_creator(r2, m2),
        ftr_num(r1, m1) == ftr_num(r2, m2),
    ensures
        ({
            let value = ftr_third(r1, m1, max_u32(r1.a[0], r1.d[2]));
            let fs1 = ftr_set_spec(fs, ftr_creator(r1, m1), ftr_num(r1, m1), value);
            ftr_get_result(fs1, ftr_creator(r2, m2), ftr_num(r2, m2)) == (value, 0u32)
        }),
{
    lemma_ftr_set_then_get(fs, ftr_creator(r1, m1), ftr_num(r1, m1), ftr_third(r1, m1, max_u32(r1.a[0], r1.d[2])));
}

/// `SysTicksPerSecond`: 100 in the low word of D0, the high word kept.
pub fn ticks_per_second_trap(cpu: &mut CpuState68k)
    ensures
        regs(*final(cpu)) == regs(*old(cpu)).with_d(0, (old(cpu).d[0] & 0xFFFF_0000) | 100),
        final(cpu).call_stack == old(cpu).call_stack,
{
    cpu.d[0] = (cpu.d[0] & 0xFFFF_0000) | 100;
}

/// `TimGetTicks` (`seconds` false) returns the ticks in D0; `TimGetSeconds`
/// returns them divided by a hundred.
pub fn time_trap(cpu: &mut CpuState68k, runtime: &PrcRuntimeContext, seconds: bool)
    ensures
        regs(*final(cpu)) == regs(*old(cpu)).with_d(0, if seconds { runtime.ticks / 100 } else { runtime.ticks }),
        final(cpu).call_stack == old(cpu).call_stack,
{
    cpu.d[0] = if seconds { runtime.ticks / 100 } else { runtime.ticks };
}

/// The generator's next state from `state`: `state * 1664525 + 1013904223`
/// modulo 2^32.
pub open spec fn rand_next(state: u32) -> u32 {
    state.wrapping_mul(1_664_525).wrapping_add(1_013_904_223)
}

/// `SysRandom(newSeed)`: a non-zero seed (the long at the stack pointer, or
/// D0) replaces the state, the state steps once, and the low word of D0
/// gets `(state & 0x7FFF_FFFF) % 0x7FFF` with its high word kept.
pub fn sys_random_trap(cpu: &mut CpuState68k, runtime: &mut PrcRuntimeContext, memory: &MemoryMap)
    ensures
        ({
            let r = regs(*old(cpu));
            let seed = or_u32(memory@.read32(r.a[7]), r.d[0]);
            let start = if seed != 0 { seed } else { old(runtime).rand_state };
            let st = rand_next(start);
            &&& final(runtime).rand_state == st
            &&& regs(*final(cpu)) == r.with_d(0, (r.d[0] & 0xFFFF_0000) | (((st & 0x7FFF_FFFF) % 0x7FFF) & 0xFFFF))
        }),
        *final(runtime) == (PrcRuntimeContext { rand_state: final(runtime).rand_state, ..*old(runtime) }),
        final(cpu).call_stack == old(cpu).call_stack,
{
    let sp = cpu.a[7];
    let new_seed = match memory.read_u32_be(sp) {
        Some(v) => v,
        None => cpu.d[0],
    };
    if new_seed != 0 {
        runtime.rand_state = new_seed;
    }
    runtime.rand_state = runtime.rand_state.wrapping_mul(1_664_525).wrapping_add(1_013_904_223);
    let rnd15 = (runtime.rand_state & 0x7FFF_FFFF) % 0x7FFF;
    cpu.d[0] = (cpu.d[0] & 0xFFFF_0000) | (rnd15 & 0xFFFF);
}

/// Whether `addr` is a mapped byte.
pub open spec fn contains_addr(m: MemView, addr: u32) -> bool {
    m.mapped(addr, 1)
}

/// A pointer argument `off` bytes up the stack: the long there when it
/// points into memory, else its low 24 bits when they do; a long that fits
/// a signed or unsigned 16-bit offset is tried against A6 (signed first);
/// otherwise the long as it is.
pub open spec fn ptr_arg_spec(r: Regs, m: MemView, off: u32) -> u32 {
    let raw_full = or_u32(m.read32(sat_add32(r.a[7], off)), 0);
    let raw = raw_full & 0x00FF_FFFF;
    let low = (raw_full & 0xFFFF) as u16;
    let signed_candidate = if low >= 0x8000 {
        r.a[6].wrapping_sub((0x1_0000 - low) as u32)
    } else {
        r.a[6].wrapping_add(low as u32)
    };
    let unsigned_candidate = r.a[6].wrapping_add(low as u32);
    let short = raw_full <= 0xFFFF || (raw_full & 0xFFFF_0000) == 0xFFFF_0000;
    if raw_full != 0 && contains_addr(m, raw_full) {
        raw_full
    } else if raw != 0 && contains_addr(m, raw) {
        raw
    } else if short && signed_candidate != 0 && contains_addr(m, signed_candidate) {
        signed_candidate
    } else if short && unsigned_candidate != 0 && contains_addr(m, unsigned_candidate) {
        unsigned_candidate
    } else {
        raw_full
    }
}

fn ptr_arg(cpu: &CpuState68k, memory: &MemoryMap, off: u32) -> (p: u32)
    ensures
        p == ptr_arg_spec(regs(*cpu), memory@, off),
{
    let sp = cpu.a[7];
    let raw_full = match memory.read_u32_be(sp.saturating_add(off)) {
        Some(v) => v,
        None => 0,
    };
    if raw_full != 0 && memory.read_u8(raw_full).is_some() {
        return raw_full;
    }
    let raw = raw_full & 0x00FF_FFFF;
    if raw != 0 && memory.read_u8(raw).is_some() {
        return raw;
    }
    if raw_full <= 0xFFFF || (raw_full & 0xFFFF_0000) == 0xFFFF_0000 {
        let low = (raw_full & 0xFFFF) as u16;
        let signed_candidate = if low >= 0x8000 {
            cpu.a[6].wrapping_sub((0x1_0000 - low as u32) as u32)
        } else {
            cpu.a[6].wrapping_add(low as u32)
        };
        if signed_candidate != 0 && memory.read_u8(signed_candidate).is_some() {
            return signed_candidate;
        }
        let unsigned_candidate = cpu.a[6].wrapping_add(low as u32);
        if unsigned_candidate != 0 && memory.read_u8(unsigned_candidate).is_some() {
            return unsigned_candidate;
        }
    }
    raw_full
}

/// Length of the NUL-ended string at `ptr` as `StrLen` reads it: at most
/// 512 bytes, stopping at a NUL or at the end of memory (the address
/// saturating at the top).
pub open spec fn c_string_len(m: MemView, ptr: u32, i: nat) -> nat
    decreases 512 - i,
{
    if ptr == 0 || i >= 512 {
        i
    } else {
        match m.read8(sat_add32(ptr, i as u32)) {
            None => i,
            Some(b) => if b == 0 { i } else { c_string_len(m, ptr, i + 1) },
        }
    }
}

/// `StrLen`: D0 gets the length of the string that the first stack argument
/// points to (see [`ptr_arg_spec`]; a null pointer falls back to the larger
/// of A0 and D0).
pub fn str_len_trap(cpu: &mut CpuState68k, memory: &MemoryMap)
    ensures
        ({
            let r = regs(*old(cpu));
            let p = ptr_arg_spec(r, memory@, 0);
            let ptr = if p != 0 { p } else { max_u32(r.a[0], r.d[0]) };
            regs(*final(cpu)) == r.with_d(0, c_string_len(memory@, ptr, 0) as u32)
        }),
        final(cpu).call_stack == old(cpu).call_stack,
{
    let p = ptr_arg(cpu, memory, 0);
    let ptr = if p != 0 { p } else if cpu.a[0] >= cpu.d[0] { cpu.a[0] } else { cpu.d[0] };
    let mut n: u32 = 0;
    let mut done = ptr == 0;
    while !done && n < 512
        invariant
            n <= 512,
            ptr == 0 ==> done,
            done ==> c_string_len(memory@, ptr, n as nat) == n,
            c_string_len(memory@, ptr, 0) == c_string_len(memory@, ptr, n as nat),
        decreases 512 - n + (if done { 0int } else { 1int }),
    {
        match memory.read_u8(ptr.saturating_add(n)) {
            None => {
                done = true;
            },
            Some(b) => {
                if b == 0 {
                    done = true;
                } else {
                    n += 1;
                }
            },
        }
    }
    cpu.d[0] = n;
}

/// The queue after a transition to `form_id`: its load and open events at
/// the end; nothing for form 0.
pub open spec fn transition_events(q: Seq<RuntimeEvent>, form_id: u16) -> Seq<RuntimeEvent> {
    if form_id == 0 {
        q
    } else {
        q.push(RuntimeEvent { e_type: EVT_FRM_LOAD, data_u16: form_id }).push(
            RuntimeEvent { e_type: EVT_FRM_OPEN, data_u16: form_id },
        )
    }
}

pub(crate) fn queue_form_transition(runtime: &mut PrcRuntimeContext, form_id: u16)
    ensures
        final(runtime).event_queue@ == transition_events(old(runtime).event_queue@, form_id),
        *final(runtime) == (PrcRuntimeContext {
            event_queue: final(runtime).event_queue,
            startup_open_dispatched: if form_id == 0 { old(runtime).startup_open_dispatched } else { false },
            ..*old(runtime)
        }),
{
    if form_id == 0 {
        return;
    }
    runtime.event_queue.push(RuntimeEvent { e_type: EVT_FRM_LOAD, data_u16: form_id });
    runtime.event_queue.push(RuntimeEvent { e_type: EVT_FRM_OPEN, data_u16: form_id });
    runtime.startup_open_dispatched = false;
}

/// The form-id argument of a form trap: the word at the stack pointer, or 0.
pub open spec fn form_arg(r: Regs, m: MemView) -> u16 {
    match m.read16(r.a[7]) {
        Some(v) => v,
        None => 0,
    }
}

/// Whether the queue holds a form load or open event.
pub open spec fn has_form_transition(q: Seq<RuntimeEvent>) -> bool {
    exists|i: int| 0 <= i < q.len() && (#[trigger] q[i].e_type == EVT_FRM_LOAD || q[i].e_type == EVT_FRM_OPEN)
}

/// The form handle argument of `FrmSetActiveForm`: the long at the stack
/// pointer, or 0.
pub open spec fn form_handle_arg(r: Regs, m: MemView) -> u32 {
    or_u32(m.read32(r.a[7]), 0)
}

/// `FrmSetActiveForm(formP)`: a non-null handle becomes the active form,
/// whose id is its low word; the field focus is dropped, the open event is
/// due again, and when no form transition is queued, a non-zero form's load
/// and open events are queued. The registers are left as they are.
pub fn form_set_active_trap(cpu: &CpuState68k, runtime: &mut PrcRuntimeContext, memory: &MemoryMap)
    ensures
        ({
            let h = form_handle_arg(regs(*cpu), memory@);
            let fid = (h & 0xFFFF) as u16;
            let q = old(runtime).event_queue@;
            if h == 0 {
                *final(runtime) == *old(runtime)
            } else {
                &&& final(runtime).event_queue@ == if !has_form_transition(q) && fid != 0 {
                    transition_events(q, fid)
                } else {
                    q
                }
                &&& *final(runtime) == (PrcRuntimeContext {
                    active_form_handle: h,
                    active_form_id: Some(fid),
                    focused_field_index: None,
                    startup_open_dispatched: false,
                    event_queue: final(runtime).event_queue,
                    ..*old(runtime)
                })
            }
        }),
{
    let form_h = match memory.read_u32_be(cpu.a[7]) {
        Some(v) => v,
        None => 0,
    };
    if form_h == 0 {
        return;
    }
    let form_id = (form_h & 0xFFFF) as u16;
    runtime.active_form_handle = form_h;
    runtime.active_form_id = Some(form_id);
    runtime.focused_field_index = None;
    runtime.startup_open_dispatched = false;
    let mut found = false;
    let mut i: usize = 0;
    while i < runtime.event_queue.len()
        invariant
            i <= runtime.event_queue@.len(),
            runtime.event_queue@ == old(runtime).event_queue@,
            found == exists|j: int| 0 <= j < i && (#[trigger] runtime.event_queue@[j].e_type == EVT_FRM_LOAD
                || runtime.event_queue@[j].e_type == EVT_FRM_OPEN),
        decreases runtime.event_queue@.len() - i,
    {
        let e = runtime.event_queue[i].e_type;
        if e == EVT_FRM_LOAD || e == EVT_FRM_OPEN {
            found = true;
        }
        i += 1;
    }
    if !found && form_id != 0 {
        runtime.event_queue.push(RuntimeEvent { e_type: EVT_FRM_LOAD, data_u16: form_id });
        runtime.event_queue.push(RuntimeEvent { e_type: EVT_FRM_OPEN, data_u16: form_id });
    }
}

/// The return stack after a popup of form `f` over the form `active`: the
/// form on screen goes on top when `f` is non-zero and another form.
pub open spec fn popup_stack(stack: Seq<u16>, active: Option<u16>, f: u16) -> Seq<u16> {
    if f != 0 && active is Some && active->Some_0 != f {
        stack.push(active->Some_0)
    } else {
        stack
    }
}

/// The return stack and the form returned to for `FrmReturnToForm(f)`:
/// a non-zero `f` cuts the stack at its last entry of `f`; 0 takes the top
/// entry (none, form 0, on an empty stack).
pub open spec fn return_spec(stack: Seq<u16>, f: u16) -> (Seq<u16>, u16) {
    if f != 0 {
        (
            match last_index(stack, f) {
                Some(p) => stack.subrange(0, p),
                None => stack,
            },
            f,
        )
    } else if stack.len() > 0 {
        (stack.drop_last(), stack.last())
    } else {
        (stack, 0u16)
    }
}

/// `FrmPopupForm(formID)`: for a non-zero form, the form on screen (when it
/// is another one) goes on the return stack and the form's load and open
/// events are queued; D0 gets 0.
pub fn form_popup_trap(cpu: &mut CpuState68k, runtime: &mut PrcRuntimeContext, memory: &MemoryMap)
    ensures
        ({
            let f = form_arg(regs(*old(cpu)), memory@);
            &&& final(runtime).form_return_stack@ == popup_stack(old(runtime).form_return_stack@, old(runtime).active_form_id, f)
            &&& final(runtime).event_queue@ == transition_events(old(runtime).event_queue@, f)
            &&& *final(runtime) == (PrcRuntimeContext {
                form_return_stack: final(runtime).form_return_stack,
                event_queue: final(runtime).event_queue,
                startup_open_dispatched: if f == 0 { old(runtime).startup_open_dispatched } else { false },
                ..*old(runtime)
            })
        }),
        regs(*final(cpu)) == regs(*old(cpu)).with_d(0, 0),
        final(cpu).call_stack == old(cpu).call_stack,
{
    let sp = cpu.a[7];
    let form_id = match memory.read_u16_be(sp) {
        Some(v) => v,
        None => 0,
    };
    if form_id != 0 {
        if let Some(current) = runtime.active_form_id {
            if current != form_id {
                runtime.form_return_stack.push(current);
            }
        }
        queue_form_transition(runtime, form_id);
    }
    cpu.d[0] = 0;
}

/// The last position of `id` in `stack`, if any.
pub open spec fn last_index(stack: Seq<u16>, id: u16) -> Option<int>
    decreases stack.len(),
{
    if stack.len() == 0 {
        None
    } else if stack.last() == id {
        Some(stack.len() - 1)
    } else {
        last_index(stack.drop_last(), id)
    }
}

proof fn lemma_last_index_bound(stack: Seq<u16>, id: u16)
    ensures
        last_index(stack, id) matches Some(p) ==> 0 <= p < stack.len() && stack[p] == id,
    decreases stack.len(),
{
    if stack.len() > 0 && stack.last() != id {
        lemma_last_index_bound(stack.drop_last(), id);
    }
}

/// `FrmReturnToForm(formID)`: a non-zero form drops the return stack from
/// its last entry on and is returned to; form 0 returns to the form on top
/// of the stack, taking it off. The target's load and open events are
/// queued; D0 gets 0.
pub fn form_return_trap(cpu: &mut CpuState68k, runtime: &mut PrcRuntimeContext, memory: &MemoryMap)
    ensures
        ({
            let f = form_arg(regs(*old(cpu)), memory@);
            let (stack, target) = return_spec(old(runtime).form_return_stack@, f);
            &&& final(runtime).form_return_stack@ == stack
            &&& final(runtime).event_queue@ == transition_events(old(runtime).event_queue@, target)
            &&& *final(runtime) == (PrcRuntimeContext {
                form_return_stack: final(runtime).form_return_stack,
                event_queue: final(runtime).event_queue,
                startup_open_dispatched: if target == 0 { old(runtime).startup_open_dispatched } else { false },
                ..*old(runtime)
            })
        }),
        regs(*final(cpu)) == regs(*old(cpu)).with_d(0, 0),
        final(cpu).call_stack == old(cpu).call_stack,
{
    let sp = cpu.a[7];
    let requested = match memory.read_u16_be(sp) {
        Some(v) => v,
        None => 0,
    };
    let target = if requested != 0 {
        let mut i = runtime.form_return_stack.len();
        let mut pos: Option<usize> = None;
        proof {
            assert(runtime.form_return_stack@.subrange(0, i as int) =~= runtime.form_return_stack@);
        }
        while i > 0 && pos.is_none()
            invariant
                i <= runtime.form_return_stack@.len(),
                *runtime == *old(runtime),
                pos is None ==> last_index(runtime.form_return_stack@, requested) == last_index(
                    runtime.form_return_stack@.subrange(0, i as int),
                    requested,
                ),
                pos matches Some(p) ==> last_index(runtime.form_return_stack@, requested) == Some(p as int),
            decreases i,
        {
            let ghost before = runtime.form_return_stack@.subrange(0, i as int);
            assert(before.drop_last() =~= runtime.form_return_stack@.subrange(0, i - 1));
            if runtime.form_return_stack[i - 1] == requested {
                pos = Some(i - 1);
            }
            i -= 1;
        }
        proof {
            if pos is None {
                assert(runtime.form_return_stack@.subrange(0, i as int) =~= Seq::<u16>::empty());
            }
            lemma_last_index_bound(runtime.form_return_stack@, requested);
        }
        if let Some(p) = pos {
            runtime.form_return_stack.truncate(p);
        }
        requested
    } else {
        match runtime.form_return_stack.pop() {
            Some(t) => t,
            None => 0,
        }
    };
    queue_form_transition(runtime, target);
    cpu.d[0] = 0;
}

/// A popup of another form over the form on screen, returned from with
/// `FrmReturnToForm(0)`, leaves the return stack as it was and goes back to
/// the form that was on screen.
pub proof fn lemma_popup_then_return(stack: Seq<u16>, f: u16, c: u16)
    requires
        f != 0,
        c != f,
    ensures
        return_spec(popup_stack(stack, Some(c), f), 0) == (stack, c),
{
    assert(stack.push(c).drop_last() =~= stack);
}

} // verus!
