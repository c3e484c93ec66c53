//! The trap dispatcher: what one system trap does to the registers, the
//! runtime's state and memory.
use vstd::prelude::*;
use crate::palm::cpu::ea::{regs, Regs};
use crate::palm::cpu::memory::{MemView, MemoryMap};
use crate::palm::cpu::state::CpuState68k;
use crate::palm::trap_stub::heap::{
    alloc_spec, chunk_arg, lock_spec, mem_handle_lock_trap, find_handle, find_ptr, free_spec, handle_arg, mem_chunk_free_trap,
    mem_handle_free_trap, mem_handle_new_trap, mem_handle_size_trap, mem_handle_unlock_trap,
    mem_ptr_new_trap, place_from, request_size, swap_out, MemBlock,
};
use crate::palm::trap_stub::misc::{
    date_time_fields, day_of_week, day_of_week_trap, lib_refnum_trap, pins_dispatch_trap, pins_selector, refnum_ptr,
    seconds_arg, seconds_to_date_time_trap, stack_word, stat_data_ptr, usable, win_get_bounds_trap, write_date_time,
    write_rect, pref_get_preferences_trap, prefs_ptr, zero_fill,
};
use crate::palm::trap_stub::{
    add_once, c_string_len, form_handle_arg, form_set_active_trap, has_form_transition, form_arg, form_popup_trap, form_return_trap, ftr_creator, ftr_get_result,
    ftr_get_trap, ftr_num, ftr_set_spec, ftr_set_trap, ftr_third, max_u32, note_stubbed_trap, or_u32,
    popup_stack, ptr_arg_spec, queue_form_transition, rand_next, return_spec, str_len_trap,
    sys_random_trap, ticks_per_second_trap, time_trap, transition_events, FeatureEntry,
    PrcRuntimeContext, RuntimeEvent,
};

verus! {

/// The mathematical contents of a [`PrcRuntimeContext`].
pub struct RuntimeView {
    pub stubbed: Seq<u16>,
    pub features: Seq<FeatureEntry>,
    pub rand_state: u32,
    pub ticks: u32,
    pub active_form_id: Option<u16>,
    pub form_return_stack: Seq<u16>,
    pub event_queue: Seq<RuntimeEvent>,
    pub startup_open_dispatched: bool,
    pub active_form_handle: u32,
    pub focused_field_index: Option<usize>,
    pub shutting_down: bool,
    pub current_font: u16,
    pub mem_blocks: Seq<MemBlock>,
    pub next_handle: u32,
    pub next_ptr: u32,
}

impl View for PrcRuntimeContext {
    type V = RuntimeView;

    open spec fn view(&self) -> RuntimeView {
        RuntimeView {
            stubbed: self.default_stubbed_traps@,
            features: self.features@,
            rand_state: self.rand_state,
            ticks: self.ticks,
            active_form_id: self.active_form_id,
            form_return_stack: self.form_return_stack@,
            event_queue: self.event_queue@,
            startup_open_dispatched: self.startup_open_dispatched,
            active_form_handle: self.active_form_handle,
            focused_field_index: self.focused_field_index,
            shutting_down: self.shutting_down,
            current_font: self.current_font,
            mem_blocks: self.mem_blocks@,
            next_handle: self.next_handle,
            next_ptr: self.next_ptr,
        }
    }
}

/// The traps whose stubs work on the form, font, field, window, event and
/// database state of the runtime, which this state does not hold; the
/// dispatcher leaves them to its caller.
pub open spec fn trap_left_out(w: u16) -> bool {
    match w {
        0xA08F | 0xA16F | 0xA171 | 0xA19F | 0xA17C | 0xA17E | 0xA17F | 0xA178 | 0xA179
        | 0xA1A0 | 0xA11D | 0xA026 | 0xA027 | 0xA060 | 0xA05F | 0xA046 | 0xA049 | 0xA04A
        | 0xA04C | 0xA075 | 0xA266 | 0xA267 | 0xA268
        | 0xA0C5 | 0xA180 | 0xA164 | 0xA167 | 0xA16B | 0xA16D | 0xA226 | 0xA183
        | 0xA153 | 0xA158 | 0xA139 | 0xA14B | 0xA13A | 0xA142 | 0xA15D | 0xA15E | 0xA13B | 0xA135
        | 0xA195 => true,
        _ => false,
    }
}

fn is_trap_left_out(w: u16) -> (r: bool)
    ensures
        r == trap_left_out(w),
{
    matches!(
        w,
        0xA08F | 0xA16F | 0xA171 | 0xA19F | 0xA17C | 0xA17E | 0xA17F | 0xA178 | 0xA179
        | 0xA1A0 | 0xA11D | 0xA026 | 0xA027 | 0xA060 | 0xA05F | 0xA046 | 0xA049 | 0xA04A
        | 0xA04C | 0xA075 | 0xA266 | 0xA267 | 0xA268
        | 0xA0C5 | 0xA180 | 0xA164 | 0xA167 | 0xA16B | 0xA16D | 0xA226 | 0xA183
        | 0xA153 | 0xA158 | 0xA139 | 0xA14B | 0xA13A | 0xA142 | 0xA15D | 0xA15E | 0xA13B | 0xA135
        | 0xA195
    )
}

/// The runtime after a transition to form `f` is queued.
pub open spec fn queued(rt: RuntimeView, f: u16) -> RuntimeView {
    RuntimeView {
        event_queue: transition_events(rt.event_queue, f),
        startup_open_dispatched: if f == 0 { rt.startup_open_dispatched } else { false },
        ..rt
    }
}

/// The heap fields of `rt` after an allocation of `size` bytes.
pub open spec fn allocated(rt: RuntimeView, size: u32) -> RuntimeView {
    let (bs, nh, np) = alloc_spec(rt.mem_blocks, rt.next_handle, rt.next_ptr, size);
    RuntimeView { mem_blocks: bs, next_handle: nh, next_ptr: np, ..rt }
}

/// What the trap stub for `w` does once `w` is on the list of stubbed
/// traps (`rt`): the registers, runtime and memory after it. A trap the
/// database or table stubs took (`dm_tbl`), and one of [`trap_left_out`],
/// changes nothing more; every trap without a stub of its own clears D0.
pub open spec fn trap_arm(w: u16, dm_tbl: bool, r: Regs, rt: RuntimeView, m: MemView) -> (Regs, RuntimeView, MemView) {
    let d0 = r.with_d(0, 0);
    if dm_tbl || trap_left_out(w) {
        (r, rt, m)
    } else {
        match w {
            // SysAppExit
            0xA090 => (d0, RuntimeView { shutting_down: true, ..rt }, m),
            // FrmGotoForm
            0xA19B => (d0, queued(rt, form_arg(r, m)), m),
            // FrmPopupForm
            0xA19C => {
                let f = form_arg(r, m);
                (d0, queued(RuntimeView { form_return_stack: popup_stack(rt.form_return_stack, rt.active_form_id, f), ..rt }, f), m)
            },
            // FrmReturnToForm
            0xA19E => {
                let (stack, target) = return_spec(rt.form_return_stack, form_arg(r, m));
                (d0, queued(RuntimeView { form_return_stack: stack, ..rt }, target), m)
            },
            // FrmGetActiveForm
            0xA173 => (r.with_a(0, rt.active_form_handle), rt, m),
            // FrmSetActiveForm
            0xA174 => {
                let h = form_handle_arg(r, m);
                let fid = (h & 0xFFFF) as u16;
                if h == 0 {
                    (r, rt, m)
                } else {
                    let q = if !has_form_transition(rt.event_queue) && fid != 0 {
                        transition_events(rt.event_queue, fid)
                    } else {
                        rt.event_queue
                    };
                    (r, RuntimeView {
                        active_form_handle: h,
                        active_form_id: Some(fid),
                        focused_field_index: None,
                        startup_open_dispatched: false,
                        event_queue: q,
                        ..rt
                    }, m)
                }
            },
            // FrmGetControlGroupSelection: no selection
            0xA18C => (r.with_d(0, (r.d[0] & 0xFFFF_0000) | 0xFFFF), rt, m),
            // FntGetFont
            0xA163 => (r.with_d(0, rt.current_font as u32), rt, m),
            // WinGetDisplayWindow
            0xA200 => (r.with_a(0, 0x4000_0000), rt, m),
            // MemHandleNew
            0xA01E => {
                let h = rt.next_handle;
                (r.with_a(0, h).with_d(0, h), allocated(rt, request_size(r, m)), m)
            },
            // MemPtrNew
            0xA013 => {
                let p = place_from(rt.mem_blocks, rt.next_ptr);
                (r.with_a(0, p).with_d(0, p), allocated(rt, request_size(r, m)), m)
            },
            // MemHandleLock
            0xA021 => {
                let bs = rt.mem_blocks;
                match find_handle(bs, handle_arg(bs, r, m), 0) {
                    Some(i) => {
                        let (nbs, np, p) = lock_spec(bs, rt.next_ptr, i);
                        (
                            if r.a[2] < 0x1_0000 { r.with_a(0, p).with_a(2, p) } else { r.with_a(0, p) },
                            RuntimeView { mem_blocks: nbs, next_ptr: np, ..rt },
                            m,
                        )
                    },
                    None => (r.with_a(0, 0), rt, m),
                }
            },
            // MemHandleSize
            0xA02D => {
                let bs = rt.mem_blocks;
                let size = match find_handle(bs, handle_arg(bs, r, m), 0) {
                    Some(i) => bs[i].size,
                    None => 0u32,
                };
                (r.with_d(0, size), rt, m)
            },
            // MemHandleUnlock
            0xA022 => {
                let bs = rt.mem_blocks;
                let nbs = match find_handle(bs, handle_arg(bs, r, m), 0) {
                    Some(i) => bs.update(i, MemBlock { locked: false, ..bs[i] }),
                    None => bs,
                };
                (d0, RuntimeView { mem_blocks: nbs, ..rt }, m)
            },
            // MemHandleFree
            0xA02B => {
                let (nbs, err) = free_spec(rt.mem_blocks, handle_arg(rt.mem_blocks, r, m));
                (r.with_d(0, err), RuntimeView { mem_blocks: nbs, ..rt }, m)
            },
            // MemChunkFree
            0xA012 => {
                let bs = rt.mem_blocks;
                let nbs = match find_ptr(bs, chunk_arg(r, m), 0) {
                    Some(i) => swap_out(bs, i),
                    None => bs,
                };
                (d0, RuntimeView { mem_blocks: nbs, ..rt }, m)
            },
            // TimGetSeconds
            0xA0F5 => (r.with_d(0, rt.ticks / 100), rt, m),
            // TimGetTicks
            0xA0F7 => (r.with_d(0, rt.ticks), rt, m),
            // FtrSet
            0xA27C => {
                let value = ftr_third(r, m, max_u32(r.a[0], r.d[2]));
                (d0, RuntimeView { features: ftr_set_spec(rt.features, ftr_creator(r, m), ftr_num(r, m), value), ..rt }, m)
            },
            // FtrGet
            0xA27B => {
                let (value, err) = ftr_get_result(rt.features, ftr_creator(r, m), ftr_num(r, m));
                (r.with_d(0, err), rt, m.write32(ftr_third(r, m, r.a[0]), value))
            },
            // SysTicksPerSecond
            0xA2E9 => (r.with_d(0, (r.d[0] & 0xFFFF_0000) | 100), rt, m),
            // SysRandom
            0xA0C2 => {
                let seed = or_u32(m.read32(r.a[7]), r.d[0]);
                let st = rand_next(if seed != 0 { seed } else { rt.rand_state });
                (
                    r.with_d(0, (r.d[0] & 0xFFFF_0000) | (((st & 0x7FFF_FFFF) % 0x7FFF) & 0xFFFF)),
                    RuntimeView { rand_state: st, ..rt },
                    m,
                )
            },
            // StrLen
            0xA0C7 => {
                let p = ptr_arg_spec(r, m, 0);
                let ptr = if p != 0 { p } else { max_u32(r.a[0], r.d[0]) };
                (r.with_d(0, c_string_len(m, ptr, 0) as u32), rt, m)
            },
            // DayOfWeek
            0xA25F => {
                let dow = day_of_week(stack_word(r, m, 0, r.d[0]), stack_word(r, m, 2, r.d[1]), stack_word(r, m, 4, r.d[2]));
                (r.with_d(0, (r.d[0] & 0xFFFF_0000) | dow), rt, m)
            },
            // SysLibFind, SysLibLoad
            0xA0BA | 0xA2AC => {
                let p = refnum_ptr(r, m, w == 0xA2AC);
                (d0, rt, if p != 0 { m.write16(p, 1) } else { m })
            },
            // WinGetBounds
            0xA456 => {
                let p = refnum_ptr(r, m, false);
                (d0, rt, if p != 0 { write_rect(m, p, 0, 0, 160, 160) } else { m })
            },
            // PinsDispatch
            0xA470 => {
                let sel = pins_selector(r, m);
                let p = stat_data_ptr(r, m);
                (r.with_d(0, if sel == 1 { 2 } else { 0 }), rt, if sel == 18 && p != 0 { m.write32(p, 0) } else { m })
            },
            // TimSecondsToDateTime
            0xA0FC => {
                let p = or_u32(m.read32(crate::palm::cpu::ea::sat_add32(r.a[7], 4)), r.a[0]);
                (d0, rt, if usable(m, p) { write_date_time(m, p, date_time_fields(seconds_arg(r, m))) } else { m })
            },
            // PrefGetPreferences
            0xA22C => {
                let p = prefs_ptr(r, m);
                (d0, rt, if p != 0 { zero_fill(m, p, 64) } else { m })
            },
            _ => (d0, rt, m),
        }
    }
}

/// What a system trap does: it joins the list of stubbed traps once, then
/// its stub runs (see [`trap_arm`]).
pub open spec fn trap_stub_spec(w: u16, dm_tbl: bool, r: Regs, rt: RuntimeView, m: MemView) -> (Regs, RuntimeView, MemView) {
    trap_arm(w, dm_tbl, r, RuntimeView { stubbed: add_once(rt.stubbed, w), ..rt }, m)
}

/// Runs the stub of the system trap `trap_word` met at `pc`. The trap is
/// recorded on the runtime's list of stubbed traps; `dm_tbl_handled` says
/// whether the database or table stubs already took it, and then nothing
/// more happens. Returns whether the trap was dealt with: false only for
/// the traps of [`trap_left_out`], which the caller answers.
pub fn apply_prc_runtime_trap_stub(
    cpu: &mut CpuState68k,
    runtime: &mut PrcRuntimeContext,
    memory: &mut MemoryMap,
    trap_word: u16,
    pc: u32,
    dm_tbl_handled: bool,
) -> (handled: bool)
    ensures
        (regs(*final(cpu)), final(runtime)@, final(memory)@) == trap_stub_spec(
            trap_word,
            dm_tbl_handled,
            regs(*old(cpu)),
            old(runtime)@,
            old(memory)@,
        ),
        final(cpu).call_stack == old(cpu).call_stack,
        handled == (dm_tbl_handled || !trap_left_out(trap_word)),
{
    note_stubbed_trap(runtime, trap_word);
    if dm_tbl_handled {
        return true;
    }
    if is_trap_left_out(trap_word) {
        return false;
    }
    match trap_word {
        0xA090 => {
            runtime.shutting_down = true;
            cpu.d[0] = 0;
        },
        0xA19B => {
            let form_id = match memory.read_u16_be(cpu.a[7]) {
                Some(v) => v,
                None => 0,
            };
            queue_form_transition(runtime, form_id);
            cpu.d[0] = 0;
        },
        0xA19C => form_popup_trap(cpu, runtime, memory),
        0xA19E => form_return_trap(cpu, runtime, memory),
        0xA173 => {
            cpu.a[0] = runtime.active_form_handle;
        },
        0xA174 => form_set_active_trap(cpu, runtime, memory),
        0xA18C => {
            cpu.d[0] = (cpu.d[0] & 0xFFFF_0000) | 0xFFFF;
        },
        0xA163 => {
            cpu.d[0] = runtime.current_font as u32;
        },
        0xA200 => {
            cpu.a[0] = 0x4000_0000;
        },
        0xA01E => mem_handle_new_trap(cpu, runtime, memory),
        0xA013 => mem_ptr_new_trap(cpu, runtime, memory),
        0xA021 => mem_handle_lock_trap(cpu, runtime, memory),
        0xA02D => mem_handle_size_trap(cpu, runtime, memory),
        0xA022 => mem_handle_unlock_trap(cpu, runtime, memory),
        0xA02B => mem_handle_free_trap(cpu, runtime, memory),
        0xA012 => mem_chunk_free_trap(cpu, runtime, memory),
        0xA0F5 => time_trap(cpu, runtime, true),
        0xA0F7 => time_trap(cpu, runtime, false),
        0xA27C => ftr_set_trap(cpu, runtime, memory),
        0xA27B => ftr_get_trap(cpu, runtime, memory),
        0xA2E9 => ticks_per_second_trap(cpu),
        0xA0C2 => sys_random_trap(cpu, runtime, memory),
        0xA0C7 => str_len_trap(cpu, memory),
        0xA25F => day_of_week_trap(cpu, memory),
        0xA0BA => lib_refnum_trap(cpu, memory, false),
        0xA2AC => lib_refnum_trap(cpu, memory, true),
        0xA456 => win_get_bounds_trap(cpu, memory),
        0xA470 => pins_dispatch_trap(cpu, memory),
        0xA0FC => seconds_to_date_time_trap(cpu, memory),
        0xA22C => pref_get_preferences_trap(cpu, memory),
        _ => {
            cpu.d[0] = 0;
        },
    }
    true
}

/// Every trap goes on the list of stubbed traps, and only once: the list
/// gains it at its end when it was not there and is unchanged when it was.
pub proof fn lemma_trap_recorded_once(w: u16, dm_tbl: bool, r: Regs, rt: RuntimeView, m: MemView)
    ensures
        ({
            let s = trap_stub_spec(w, dm_tbl, r, rt, m).1.stubbed;
            &&& s.contains(w)
            &&& rt.stubbed.contains(w) ==> s == rt.stubbed
            &&& !rt.stubbed.contains(w) ==> s == rt.stubbed.push(w)
        }),
{
    let s = add_once(rt.stubbed, w);
    if !rt.stubbed.contains(w) {
        assert(rt.stubbed.push(w)[rt.stubbed.len() as int] == w);
    }
    assert(trap_stub_spec(w, dm_tbl, r, rt, m).1.stubbed == s);
}

/// `FtrSet` through the dispatcher, then `FtrGet` with the same creator and
/// number on the stack: the value set is written to the `FtrGet` pointer
/// argument and D0 gets error 0.
pub proof fn lemma_ftr_set_then_get_dispatch(rt: RuntimeView, r1: Regs, m1: MemView, r2: Regs, m2: MemView)
    requires
        ftr_creator(r1, m1) == ftr_creator(r2, m2),
        ftr_num(r1, m1) == ftr_num(r2, m2),
    ensures
        ({
            let (_, rt1, _) = trap_stub_spec(0xA27C, false, r1, rt, m1);
            let (r3, _, m3) = trap_stub_spec(0xA27B, false, r2, rt1, m2);
            let value = ftr_third(r1, m1, max_u32(r1.a[0], r1.d[2]));
            &&& r3 == r2.with_d(0, 0)
            &&& m3 == m2.write32(ftr_third(r2, m2, r2.a[0]), value)
        }),
{
    crate::palm::trap_stub::lemma_ftr_set_then_get_traps(rt.features, r1, m1, r2, m2);
}

/// `MemHandleFree` through the dispatcher, on a handle argument that names
/// a block: exactly the first block with that handle is taken out (the last
/// block moving into its place), every other block stays, and D0 gets 0.
pub proof fn lemma_mem_handle_free_dispatch(r: Regs, rt: RuntimeView, m: MemView)
    requires
        find_handle(rt.mem_blocks, handle_arg(rt.mem_blocks, r, m), 0) is Some,
    ensures
        ({
            let bs = rt.mem_blocks;
            let h = handle_arg(bs, r, m);
            let i = find_handle(bs, h, 0)->Some_0;
            let (r2, rt2, m2) = trap_stub_spec(0xA02B, false, r, rt, m);
            &&& bs[i].handle == h
            &&& rt2.mem_blocks == swap_out(bs, i)
            &&& rt2.mem_blocks.len() == bs.len() - 1
            &&& forall|k: int| 0 <= k < bs.len() && k != i ==> rt2.mem_blocks.contains(#[trigger] bs[k])
            &&& r2 == r.with_d(0, 0)
            &&& m2 == m
        }),
{
    crate::palm::trap_stub::heap::lemma_free_removes_exactly(rt.mem_blocks, handle_arg(rt.mem_blocks, r, m));
}

/// `FrmPopupForm` of another, non-zero form over the form on screen, then
/// `FrmReturnToForm(0)`, both through the dispatcher: the return stack is
/// as before the popup, and the form on screen is queued to load and open
/// again.
pub proof fn lemma_popup_then_return_dispatch(rt: RuntimeView, r1: Regs, m1: MemView, r2: Regs, m2: MemView, c: u16)
    requires
        rt.active_form_id == Some(c),
        form_arg(r1, m1) != 0,
        form_arg(r1, m1) != c,
        form_arg(r2, m2) == 0,
    ensures
        ({
            let (_, rt1, _) = trap_stub_spec(0xA19C, false, r1, rt, m1);
            let (_, rt2, _) = trap_stub_spec(0xA19E, false, r2, rt1, m2);
            &&& rt2.form_return_stack == rt.form_return_stack
            &&& rt2.event_queue == transition_events(rt1.event_queue, c)
        }),
{
    crate::palm::trap_stub::lemma_popup_then_return(rt.form_return_stack, form_arg(r1, m1), c);
}

} // verus!
