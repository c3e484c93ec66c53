//! The dynamic heap of the trap stubs: blocks handed out by `MemHandleNew`
//! and `MemPtrNew`, looked up by handle or by pointer, and given back by
//! `MemHandleFree` and `MemChunkFree`.
use vstd::prelude::*;
use crate::palm::cpu::ea::{regs, sat_add32, Regs};
use crate::palm::cpu::memory::{MemView, MemoryMap};
use crate::palm::cpu::state::CpuState68k;
use crate::palm::trap_stub::{max_u32, or_u32, PrcRuntimeContext};

verus! {

/// A heap block: its handle, the address it is placed at, its size, and
/// whether it is locked.
#[derive(Clone, Copy, Debug, PartialEq, Eq, Structural)]
pub struct MemBlock {
    pub handle: u32,
    pub ptr: u32,
    pub size: u32,
    pub locked: bool,
}

/// Lowest address of the window the heap places blocks in.
pub const HEAP_LOW: u32 = 0x2000_0000;
/// Highest address the next placement may start from.
pub const HEAP_HIGH: u32 = 0x2FFF_0000;
/// Largest request the allocation traps take as a size.
pub const MAX_BLOCK: u32 = 0x0010_0000;

/// The first block at or after `i` whose handle is `h`.
pub open spec fn find_handle(bs: Seq<MemBlock>, h: u32, i: int) -> Option<int>
    decreases bs.len() - i,
{
    if i < 0 || i >= bs.len() {
        None
    } else if bs[i].handle == h {
        Some(i)
    } else {
        find_handle(bs, h, i + 1)
    }
}

/// The first block at or after `i` placed at `p`.
pub open spec fn find_ptr(bs: Seq<MemBlock>, p: u32, i: int) -> Option<int>
    decreases bs.len() - i,
{
    if i < 0 || i >= bs.len() {
        None
    } else if bs[i].ptr == p {
        Some(i)
    } else {
        find_ptr(bs, p, i + 1)
    }
}

/// The handle that a raw argument names: itself when it is a block's
/// handle, else the handle of the block placed at it; nothing for 0.
pub open spec fn resolve_handle(bs: Seq<MemBlock>, raw: u32) -> Option<u32> {
    if raw == 0 {
        None
    } else if find_handle(bs, raw, 0) is Some {
        Some(raw)
    } else {
        match find_ptr(bs, raw, 0) {
            Some(i) => Some(bs[i].handle),
            None => None,
        }
    }
}

/// The handle argument of a heap trap: the long at the stack pointer,
/// resolved (0 when it names no block); with no readable stack, A0 and then
/// D0 are tried.
pub open spec fn handle_arg(bs: Seq<MemBlock>, r: Regs, m: MemView) -> u32 {
    match m.read32(r.a[7]) {
        Some(s) => or_u32(resolve_handle(bs, s), 0),
        None => match resolve_handle(bs, r.a[0]) {
            Some(h) => h,
            None => or_u32(resolve_handle(bs, r.d[0]), 0),
        },
    }
}

/// A requested size that the allocation traps accept: from 1 to 1 MiB.
pub open spec fn size_ok(v: u32) -> bool {
    0 < v <= MAX_BLOCK
}

/// The size of an allocation request: the first acceptable one of the long
/// at the stack pointer (0 when unreadable), A0, D0, A1 and D1; else 16.
pub open spec fn request_size(r: Regs, m: MemView) -> u32 {
    let s = or_u32(m.read32(r.a[7]), 0);
    if size_ok(s) {
        s
    } else if size_ok(r.a[0]) {
        r.a[0]
    } else if size_ok(r.d[0]) {
        r.d[0]
    } else if size_ok(r.a[1]) {
        r.a[1]
    } else if size_ok(r.d[1]) {
        r.d[1]
    } else {
        16
    }
}

/// The address just past the highest block of the first `n` blocks that
/// lie in the heap window, with a 16-byte gap; `HEAP_LOW` when there is none.
pub open spec fn heap_top(bs: Seq<MemBlock>, n: int) -> u32
    decreases n,
{
    if n <= 0 {
        HEAP_LOW
    } else {
        let rest = heap_top(bs, n - 1);
        let b = bs[n - 1];
        let end = sat_add32(sat_add32(b.ptr, b.size), 16);
        if HEAP_LOW <= b.ptr <= 0x2FFF_FFFF && end > rest {
            end
        } else {
            rest
        }
    }
}

/// Where the next block goes: the saved placement while it lies in the heap
/// window, else just past the highest block there.
pub open spec fn place_from(bs: Seq<MemBlock>, next_ptr: u32) -> u32 {
    if next_ptr < HEAP_LOW || next_ptr > HEAP_HIGH {
        heap_top(bs, bs.len() as int)
    } else {
        next_ptr
    }
}

/// The heap after an allocation of `size` bytes (at least 16): the new
/// block, unlocked, gets the next handle and the placement address.
pub open spec fn alloc_spec(bs: Seq<MemBlock>, next_handle: u32, next_ptr: u32, size: u32)
    -> (Seq<MemBlock>, u32, u32)
{
    let sz = if size < 16 { 16u32 } else { size };
    let ptr = place_from(bs, next_ptr);
    (
        bs.push(MemBlock { handle: next_handle, ptr, size: sz, locked: false }),
        sat_add32(next_handle, 1),
        sat_add32(ptr, sat_add32(sz, 16)),
    )
}

/// `bs` with block `i` taken out, the last block moving into its place.
pub open spec fn swap_out(bs: Seq<MemBlock>, i: int) -> Seq<MemBlock> {
    bs.update(i, bs.last()).drop_last()
}

/// The heap after `MemHandleFree(h)`, and the error code: the first block
/// with handle `h` is taken out (error 0), or nothing changes (error 1).
pub open spec fn free_spec(bs: Seq<MemBlock>, h: u32) -> (Seq<MemBlock>, u32) {
    match find_handle(bs, h, 0) {
        Some(i) => (swap_out(bs, i), 0u32),
        None => (bs, 1u32),
    }
}

fn find_handle_index(bs: &Vec<MemBlock>, h: u32) -> (r: Option<usize>)
    ensures
        match r {
            Some(i) => i < bs@.len() && find_handle(bs@, h, 0) == Some(i as int),
            None => find_handle(bs@, h, 0) is None,
        },
{
    let mut i: usize = 0;
    while i < bs.len()
        invariant
            i <= bs@.len(),
            find_handle(bs@, h, 0) == find_handle(bs@, h, i as int),
        decreases bs@.len() - i,
    {
        if bs[i].handle == h {
            return Some(i);
        }
        i += 1;
    }
    None
}

fn find_ptr_index(bs: &Vec<MemBlock>, p: u32) -> (r: Option<usize>)
    ensures
        match r {
            Some(i) => i < bs@.len() && find_ptr(bs@, p, 0) == Some(i as int),
            None => find_ptr(bs@, p, 0) is None,
        },
{
    let mut i: usize = 0;
    while i < bs.len()
        invariant
            i <= bs@.len(),
            find_ptr(bs@, p, 0) == find_ptr(bs@, p, i as int),
        decreases bs@.len() - i,
    {
        if bs[i].ptr == p {
            return Some(i);
        }
        i += 1;
    }
    None
}

fn resolve(bs: &Vec<MemBlock>, raw: u32) -> (r: Option<u32>)
    ensures
        r == resolve_handle(bs@, raw),
{
    if raw == 0 {
        return None;
    }
    if find_handle_index(bs, raw).is_some() {
        return Some(raw);
    }
    match find_ptr_index(bs, raw) {
        Some(i) => Some(bs[i].handle),
        None => None,
    }
}

fn decode_handle_arg(bs: &Vec<MemBlock>, cpu: &CpuState68k, memory: &MemoryMap) -> (h: u32)
    ensures
        h == handle_arg(bs@, regs(*cpu), memory@),
{
    match memory.read_u32_be(cpu.a[7]) {
        Some(s) => match resolve(bs, s) {
            Some(h) => h,
            None => 0,
        },
        None => match resolve(bs, cpu.a[0]) {
            Some(h) => h,
            None => match resolve(bs, cpu.d[0]) {
                Some(h) => h,
                None => 0,
            },
        },
    }
}

fn request_size_of(cpu: &CpuState68k, memory: &MemoryMap) -> (s: u32)
    ensures
        s == request_size(regs(*cpu), memory@),
{
    let s = match memory.read_u32_be(cpu.a[7]) {
        Some(v) => v,
        None => 0,
    };
    if 0 < s && s <= MAX_BLOCK {
        s
    } else if 0 < cpu.a[0] && cpu.a[0] <= MAX_BLOCK {
        cpu.a[0]
    } else if 0 < cpu.d[0] && cpu.d[0] <= MAX_BLOCK {
        cpu.d[0]
    } else if 0 < cpu.a[1] && cpu.a[1] <= MAX_BLOCK {
        cpu.a[1]
    } else if 0 < cpu.d[1] && cpu.d[1] <= MAX_BLOCK {
        cpu.d[1]
    } else {
        16
    }
}

fn heap_top_of(bs: &Vec<MemBlock>) -> (t: u32)
    ensures
        t == heap_top(bs@, bs@.len() as int),
{
    let mut high: u32 = HEAP_LOW;
    let mut i: usize = 0;
    while i < bs.len()
        invariant
            i <= bs@.len(),
            high == heap_top(bs@, i as int),
        decreases bs@.len() - i,
    {
        let b = bs[i];
        let end = b.ptr.saturating_add(b.size).saturating_add(16);
        if HEAP_LOW <= b.ptr && b.ptr <= 0x2FFF_FFFF && end > high {
            high = end;
        }
        i += 1;
    }
    high
}

/// Places a new block of `size` bytes and returns its handle and address.
fn alloc_block(runtime: &mut PrcRuntimeContext, size: u32) -> (hp: (u32, u32))
    ensures
        ({
            let (bs, nh, np) = alloc_spec(old(runtime).mem_blocks@, old(runtime).next_handle, old(runtime).next_ptr, size);
            &&& final(runtime).mem_blocks@ == bs
            &&& *final(runtime) == (PrcRuntimeContext {
                mem_blocks: final(runtime).mem_blocks,
                next_handle: nh,
                next_ptr: np,
                ..*old(runtime)
            })
            &&& hp == (old(runtime).next_handle, place_from(old(runtime).mem_blocks@, old(runtime).next_ptr))
        }),
{
    let sz: u32 = if size < 16 { 16 } else { size };
    if runtime.next_ptr < HEAP_LOW || runtime.next_ptr > HEAP_HIGH {
        runtime.next_ptr = heap_top_of(&runtime.mem_blocks);
    }
    let handle = runtime.next_handle;
    runtime.next_handle = runtime.next_handle.saturating_add(1);
    let ptr = runtime.next_ptr;
    runtime.next_ptr = runtime.next_ptr.saturating_add(sz.saturating_add(16));
    runtime.mem_blocks.push(MemBlock { handle, ptr, size: sz, locked: false });
    (handle, ptr)
}

/// `MemHandleNew(size)`: a block of the requested size (see
/// [`request_size`]) is allocated; its handle goes to A0 and D0.
pub fn mem_handle_new_trap(cpu: &mut CpuState68k, runtime: &mut PrcRuntimeContext, memory: &MemoryMap)
    ensures
        ({
            let r = regs(*old(cpu));
            let (bs, nh, np) = alloc_spec(old(runtime).mem_blocks@, old(runtime).next_handle, old(runtime).next_ptr,
                request_size(r, memory@));
            &&& final(runtime).mem_blocks@ == bs
            &&& *final(runtime) == (PrcRuntimeContext {
                mem_blocks: final(runtime).mem_blocks,
                next_handle: nh,
                next_ptr: np,
                ..*old(runtime)
            })
            &&& regs(*final(cpu)) == r.with_a(0, old(runtime).next_handle).with_d(0, old(runtime).next_handle)
        }),
        final(cpu).call_stack == old(cpu).call_stack,
{
    let size = request_size_of(cpu, memory);
    let (handle, _ptr) = alloc_block(runtime, size);
    cpu.a[0] = handle;
    cpu.d[0] = handle;
}

/// `MemPtrNew(size)`: as `MemHandleNew`, but the block's address goes to A0
/// and D0.
pub fn mem_ptr_new_trap(cpu: &mut CpuState68k, runtime: &mut PrcRuntimeContext, memory: &MemoryMap)
    ensures
        ({
            let r = regs(*old(cpu));
            let (bs, nh, np) = alloc_spec(old(runtime).mem_blocks@, old(runtime).next_handle, old(runtime).next_ptr,
                request_size(r, memory@));
            let p = place_from(old(runtime).mem_blocks@, old(runtime).next_ptr);
            &&& final(runtime).mem_blocks@ == bs
            &&& *final(runtime) == (PrcRuntimeContext {
                mem_blocks: final(runtime).mem_blocks,
                next_handle: nh,
                next_ptr: np,
                ..*old(runtime)
            })
            &&& regs(*final(cpu)) == r.with_a(0, p).with_d(0, p)
        }),
        final(cpu).call_stack == old(cpu).call_stack,
{
    let size = request_size_of(cpu, memory);
    let (_handle, ptr) = alloc_block(runtime, size);
    cpu.a[0] = ptr;
    cpu.d[0] = ptr;
}

/// `MemHandleSize(h)`: D0 gets the size of the block the handle argument
/// names (see [`handle_arg`]), or 0.
pub fn mem_handle_size_trap(cpu: &mut CpuState68k, runtime: &PrcRuntimeContext, memory: &MemoryMap)
    ensures
        ({
            let r = regs(*old(cpu));
            let bs = runtime.mem_blocks@;
            let size = match find_handle(bs, handle_arg(bs, r, memory@), 0) {
                Some(i) => bs[i].size,
                None => 0u32,
            };
            regs(*final(cpu)) == r.with_d(0, size)
        }),
        final(cpu).call_stack == old(cpu).call_stack,
{
    let h = decode_handle_arg(&runtime.mem_blocks, cpu, memory);
    let size = match find_handle_index(&runtime.mem_blocks, h) {
        Some(i) => runtime.mem_blocks[i].size,
        None => 0,
    };
    cpu.d[0] = size;
}

/// `MemHandleUnlock(h)`: the block the handle argument names is unlocked;
/// D0 gets 0.
pub fn mem_handle_unlock_trap(cpu: &mut CpuState68k, runtime: &mut PrcRuntimeContext, memory: &MemoryMap)
    ensures
        ({
            let bs = old(runtime).mem_blocks@;
            let h = handle_arg(bs, regs(*old(cpu)), memory@);
            &&& final(runtime).mem_blocks@ == match find_handle(bs, h, 0) {
                Some(i) => bs.update(i, MemBlock { locked: false, ..bs[i] }),
                None => bs,
            }
            &&& *final(runtime) == (PrcRuntimeContext { mem_blocks: final(runtime).mem_blocks, ..*old(runtime) })
        }),
        regs(*final(cpu)) == regs(*old(cpu)).with_d(0, 0),
        final(cpu).call_stack == old(cpu).call_stack,
{
    let h = decode_handle_arg(&runtime.mem_blocks, cpu, memory);
    if let Some(i) = find_handle_index(&runtime.mem_blocks, h) {
        let b = runtime.mem_blocks[i];
        runtime.mem_blocks.set(i, MemBlock { locked: false, ..b });
    }
    cpu.d[0] = 0;
}

/// `MemHandleFree(h)`: the block the handle argument names is given back
/// (see [`free_spec`]); D0 gets 0, or 1 when it names no block.
pub fn mem_handle_free_trap(cpu: &mut CpuState68k, runtime: &mut PrcRuntimeContext, memory: &MemoryMap)
    ensures
        ({
            let bs = old(runtime).mem_blocks@;
            let (nbs, err) = free_spec(bs, handle_arg(bs, regs(*old(cpu)), memory@));
            &&& final(runtime).mem_blocks@ == nbs
            &&& *final(runtime) == (PrcRuntimeContext { mem_blocks: final(runtime).mem_blocks, ..*old(runtime) })
            &&& regs(*final(cpu)) == regs(*old(cpu)).with_d(0, err)
        }),
        final(cpu).call_stack == old(cpu).call_stack,
{
    let h = decode_handle_arg(&runtime.mem_blocks, cpu, memory);
    match find_handle_index(&runtime.mem_blocks, h) {
        Some(i) => {
            runtime.mem_blocks.swap_remove(i);
            cpu.d[0] = 0;
        },
        None => {
            cpu.d[0] = 1;
        },
    }
}

/// The pointer argument of `MemChunkFree`: the first non-zero of the long at
/// the stack pointer (0 when unreadable), A0 and D0; else 0.
pub open spec fn chunk_arg(r: Regs, m: MemView) -> u32 {
    let s = or_u32(m.read32(r.a[7]), 0);
    if s != 0 {
        s
    } else if r.a[0] != 0 {
        r.a[0]
    } else {
        r.d[0]
    }
}

/// `MemChunkFree(p)`: the first block placed at the pointer argument is
/// given back, if there is one; D0 gets 0 either way.
pub fn mem_chunk_free_trap(cpu: &mut CpuState68k, runtime: &mut PrcRuntimeContext, memory: &MemoryMap)
    ensures
        ({
            let bs = old(runtime).mem_blocks@;
            &&& final(runtime).mem_blocks@ == match find_ptr(bs, chunk_arg(regs(*old(cpu)), memory@), 0) {
                Some(i) => swap_out(bs, i),
                None => bs,
            }
            &&& *final(runtime) == (PrcRuntimeContext { mem_blocks: final(runtime).mem_blocks, ..*old(runtime) })
        }),
        regs(*final(cpu)) == regs(*old(cpu)).with_d(0, 0),
        final(cpu).call_stack == old(cpu).call_stack,
{
    let s = match memory.read_u32_be(cpu.a[7]) {
        Some(v) => v,
        None => 0,
    };
    let p = if s != 0 { s } else if cpu.a[0] != 0 { cpu.a[0] } else { cpu.d[0] };
    if let Some(i) = find_ptr_index(&runtime.mem_blocks, p) {
        runtime.mem_blocks.swap_remove(i);
    }
    cpu.d[0] = 0;
}

proof fn lemma_find_handle_found(bs: Seq<MemBlock>, h: u32, i: int)
    requires
        0 <= i,
    ensures
        find_handle(bs, h, i) matches Some(k) ==> i <= k < bs.len() && bs[k].handle == h,
        find_handle(bs, h, i) is None ==> forall|k: int| i <= k < bs.len() ==> bs[k].handle != h,
    decreases bs.len() - i,
{
    if i < bs.len() && bs[i].handle != h {
        lemma_find_handle_found(bs, h, i + 1);
    }
}

/// `MemHandleFree` of a handle that names a block takes out exactly that
/// block: one block fewer, every other block kept, and the first block with
/// that handle gone from its place; a handle that names none changes nothing.
pub proof fn lemma_free_removes_exactly(bs: Seq<MemBlock>, h: u32)
    ensures
        find_handle(bs, h, 0) matches Some(i) ==> ({
            let (nbs, err) = free_spec(bs, h);
            &&& err == 0
            &&& bs[i].handle == h
            &&& nbs.len() == bs.len() - 1
            &&& forall|k: int| 0 <= k < bs.len() && k != i ==> nbs.contains(#[trigger] bs[k])
            &&& forall|k: int| 0 <= k < nbs.len() ==> (k == i ==> nbs[k] == bs.last()) && (k != i ==> nbs[k] == bs[k])
        }),
        find_handle(bs, h, 0) is None ==> free_spec(bs, h) == (bs, 1u32) && forall|k: int|
            0 <= k < bs.len() ==> #[trigger] bs[k].handle != h,
{
    lemma_find_handle_found(bs, h, 0);
    if let Some(i) = find_handle(bs, h, 0) {
        let nbs = swap_out(bs, i);
        assert forall|k: int| 0 <= k < bs.len() && k != i implies nbs.contains(#[trigger] bs[k]) by {
            if k == bs.len() - 1 {
                assert(nbs[i] == bs[k]);
            } else {
                assert(nbs[k] == bs[k]);
            }
        }
    }
}

/// The address just past the highest block in the heap window among the
/// first `n` blocks other than block `skip`, with a 16-byte gap, and no
/// lower than `floor`.
pub open spec fn heap_top_except(bs: Seq<MemBlock>, n: int, skip: int, floor: u32) -> u32
    decreases n,
{
    if n <= 0 {
        floor
    } else {
        let rest = heap_top_except(bs, n - 1, skip, floor);
        let b = bs[n - 1];
        let end = sat_add32(sat_add32(b.ptr, b.size), 16);
        if n - 1 != skip && HEAP_LOW <= b.ptr <= 0x2FFF_FFFF && end > rest {
            end
        } else {
            rest
        }
    }
}

/// The heap after block `i` is locked, and where it lies: a block without a
/// real address (`u32::MAX` or below `0x1000`) is first placed past the
/// highest other block in the window (and the saved placement, at least
/// `HEAP_LOW`), the next placement moving past it.
pub open spec fn lock_spec(bs: Seq<MemBlock>, next_ptr: u32, i: int) -> (Seq<MemBlock>, u32, u32) {
    let b = bs[i];
    if b.ptr == u32::MAX || b.ptr < 0x1000 {
        let high = heap_top_except(bs, bs.len() as int, i, max_u32(next_ptr, HEAP_LOW));
        (bs.update(i, MemBlock { ptr: high, locked: true, ..b }), sat_add32(high, sat_add32(b.size, 16)), high)
    } else {
        (bs.update(i, MemBlock { locked: true, ..b }), next_ptr, b.ptr)
    }
}

/// `MemHandleLock(h)`: the block the handle argument names is locked (see
/// [`lock_spec`]) and its address goes to A0, and to A2 when A2 is below
/// `0x10000`; a handle that names no block gives a null A0.
pub fn mem_handle_lock_trap(cpu: &mut CpuState68k, runtime: &mut PrcRuntimeContext, memory: &MemoryMap)
    ensures
        ({
            let r = regs(*old(cpu));
            let bs = old(runtime).mem_blocks@;
            match find_handle(bs, handle_arg(bs, r, memory@), 0) {
                Some(i) => {
                    let (nbs, np, p) = lock_spec(bs, old(runtime).next_ptr, i);
                    &&& final(runtime).mem_blocks@ == nbs
                    &&& *final(runtime) == (PrcRuntimeContext {
                        mem_blocks: final(runtime).mem_blocks,
                        next_ptr: np,
                        ..*old(runtime)
                    })
                    &&& regs(*final(cpu)) == if r.a[2] < 0x1_0000 { r.with_a(0, p).with_a(2, p) } else { r.with_a(0, p) }
                },
                None => *final(runtime) == *old(runtime) && regs(*final(cpu)) == r.with_a(0, 0),
            }
        }),
        final(cpu).call_stack == old(cpu).call_stack,
{
    let h = decode_handle_arg(&runtime.mem_blocks, cpu, memory);
    let idx = match find_handle_index(&runtime.mem_blocks, h) {
        Some(i) => i,
        None => {
            cpu.a[0] = 0;
            return;
        },
    };
    let b = runtime.mem_blocks[idx];
    if b.ptr == u32::MAX || b.ptr < 0x1000 {
        let mut high: u32 = if runtime.next_ptr >= HEAP_LOW { runtime.next_ptr } else { HEAP_LOW };
        let mut j: usize = 0;
        while j < runtime.mem_blocks.len()
            invariant
                j <= runtime.mem_blocks@.len(),
                idx < runtime.mem_blocks@.len(),
                *runtime == *old(runtime),
                high == heap_top_except(runtime.mem_blocks@, j as int, idx as int, max_u32(runtime.next_ptr, HEAP_LOW)),
            decreases runtime.mem_blocks@.len() - j,
        {
            let c = runtime.mem_blocks[j];
            let end = c.ptr.saturating_add(c.size).saturating_add(16);
            if j != idx && HEAP_LOW <= c.ptr && c.ptr <= 0x2FFF_FFFF && end > high {
                high = end;
            }
            j += 1;
        }
        runtime.mem_blocks.set(idx, MemBlock { ptr: high, locked: true, ..b });
        runtime.next_ptr = high.saturating_add(b.size.saturating_add(16));
    } else {
        runtime.mem_blocks.set(idx, MemBlock { locked: true, ..b });
    }
    let p = runtime.mem_blocks[idx].ptr;
    cpu.a[0] = p;
    if cpu.a[2] < 0x1_0000 {
        cpu.a[2] = p;
    }
}

proof fn lemma_find_handle_push(bs: Seq<MemBlock>, b: MemBlock, i: int)
    requires
        0 <= i <= bs.len(),
        forall|k: int| i <= k < bs.len() ==> #[trigger] bs[k].handle != b.handle,
    ensures
        find_handle(bs.push(b), b.handle, i) == Some(bs.len() as int),
    decreases bs.len() - i,
{
    if i < bs.len() {
        assert(bs.push(b)[i] == bs[i]);
        lemma_find_handle_push(bs, b, i + 1);
    } else {
        assert(bs.push(b)[i] == b);
    }
}

/// A block allocated under a handle that no block has is found by that
/// handle, at the end of the heap, with the size allocated (at least 16).
pub proof fn lemma_alloc_then_find(bs: Seq<MemBlock>, next_handle: u32, next_ptr: u32, size: u32)
    requires
        forall|k: int| 0 <= k < bs.len() ==> #[trigger] bs[k].handle != next_handle,
    ensures
        ({
            let (nbs, _, _) = alloc_spec(bs, next_handle, next_ptr, size);
            &&& find_handle(nbs, next_handle, 0) == Some(bs.len() as int)
            &&& nbs[bs.len() as int].size == if size < 16 { 16 } else { size }
            &&& !nbs[bs.len() as int].locked
        }),
{
    let sz: u32 = if size < 16 { 16u32 } else { size };
    let b = MemBlock { handle: next_handle, ptr: place_from(bs, next_ptr), size: sz, locked: false };
    lemma_find_handle_push(bs, b, 0);
}

/// Locking a block keeps its handle and size, and leaves it locked; the
/// other blocks are untouched.
pub proof fn lemma_lock_keeps_block(bs: Seq<MemBlock>, next_ptr: u32, i: int)
    requires
        0 <= i < bs.len(),
    ensures
        ({
            let (nbs, _, p) = lock_spec(bs, next_ptr, i);
            &&& nbs.len() == bs.len()
            &&& nbs[i].handle == bs[i].handle && nbs[i].size == bs[i].size && nbs[i].locked && nbs[i].ptr == p
            &&& forall|k: int| 0 <= k < bs.len() && k != i ==> nbs[k] == bs[k]
        }),
{
}

} // verus!
