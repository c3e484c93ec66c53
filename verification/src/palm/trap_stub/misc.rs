//! Stubs that answer from their arguments alone: `DayOfWeek`, the library
//! lookups `SysLibFind` and `SysLibLoad`, and `WinGetBounds`.
use vstd::prelude::*;
use crate::palm::cpu::ea::{regs, sat_add32, Regs};
use crate::palm::cpu::memory::{MemView, MemoryMap};
use crate::palm::cpu::state::CpuState68k;
use crate::palm::trap_stub::or_u32;

verus! {

/// The day of the week (0 Sunday to 6 Saturday) of a date, by Zeller's
/// congruence. A month outside 1..=12 counts as January, a day outside
/// 1..=31 as the first, and a two-digit year as one of the 1900s.
pub open spec fn day_of_week(month: u16, day: u16, year: u16) -> u32 {
    let month: int = if month == 0 || month > 12 { 1 } else { month as int };
    let day: int = if day == 0 || day > 31 { 1 } else { day as int };
    let year: int = if year < 100 { year + 1900 } else { year as int };
    let y: int = if month < 3 { year - 1 } else { year };
    let m: int = if month < 3 { month + 12 } else { month };
    let h = (day + (13 * (m + 1)) / 5 + y % 100 + (y % 100) / 4 + (y / 100) / 4 + 5 * (y / 100)) % 7;
    ((h + 6) % 7) as u32
}

/// The word `off` bytes up the stack, or the low word of `fallback`.
pub open spec fn stack_word(r: Regs, m: MemView, off: u32, fallback: u32) -> u16 {
    match m.read16(sat_add32(r.a[7], off)) {
        Some(v) => v,
        None => (fallback & 0xFFFF) as u16,
    }
}

/// `DayOfWeek(month, day, year)`: the day of the week of the date on the
/// stack (each word falling back to the low word of D0, D1 and D2) in the
/// low word of D0, its high word kept.
#[verifier::spinoff_prover]
#[verifier::rlimit(40)]
pub fn day_of_week_trap(cpu: &mut CpuState68k, memory: &MemoryMap)
    ensures
        ({
            let r = regs(*old(cpu));
            let m = memory@;
            let dow = day_of_week(stack_word(r, m, 0, r.d[0]), stack_word(r, m, 2, r.d[1]), stack_word(r, m, 4, r.d[2]));
            regs(*final(cpu)) == r.with_d(0, (r.d[0] & 0xFFFF_0000) | dow)
        }),
        final(cpu).call_stack == old(cpu).call_stack,
{
    let sp = cpu.a[7];
    let month = match memory.read_u16_be(sp) {
        Some(v) => v,
        None => (cpu.d[0] & 0xFFFF) as u16,
    };
    let day = match memory.read_u16_be(sp.saturating_add(2)) {
        Some(v) => v,
        None => (cpu.d[1] & 0xFFFF) as u16,
    };
    let year = match memory.read_u16_be(sp.saturating_add(4)) {
        Some(v) => v,
        None => (cpu.d[2] & 0xFFFF) as u16,
    };
    let month: u32 = if month == 0 || month > 12 { 1 } else { month as u32 };
    let day: u32 = if day == 0 || day > 31 { 1 } else { day as u32 };
    let year: u32 = if year < 100 { year as u32 + 1900 } else { year as u32 };
    let y: u32 = if month < 3 { year - 1 } else { year };
    let m: u32 = if month < 3 { month + 12 } else { month };
    let h = (day + (13 * (m + 1)) / 5 + y % 100 + (y % 100) / 4 + (y / 100) / 4 + 5 * (y / 100)) % 7;
    let dow = (h + 6) % 7;
    cpu.d[0] = (cpu.d[0] & 0xFFFF_0000) | dow;
}

/// Whether `p` is a non-null mapped address.
pub open spec fn usable(m: MemView, p: u32) -> bool {
    p != 0 && m.mapped(p, 1)
}

/// The first usable of five candidate pointers, or 0.
pub open spec fn first_usable(m: MemView, c0: u32, c1: u32, c2: u32, c3: u32, c4: u32) -> u32 {
    if usable(m, c0) {
        c0
    } else if usable(m, c1) {
        c1
    } else if usable(m, c2) {
        c2
    } else if usable(m, c3) {
        c3
    } else if usable(m, c4) {
        c4
    } else {
        0
    }
}

/// The long `off` bytes up the stack, or 0.
pub open spec fn stack_long(r: Regs, m: MemView, off: u32) -> u32 {
    or_u32(m.read32(sat_add32(r.a[7], off)), 0)
}

/// Where `SysLibFind` (`load` false) or `SysLibLoad` (`load` true) puts the
/// library's reference number: the first usable of A1, D1 and the longs 4, 6
/// and 8 bytes up the stack; for `SysLibLoad`, of A0, A1 and the longs 6, 8
/// and 10 bytes up.
pub open spec fn refnum_ptr(r: Regs, m: MemView, load: bool) -> u32 {
    if load {
        first_usable(m, r.a[0], r.a[1], stack_long(r, m, 6), stack_long(r, m, 8), stack_long(r, m, 10))
    } else {
        first_usable(m, r.a[1], r.d[1], stack_long(r, m, 4), stack_long(r, m, 6), stack_long(r, m, 8))
    }
}

fn is_usable(memory: &MemoryMap, p: u32) -> (b: bool)
    ensures
        b == usable(memory@, p),
{
    p != 0 && memory.read_u8(p).is_some()
}

fn stack_long_at(cpu: &CpuState68k, memory: &MemoryMap, off: u32) -> (v: u32)
    ensures
        v == stack_long(regs(*cpu), memory@, off),
{
    match memory.read_u32_be(cpu.a[7].saturating_add(off)) {
        Some(v) => v,
        None => 0,
    }
}

fn first_usable_of(memory: &MemoryMap, c0: u32, c1: u32, c2: u32, c3: u32, c4: u32) -> (p: u32)
    ensures
        p == first_usable(memory@, c0, c1, c2, c3, c4),
{
    if is_usable(memory, c0) {
        c0
    } else if is_usable(memory, c1) {
        c1
    } else if is_usable(memory, c2) {
        c2
    } else if is_usable(memory, c3) {
        c3
    } else if is_usable(memory, c4) {
        c4
    } else {
        0
    }
}

/// `SysLibFind` and `SysLibLoad`: reference number 1 is written where
/// [`refnum_ptr`] points (nothing when it is 0); D0 gets 0.
pub fn lib_refnum_trap(cpu: &mut CpuState68k, memory: &mut MemoryMap, load: bool)
    ensures
        ({
            let r = regs(*old(cpu));
            let p = refnum_ptr(r, old(memory)@, load);
            &&& final(memory)@ == if p != 0 { old(memory)@.write16(p, 1) } else { old(memory)@ }
            &&& regs(*final(cpu)) == r.with_d(0, 0)
        }),
        final(cpu).call_stack == old(cpu).call_stack,
{
    let p = if load {
        let c2 = stack_long_at(cpu, memory, 6);
        let c3 = stack_long_at(cpu, memory, 8);
        let c4 = stack_long_at(cpu, memory, 10);
        first_usable_of(memory, cpu.a[0], cpu.a[1], c2, c3, c4)
    } else {
        let c2 = stack_long_at(cpu, memory, 4);
        let c3 = stack_long_at(cpu, memory, 6);
        let c4 = stack_long_at(cpu, memory, 8);
        first_usable_of(memory, cpu.a[1], cpu.d[1], c2, c3, c4)
    };
    if p != 0 {
        memory.write_u16_be(p, 1);
    }
    cpu.d[0] = 0;
}

/// The memory after a rectangle is written at `p`: left, top, width and
/// height as words.
pub open spec fn write_rect(m: MemView, p: u32, x: u16, y: u16, w: u16, h: u16) -> MemView {
    m.write16(p, x).write16(sat_add32(p, 2), y).write16(sat_add32(p, 4), w).write16(sat_add32(p, 6), h)
}

/// `WinGetBounds(win, rectP)`: the 160x160 screen at the origin is written
/// at the first usable of A1, D1 and the longs 4, 6 and 8 bytes up the
/// stack (nowhere when none is); D0 gets 0.
pub fn win_get_bounds_trap(cpu: &mut CpuState68k, memory: &mut MemoryMap)
    ensures
        ({
            let r = regs(*old(cpu));
            let p = refnum_ptr(r, old(memory)@, false);
            &&& final(memory)@ == if p != 0 { write_rect(old(memory)@, p, 0, 0, 160, 160) } else { old(memory)@ }
            &&& regs(*final(cpu)) == r.with_d(0, 0)
        }),
        final(cpu).call_stack == old(cpu).call_stack,
{
    let c2 = stack_long_at(cpu, memory, 4);
    let c3 = stack_long_at(cpu, memory, 6);
    let c4 = stack_long_at(cpu, memory, 8);
    let p = first_usable_of(memory, cpu.a[1], cpu.d[1], c2, c3, c4);
    if p != 0 {
        memory.write_u16_be(p, 0);
        memory.write_u16_be(p.saturating_add(2), 0);
        memory.write_u16_be(p.saturating_add(4), 160);
        memory.write_u16_be(p.saturating_add(6), 160);
    }
    cpu.d[0] = 0;
}

/// The selector of `PinsDispatch`: the low word of D2 when at most 64, else
/// the first of the four stack words (0 when unreadable) that is at most
/// 64, else 0.
pub open spec fn pins_selector(r: Regs, m: MemView) -> u16 {
    let d2 = (r.d[2] & 0xFFFF) as u16;
    let w = |off: u32| match m.read16(sat_add32(r.a[7], off)) {
        Some(v) => v,
        None => 0u16,
    };
    if d2 <= 64 {
        d2
    } else if w(0) <= 64 {
        w(0)
    } else if w(2) <= 64 {
        w(2)
    } else if w(4) <= 64 {
        w(4)
    } else if w(6) <= 64 {
        w(6)
    } else {
        0
    }
}

/// Where `StatGetAttribute` writes: the first usable of A1, D1 and the longs
/// 2, 4 and 6 bytes up the stack.
pub open spec fn stat_data_ptr(r: Regs, m: MemView) -> u32 {
    first_usable(m, r.a[1], r.d[1], stack_long(r, m, 2), stack_long(r, m, 4), stack_long(r, m, 6))
}

fn stack_word_or_zero(cpu: &CpuState68k, memory: &MemoryMap, off: u32) -> (v: u16)
    ensures
        v == match memory@.read16(sat_add32(cpu.a[7], off)) {
            Some(v) => v,
            None => 0u16,
        },
{
    match memory.read_u16_be(cpu.a[7].saturating_add(off)) {
        Some(v) => v,
        None => 0,
    }
}

/// `PinsDispatch`: selector 1 (`PINGetInputAreaState`) answers 2, the
/// input area hidden; selector 18 (`StatGetAttribute`) writes 0 where
/// [`stat_data_ptr`] points and answers 0; every other selector answers 0.
pub fn pins_dispatch_trap(cpu: &mut CpuState68k, memory: &mut MemoryMap)
    ensures
        ({
            let r = regs(*old(cpu));
            let m = old(memory)@;
            let sel = pins_selector(r, m);
            let p = stat_data_ptr(r, m);
            &&& final(memory)@ == if sel == 18 && p != 0 { m.write32(p, 0) } else { m }
            &&& regs(*final(cpu)) == r.with_d(0, if sel == 1 { 2 } else { 0 })
        }),
        final(cpu).call_stack == old(cpu).call_stack,
{
    let d2 = (cpu.d[2] & 0xFFFF) as u16;
    let selector = if d2 <= 64 {
        d2
    } else {
        let w0 = stack_word_or_zero(cpu, memory, 0);
        let w1 = stack_word_or_zero(cpu, memory, 2);
        let w2 = stack_word_or_zero(cpu, memory, 4);
        let w3 = stack_word_or_zero(cpu, memory, 6);
        if w0 <= 64 {
            w0
        } else if w1 <= 64 {
            w1
        } else if w2 <= 64 {
            w2
        } else if w3 <= 64 {
            w3
        } else {
            0
        }
    };
    if selector == 1 {
        cpu.d[0] = 2;
    } else if selector == 18 {
        let c2 = stack_long_at(cpu, memory, 2);
        let c3 = stack_long_at(cpu, memory, 4);
        let c4 = stack_long_at(cpu, memory, 6);
        let p = first_usable_of(memory, cpu.a[1], cpu.d[1], c2, c3, c4);
        if p != 0 {
            memory.write_u32_be(p, 0);
        }
        cpu.d[0] = 0;
    } else {
        cpu.d[0] = 0;
    }
}

/// The date and time fields `TimSecondsToDateTime` writes for `s` seconds:
/// second, minute, hour, day (1 to 28), month (months of 30 days), year
/// (from 2000, years of 365 days, wrapping every 50) and weekday.
pub open spec fn date_time_fields(s: u32) -> Seq<u16> {
    seq![
        (s % 60) as u16,
        ((s / 60) % 60) as u16,
        ((s / 3600) % 24) as u16,
        (((s / 86400) % 28) + 1) as u16,
        (((s / 2_592_000u32) % 12) + 1) as u16,
        (2000 + ((s / 31_536_000u32) % 50)) as u16,
        ((s / 86400) % 7) as u16
    ]
}

fn date_time_fields_of(s: u32) -> (f: (u16, u16, u16, u16, u16, u16, u16))
    ensures
        ({
            let g = date_time_fields(s);
            g[0] == f.0 && g[1] == f.1 && g[2] == f.2 && g[3] == f.3 && g[4] == f.4 && g[5] == f.5 && g[6] == f.6
        }),
{
    (
        (s % 60) as u16,
        ((s / 60) % 60) as u16,
        ((s / 3600) % 24) as u16,
        (((s / 86400) % 28) + 1) as u16,
        (((s / 2_592_000) % 12) + 1) as u16,
        (2000 + ((s / 31_536_000) % 50)) as u16,
        ((s / 86400) % 7) as u16,
    )
}

/// The memory after the seven words of a date and time are written at `p`.
pub open spec fn write_date_time(m: MemView, p: u32, f: Seq<u16>) -> MemView {
    m.write16(p, f[0]).write16(sat_add32(p, 2), f[1]).write16(sat_add32(p, 4), f[2]).write16(sat_add32(p, 6), f[3])
        .write16(sat_add32(p, 8), f[4]).write16(sat_add32(p, 10), f[5]).write16(sat_add32(p, 12), f[6])
}

/// The seconds argument of `TimSecondsToDateTime`: the long at the stack
/// pointer unless it is 0 or unreadable, else D0.
pub open spec fn seconds_arg(r: Regs, m: MemView) -> u32 {
    let s = or_u32(m.read32(r.a[7]), r.d[0]);
    if s == 0 { r.d[0] } else { s }
}

/// `TimSecondsToDateTime(seconds, dtP)`: the fields of [`date_time_fields`]
/// are written at the pointer four bytes up the stack (or A0) when it is
/// non-null and mapped; D0 gets 0.
#[verifier::spinoff_prover]
pub fn seconds_to_date_time_trap(cpu: &mut CpuState68k, memory: &mut MemoryMap)
    ensures
        ({
            let r = regs(*old(cpu));
            let m = old(memory)@;
            let p = or_u32(m.read32(sat_add32(r.a[7], 4)), r.a[0]);
            &&& final(memory)@ == if usable(m, p) { write_date_time(m, p, date_time_fields(seconds_arg(r, m))) } else { m }
            &&& regs(*final(cpu)) == r.with_d(0, 0)
        }),
        final(cpu).call_stack == old(cpu).call_stack,
{
    let sp = cpu.a[7];
    let mut seconds = match memory.read_u32_be(sp) {
        Some(v) => v,
        None => cpu.d[0],
    };
    if seconds == 0 {
        seconds = cpu.d[0];
    }
    let dt_p = match memory.read_u32_be(sp.saturating_add(4)) {
        Some(v) => v,
        None => cpu.a[0],
    };
    if is_usable(memory, dt_p) {
        let f = date_time_fields_of(seconds);
        let ghost m0 = memory@;
        memory.write_u16_be(dt_p, f.0);
        memory.write_u16_be(dt_p.saturating_add(2), f.1);
        memory.write_u16_be(dt_p.saturating_add(4), f.2);
        memory.write_u16_be(dt_p.saturating_add(6), f.3);
        memory.write_u16_be(dt_p.saturating_add(8), f.4);
        memory.write_u16_be(dt_p.saturating_add(10), f.5);
        memory.write_u16_be(dt_p.saturating_add(12), f.6);
        proof {
            let g = date_time_fields(seconds);
            assert(g[0] == f.0 && g[1] == f.1 && g[2] == f.2 && g[3] == f.3 && g[4] == f.4 && g[5] == f.5 && g[6] == f.6);
        }
    }
    cpu.d[0] = 0;
}

/// The memory after the `n` bytes from `p` (the address saturating at the
/// top) are cleared, in order.
pub open spec fn zero_fill(m: MemView, p: u32, n: nat) -> MemView
    decreases n,
{
    if n == 0 {
        m
    } else {
        zero_fill(m, p, (n - 1) as nat).write8(sat_add32(p, (n - 1) as u32), 0)
    }
}

/// Where `PrefGetPreferences` writes: the first usable of the long at the
/// stack pointer (0 when unreadable), A0 and A1.
pub open spec fn prefs_ptr(r: Regs, m: MemView) -> u32 {
    first_usable(m, stack_long(r, m, 0), r.a[0], r.a[1], 0, 0)
}

/// `PrefGetPreferences(prefsP)`: the 64 bytes of the preferences record at
/// [`prefs_ptr`] are cleared (nothing when it is 0); D0 gets 0.
pub fn pref_get_preferences_trap(cpu: &mut CpuState68k, memory: &mut MemoryMap)
    ensures
        ({
            let r = regs(*old(cpu));
            let p = prefs_ptr(r, old(memory)@);
            &&& final(memory)@ == if p != 0 { zero_fill(old(memory)@, p, 64) } else { old(memory)@ }
            &&& regs(*final(cpu)) == r.with_d(0, 0)
        }),
        final(cpu).call_stack == old(cpu).call_stack,
{
    let c0 = stack_long_at(cpu, memory, 0);
    let p = first_usable_of(memory, c0, cpu.a[0], cpu.a[1], 0, 0);
    if p != 0 {
        let ghost m0 = memory@;
        let mut i: u32 = 0;
        while i < 64
            invariant
                i <= 64,
                memory@ == zero_fill(m0, p, i as nat),
            decreases 64 - i,
        {
            memory.write_u8(p.saturating_add(i), 0);
            i += 1;
        }
    }
    cpu.d[0] = 0;
}

/// Whether `y` is a leap year of the Gregorian calendar.
pub open spec fn is_leap(y: int) -> bool {
    (y % 4 == 0 && y % 100 != 0) || y % 400 == 0
}

/// The number of days of month `m` (1 to 12) of year `y`.
pub open spec fn days_in_month(m: int, y: int) -> int {
    if m == 2 {
        if is_leap(y) { 29 } else { 28 }
    } else if m == 4 || m == 6 || m == 9 || m == 11 {
        30
    } else {
        31
    }
}

/// The year's share of Zeller's congruence.
spec fn zeller_year(y: int) -> int {
    y % 100 + (y % 100) / 4 + (y / 100) / 4 + 5 * (y / 100)
}

/// Zeller's year term grows by one a year, and by two into a leap year.
proof fn lemma_zeller_year_step(y: int)
    requires
        y >= 100,
    ensures
        (zeller_year(y) - zeller_year(y - 1)) % 7 == if is_leap(y) { 2int } else { 1int },
{
    let k = y % 100;
    let j = y / 100;
    assert(y == 100 * j + k);
    if k != 0 {
        assert((y - 1) % 100 == k - 1 && (y - 1) / 100 == j);
        assert(k % 4 == y % 4);
    } else {
        assert((y - 1) % 100 == 99 && (y - 1) / 100 == j - 1);
        assert((j % 4 == 0) == (y % 400 == 0));
    }
}

/// Zeller's month term of month `m` (13 and 14 for January and February).
spec fn zeller_month(m: int) -> int {
    (13 * (m + 1)) / 5
}

/// The weekday (0 Sunday) of Zeller's sum `a`.
spec fn weekday_of(a: int) -> int {
    ((a % 7) + 6) % 7
}

proof fn lemma_weekday_step(a: int, b: int)
    requires
        (b - a) % 7 == 1,
    ensures
        weekday_of(b) == (weekday_of(a) + 1) % 7,
{
}

/// `day_of_week` of a valid date, as Zeller's sum.
proof fn lemma_day_of_week_sum(m: u16, d: u16, y: u16)
    requires
        1 <= m <= 12,
        1 <= d <= 31,
        y >= 100,
    ensures
        day_of_week(m, d, y) as int == weekday_of(
            d + zeller_month(if m < 3 { m + 12 } else { m as int }) + zeller_year(if m < 3 { y - 1 } else { y as int }),
        ),
{
}

/// The day after any day of a month, within the month, is the next day of
/// the week.
pub proof fn lemma_day_of_week_next_day(m: u16, d: u16, y: u16)
    requires
        1 <= m <= 12,
        1 <= d,
        (d as int) < days_in_month(m as int, y as int),
        y >= 100,
    ensures
        day_of_week(m, (d + 1) as u16, y) == (day_of_week(m, d, y) + 1) % 7,
{
    lemma_day_of_week_sum(m, d, y);
    lemma_day_of_week_sum(m, (d + 1) as u16, y);
    let c = zeller_month(if m < 3 { m + 12 } else { m as int }) + zeller_year(if m < 3 { y - 1 } else { y as int });
    lemma_weekday_step(d + c, d + 1 + c);
}

/// The first of a month follows the last day of the month before it.
#[verifier::spinoff_prover]
#[verifier::rlimit(40)]
pub proof fn lemma_day_of_week_next_month(m: u16, y: u16)
    requires
        1 <= m < 12,
        y >= 101,
    ensures
        day_of_week((m + 1) as u16, 1, y) == (day_of_week(m, days_in_month(m as int, y as int) as u16, y) + 1) % 7,
{
    let last = days_in_month(m as int, y as int);
    lemma_day_of_week_sum(m, last as u16, y);
    lemma_day_of_week_sum((m + 1) as u16, 1, y);
    let ya: int = if m < 3 { y - 1 } else { y as int };
    let yb: int = if m + 1 < 3 { y - 1 } else { y as int };
    let ma: int = if m < 3 { m + 12 } else { m as int };
    let mb: int = if m + 1 < 3 { m + 13 } else { m + 1 };
    let step = (1 + zeller_month(mb) + zeller_year(yb)) - (last + zeller_month(ma) + zeller_year(ya));
    if m == 2 {
        lemma_zeller_year_step(y as int);
        assert(zeller_month(14) == 39 && zeller_month(3) == 10);
        assert(step % 7 == 1);
    } else {
        assert(ya == yb);
        assert(zeller_month(3) == 10 && zeller_month(4) == 13 && zeller_month(5) == 15 && zeller_month(6) == 18);
        assert(zeller_month(7) == 20 && zeller_month(8) == 23 && zeller_month(9) == 26 && zeller_month(10) == 28);
        assert(zeller_month(11) == 31 && zeller_month(12) == 33 && zeller_month(13) == 36 && zeller_month(14) == 39);
        assert(step % 7 == 1);
    }
    lemma_weekday_step(last + zeller_month(ma) + zeller_year(ya), 1 + zeller_month(mb) + zeller_year(yb));
}

/// New Year's Day follows the last day of December.
pub proof fn lemma_day_of_week_next_year(y: u16)
    requires
        100 <= y < 0xFFFF,
    ensures
        day_of_week(1, 1, (y + 1) as u16) == (day_of_week(12, 31, y) + 1) % 7,
{
    lemma_day_of_week_sum(12, 31, y);
    lemma_day_of_week_sum(1, 1, (y + 1) as u16);
    assert(zeller_month(12) == 33 && zeller_month(13) == 36);
    lemma_weekday_step(31 + 33 + zeller_year(y as int), 1 + 36 + zeller_year(y as int));
}

proof fn lemma_weekday_period(a: int)
    ensures
        weekday_of(a + 21) == weekday_of(a),
{
}

proof fn lemma_zeller_year_period(y: int)
    requires
        y >= 0,
    ensures
        zeller_year(y + 400) == zeller_year(y) + 21,
{
    assert((y + 400) % 100 == y % 100);
    assert((y + 400) / 100 == y / 100 + 4);
    assert((y / 100 + 4) / 4 == (y / 100) / 4 + 1);
}

/// The calendar repeats every 400 years.
#[verifier::spinoff_prover]
pub proof fn lemma_day_of_week_period(m: u16, d: u16, y: u16)
    requires
        1 <= m <= 12,
        1 <= d <= 31,
        y >= 100,
        y + 400 <= 0xFFFF,
    ensures
        day_of_week(m, d, (y + 400) as u16) == day_of_week(m, d, y),
{
    lemma_day_of_week_sum(m, d, y);
    lemma_day_of_week_sum(m, d, (y + 400) as u16);
    let yy: int = if m < 3 { y - 1 } else { y as int };
    lemma_zeller_year_period(yy);
    let a = d + zeller_month(if m < 3 { m + 12 } else { m as int }) + zeller_year(yy);
    lemma_weekday_period(a);
}

/// 1 January 2000 was a Saturday; with the steps above and the 400-year
/// period this fixes the weekday of every date from year 100.
pub proof fn lemma_day_of_week_anchor()
    ensures
        day_of_week(1, 1, 2000) == 6,
{
    lemma_day_of_week_sum(1, 1, 2000);
    assert(zeller_month(13) == 36);
    assert(zeller_year(1999) == 99 + 24 + 4 + 95);
}

} // verus!
