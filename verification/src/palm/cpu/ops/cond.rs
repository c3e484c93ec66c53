//! Condition codes and branch targets.
use vstd::prelude::*;

verus! {

/// Whether the 68000 condition `cond` (0-15: T F HI LS CC CS NE EQ VC VS PL
/// MI GE LT GT LE) holds for the status register `sr`.
pub open spec fn cond_holds(sr: u16, cond: u8) -> bool {
    let c = (sr & 0x0001) != 0;
    let v = (sr & 0x0002) != 0;
    let z = (sr & 0x0004) != 0;
    let n = (sr & 0x0008) != 0;
    if cond == 0 {
        true
    } else if cond == 1 {
        false
    } else if cond == 2 {
        !c && !z
    } else if cond == 3 {
        c || z
    } else if cond == 4 {
        !c
    } else if cond == 5 {
        c
    } else if cond == 6 {
        !z
    } else if cond == 7 {
        z
    } else if cond == 8 {
        !v
    } else if cond == 9 {
        v
    } else if cond == 10 {
        !n
    } else if cond == 11 {
        n
    } else if cond == 12 {
        n == v
    } else if cond == 13 {
        n != v
    } else if cond == 14 {
        !z && n == v
    } else {
        z || n != v
    }
}

pub fn sr_cond_true(sr: u16, cond: u8) -> (r: bool)
    ensures
        r == cond_holds(sr, cond),
{
    let c = (sr & 0x0001) != 0;
    let v = (sr & 0x0002) != 0;
    let z = (sr & 0x0004) != 0;
    let n = (sr & 0x0008) != 0;
    match cond {
        0 => true,
        1 => false,
        2 => !c && !z,
        3 => c || z,
        4 => !c,
        5 => c,
        6 => !z,
        7 => z,
        8 => !v,
        9 => v,
        10 => !n,
        11 => n,
        12 => n == v,
        13 => n != v,
        14 => !z && n == v,
        _ => z || n != v,
    }
}

/// `base + disp` when it is a 32-bit address.
pub open spec fn target_spec(base: u32, disp: int) -> Option<u32> {
    if 0 <= base + disp <= u32::MAX {
        Some((base + disp) as u32)
    } else {
        None
    }
}

pub fn target_pc(base: u32, disp: i32) -> (r: Option<u32>)
    ensures
        r == target_spec(base, disp as int),
{
    let t = base as i64 + disp as i64;
    if t >= 0 && t <= u32::MAX as i64 {
        Some(t as u32)
    } else {
        None
    }
}

} // verus!
