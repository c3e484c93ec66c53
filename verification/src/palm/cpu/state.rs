use vstd::prelude::*;

verus! {

/// Why the executor stopped instead of completing an instruction.
#[derive(Clone, Copy, Debug, PartialEq, Eq, Structural)]
pub enum StopReason {
    /// An operand or extension word lay outside mapped memory.
    OutOfBounds { pc: u32 },
    /// The instruction raised the exception `vector`.
    Trap { vector: u8, pc: u32 },
    /// The instruction word is not one this executor runs.
    UnknownOpcode { pc: u32, word: u16 },
}

/// The 68000 programmer-visible registers.
pub struct CpuState68k {
    /// Data registers D0-D7.
    pub d: [u32; 8],
    /// Address registers A0-A7 (A7 is the stack pointer).
    pub a: [u32; 8],
    pub pc: u32,
    /// Status register; its low five bits are the condition codes X N Z V C.
    pub sr: u16,
    /// Return addresses pushed by subroutine calls, for diagnostics.
    pub call_stack: Vec<u32>,
}

pub const SR_C: u16 = 0x0001;
pub const SR_V: u16 = 0x0002;
pub const SR_Z: u16 = 0x0004;
pub const SR_N: u16 = 0x0008;
pub const SR_X: u16 = 0x0010;

impl CpuState68k {
    /// A CPU with every register cleared.
    pub fn new() -> (s: CpuState68k)
        ensures
            forall|i: int| 0 <= i < 8 ==> s.d[i] == 0 && s.a[i] == 0,
            s.pc == 0,
            s.sr == 0,
            s.call_stack@.len() == 0,
    {
        CpuState68k { d: [0; 8], a: [0; 8], pc: 0, sr: 0, call_stack: Vec::new() }
    }
}

} // verus!
