//! Instruction groups. Each `execute` returns `Ok(true)` when it ran the
//! instruction word, `Ok(false)` when the word belongs to another group.

pub mod alu;
pub mod logic;
pub mod extra;
pub mod cond;
pub mod branch;
pub mod movem;
pub mod muldiv;
pub mod shiftmem;
pub mod system;
