//! A Motorola 68000 register file, a flat big-endian memory, and the
//! instruction groups that the Palm runtime executes.

pub mod memory;
pub mod state;
pub mod ea;
pub mod ops;
