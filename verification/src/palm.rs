//! Palm OS compatibility: the 68000 executor and resource decoding.
pub mod cpu;
pub mod text;
pub mod prc;
pub mod runtime;
pub mod bitmap;
pub mod menu_preview;
pub mod trap_stub;
pub mod compat;
pub mod shell;
