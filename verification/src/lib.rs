//! Core logic of a handheld reader shell that also hosts a small Palm OS
//! runtime: the 68000 instruction executor, Palm resource decoding, and the
//! reader and launcher state machines.
pub mod framebuffer;
pub mod input;
pub mod ui;
pub mod palm;
pub mod app;
pub mod application;
pub mod trbk;
pub mod image_viewer;
