//! The verified core of a small bare-metal kernel: the heap arena behind its
//! global allocator, the boot memory map and the frames taken from it, the
//! table of interrupt handlers, and the line-editing shell that runs on top
//! of them.
//!
//! Everything here is a function from plain values to plain values. Hardware
//! access, global state and the processor's halt loop live with the binary
//! that links this library.

pub mod allocator;
pub mod dispatch;
pub mod frame_allocator;
pub mod memory;
pub mod screen;
pub mod shell;
pub mod text;
