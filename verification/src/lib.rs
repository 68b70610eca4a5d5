//! The logic of a small kernel for a single-core ARM64 board: the decoding
//! and dispatch of exceptions, system calls, and the round-robin scheduler
//! of its processes, together with the rules of the parts around them, from
//! the allocator of memory to the command line of the shell. Nothing here
//! touches the hardware: every function takes what was read from the machine
//! as plain values and says what is to be done with it.

pub mod allocator;
pub mod atags;
pub mod draw;
pub mod framebuffer;
pub mod fs;
pub mod interrupt;
pub mod mailbox;
pub mod process;
pub mod propertytag;
pub mod screen;
pub mod shell;
pub mod syscalls;
mod text;
pub mod traps;
pub mod uart;
