//! A verified interpreter core for an 8-bit virtual CPU with 4096 bytes of
//! memory, sixteen byte registers, a sixteen-level call stack, a 64x32
//! monochrome framebuffer, a sixteen-key input latch and two countdown timers.
//!
//! The instruction semantics are given as specification functions over a
//! mathematical model of the machine state ([`semantics`]); the executable
//! machine ([`chip8`]) is proved to follow them, instruction by instruction.
//! Fatal conditions (stack overflow or underflow, an address outside memory)
//! are surfaced as typed faults that leave the machine state untouched.

pub mod chip8;
pub mod laws;
pub mod semantics;
