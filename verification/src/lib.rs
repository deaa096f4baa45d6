//! A CHIP-8 style virtual CPU: a fetch-decode-execute engine over a 4096-byte
//! memory, a 16-register file, a bounded call stack, a 64x32 monochrome
//! framebuffer with XOR sprite drawing, a 16-key bitmask, and a pair of
//! wall-clock driven countdown timers.

pub mod cpu;
pub mod fault;
pub mod memory;
pub mod opt;
