//! A verified CHIP-8 virtual machine: a fixed 4096-byte memory, sixteen
//! 8-bit registers, a 16-entry call stack, two countdown timers, a 64x32
//! monochrome framebuffer and a 16-key keypad, driven one instruction at a
//! time by `cpu::CPU::emulate_cycle`.

pub mod cpu;
pub mod display;
pub mod font;
pub mod keypad;
mod rng;
