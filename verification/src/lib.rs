//! An interpreter for an 8-bit virtual machine: a 4KB-addressable CPU with
//! sixteen general-purpose registers, a call stack, an index register, a
//! 64x32 monochrome display and a 16-key input device. The machine executes
//! raw machine-code programs through a fetch-decode-execute cycle; every
//! state transition is specified against a mathematical model of the machine
//! and verified.

pub mod chip8;
pub mod cpu;
pub mod display;
pub mod instr;
pub mod laws;
pub mod memory;
