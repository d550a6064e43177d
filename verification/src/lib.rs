//! Core of an interpreter for an 8-bit virtual machine with a 35-instruction
//! opcode set, 4KB of byte-addressable memory, 16 general-purpose registers,
//! a 16-level call stack and a 64x32 monochrome bitmap display.

pub mod disassembler;
pub mod display;
pub mod errors;
pub mod helpers;
pub mod hexfmt;
pub mod input;
pub mod instruction;
pub mod key_input;
pub mod memory;
pub mod processor;
pub mod stack;
