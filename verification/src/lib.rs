//! A CHIP-8 virtual machine: its registers, memory, keypad, screen buffer,
//! call stack, instruction decoder and interpreter, with the contracts that
//! say what each of them does.

pub mod keys;
pub mod cpu;
pub mod memory;
pub mod gfx;
pub mod stack;
pub mod instr;
pub mod machine;
pub mod semantics;
