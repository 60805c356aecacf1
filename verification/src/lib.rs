//! A CHIP-8 virtual machine: the instruction codec, the register file, the
//! call stack, the timers, the framebuffer and the fetch-decode-execute cycle,
//! together with an assembler for the same instruction encoding.

pub mod assembler;
pub mod codec;
pub mod display;
pub mod env;
pub mod error;
pub mod frame;
pub mod instruction;
pub mod keypad;
pub mod regfile;
pub mod stack;
pub mod state;
pub mod timer;
pub mod vm;

pub use crate::error::Error;
