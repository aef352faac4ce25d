//! A CHIP-8 virtual machine: memory, registers, call stack, timers and the
//! instruction interpreter, with a screen that it draws on.
pub mod config;
pub mod display;
pub mod instruction;
pub mod laws;
pub mod machine;

pub use display::{ColorConfig, Display};
pub use machine::{CHIP8Input, CHIP8Output, Chip8Error, InputKey, OldBehaviourConfig, CHIP8};
