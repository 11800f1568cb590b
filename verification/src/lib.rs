//! A verified CHIP-8 interpreter core.
//!
//! The machine state (4 KB memory, sixteen 8-bit registers, a 16-level call
//! stack, a 64x32 monochrome frame buffer, sixteen key flags and two countdown
//! timers) lives in [`machine::Chip8`].  Every instruction of the 35-opcode
//! set is an executable method whose contract ties it to a mathematical
//! transformer on [`state::VmState`], and one fetch-decode-execute-timer cycle
//! is [`machine::Chip8::cycle`].

pub mod cycle;
pub mod instructions;
pub mod laws;
pub mod machine;
mod rng;
pub mod semantics;
pub mod state;

pub use machine::Chip8;
pub use machine::Display;
pub use machine::Input;
pub use machine::Registers;
pub use machine::Stack;
pub use machine::Timers;
pub use state::Chip8Error;
pub use state::VmState;
