//! An interpreter for the CHIP-8 virtual machine.
//!
//! The machine has 4096 bytes of memory, sixteen 8-bit registers, a stack of
//! sixteen return addresses, a 64x32 monochrome screen, a keypad of sixteen
//! keys and two timers. [`opcode::OpCode::decode`] turns two bytes into an
//! instruction, and [`Chip8`] runs instructions one at a time, by the cycle
//! or by the frame.
//!
//! What each instruction does is written down once, in [`semantics`], as
//! functions on a mathematical [`model::MachineState`]; every operation of
//! [`Chip8`] is proved to follow them. The host owns everything around the
//! machine: it loads the program, reports keys between cycles, reads the
//! screen, and decides what to do when the machine reports a [`Fault`].

pub mod arithmetic;
pub mod display;
pub mod fault;
pub mod history;
pub mod interpreter;
pub mod keypad;
pub mod model;
pub mod opcode;
mod random;
pub mod semantics;

pub use crate::fault::Fault;
pub use crate::history::History;
pub use crate::interpreter::Chip8;
pub use crate::model::{SCREEN_HEIGHT, SCREEN_WIDTH, TICKS_PER_FRAME};
pub use crate::opcode::OpCode;
