//! What can go wrong while a program is loaded or run.

use vstd::prelude::*;

verus! {

/// A condition that stops the machine from doing what it was asked.
///
/// A fault is always handed to the caller and never acted on silently: the
/// operation that meets one gives up at that point and says which one it was.
/// Whether to go on with the next instruction or to stop is the caller's
/// decision.
#[derive(Debug, PartialEq, Eq, Copy, Clone, Structural)]
pub enum Fault {
    /// The two bytes at the program counter encode no instruction. The value
    /// is the word they form.
    InvalidOpcode(u16),
    /// An instruction addressed memory through the index register beyond the
    /// last byte, or would have moved the index register beyond what it can
    /// hold.
    MemoryOverrun,
    /// A call was made with sixteen return addresses already on the stack.
    StackOverflow,
    /// A return was made with no return address on the stack.
    StackUnderflow,
    /// The program counter does not leave room for an instruction inside
    /// memory.
    ProgramCounterOutOfRange,
    /// A key instruction named a key that the keypad does not have. The value
    /// is the number it named.
    InvalidKey(u8),
    /// A program is too long for the memory above the address where programs
    /// start. The value is its length in bytes.
    ProgramTooLarge(usize),
}

} // verus!
