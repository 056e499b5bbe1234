//! What can stop a step or a load. Every failure is reported to the caller,
//! and the instruction or the load that failed has had no effect.

use vstd::prelude::*;

verus! {

/// A failure that is fatal to the step in which it arises.
#[derive(Clone, Copy, Debug, PartialEq, Eq, Structural)]
pub enum Chip8Error {
    /// The opcode fetched from address `pc` is no instruction.
    DecodeError { opcode: u16, pc: u16 },
    /// A call with the stack already at its capacity of 16 entries.
    StackOverflow,
    /// A return with an empty stack.
    StackUnderflow,
    /// A fetch or a memory operand that reaches `address`, the first
    /// address it touches outside the 4096 bytes of memory.
    MemoryOutOfBounds { address: u16 },
}

/// A program image that does not fit into memory above the load address.
#[derive(Clone, Copy, Debug, PartialEq, Eq, Structural)]
pub struct RomTooLarge {
    /// The size of the rejected image in bytes.
    pub size: usize,
}

} // verus!
