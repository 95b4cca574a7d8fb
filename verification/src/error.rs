//! The fatal conditions of a run.

use vstd::prelude::*;

verus! {

/// Why a run stopped. Every condition is terminal: the machine is left as it
/// was before the failing operation, and nothing is retried.
#[derive(Debug, Clone, Copy, PartialEq, Eq, Structural)]
pub enum Chip8Error {
    /// The word fetched at `pc` matches no instruction.
    IllegalInstruction { opcode: u16, pc: usize },
    /// A call was made with every stack slot in use.
    StackOverflow,
    /// A return was made with no call outstanding.
    StackUnderflow,
    /// A machine routine was called; none is implemented.
    UnknownMachineRoutine(u16),
    /// An access starting at the carried address does not lie within memory.
    OutOfBoundsMemoryAccess(usize),
}

} // verus!
