use vstd::prelude::*;

verus! {

/// Faults that end the current run of a program.
#[derive(Debug, Clone, Copy, PartialEq, Eq, Structural)]
pub enum Chip8Error {
    /// A memory address, register, key or screen index lies outside its store.
    AddressOutOfRange,
    /// A program image does not fit between the program start and the end of memory.
    ProgramTooLarge,
    /// A call was made with all sixteen return slots in use.
    StackOverflow,
    /// A return was made with no return address on the stack.
    StackUnderflow,
    /// The fetched word matches none of the instruction shapes.
    UnknownOpcode(u16),
}

} // verus!
