use vstd::prelude::*;

verus! {

/// A fatal condition: a malformed or runaway program, or an internal
/// inconsistency of the machine.  None of these is recoverable; the host
/// aborts emulation with a diagnostic.
#[derive(Clone, Copy, Debug, PartialEq, Eq, Structural)]
pub enum Fault {
    /// A call was made while the stack already held its full depth.
    StackOverflow,
    /// A return was executed with no matching call on the stack.
    StackUnderflow,
    /// The fetched word matches no opcode pattern.
    IllegalInstruction,
    /// A register held a key symbol outside the sixteen keypad symbols.
    InvalidKey,
    /// The address register was pushed beyond addressable memory; carries
    /// the offending address.
    AddressOverflow(u32),
    /// An instruction touched an address past the end of memory; carries
    /// the offending address.
    OutOfBounds(u32),
}

} // verus!
