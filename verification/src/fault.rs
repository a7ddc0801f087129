//! The conditions that end an emulation session.

use vstd::prelude::*;

verus! {

/// A fatal condition met while executing an instruction.
///
/// A fault is reported to the caller and leaves the machine as it was
/// before the faulting instruction.
#[derive(Clone, Copy, Debug, PartialEq, Eq, Structural)]
pub enum Fault {
    /// An access starting at `address` does not lie within memory.
    InvalidAddress { address: u16 },
    /// The instruction table assigns no meaning to `word`.
    UnknownOpcode { word: u16 },
    /// A call was made with all sixteen stack slots in use.
    StackOverflow,
    /// A return was made with no call outstanding.
    StackUnderflow,
    /// A register index of sixteen or more.
    InvalidRegister { index: usize },
}

} // verus!
