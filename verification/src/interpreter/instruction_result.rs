//! The outcome of an instruction.

use vstd::prelude::*;

verus! {

/// What an instruction left behind: `Continue`, or one of the halting
/// outcomes.
#[derive(Clone, Copy, Debug, PartialEq, Eq, Structural, Hash)]
pub enum InstructionResult {
    /// Execution goes on with the next instruction.
    Continue,
    /// The frame halted by `STOP`, or by running past the end of the code.
    Stop,
    /// The frame halted by `RETURN`.
    Return,
    /// The frame halted by `REVERT`: its caller discards its effects.
    Revert,
    /// A charge was higher than the gas left.
    OutOfGas,
    /// A push onto a full stack.
    StackOverflow,
    /// An instruction found fewer operands than it takes.
    StackUnderflow,
    /// A jump to anything but a jump destination.
    InvalidJump,
    /// An offset or length beyond the addressable range, or a copy beyond
    /// the end of the return data.
    OutOfOffset,
    /// The `INVALID` instruction.
    InvalidOpcode,
    /// A byte that is no instruction.
    OpcodeNotFound,
    /// An instruction that the protocol version does not have yet.
    NotActivated,
}

impl InstructionResult {
    /// Whether the outcome ends the frame.
    pub open spec fn halts(self) -> bool {
        self != InstructionResult::Continue
    }

    /// Whether the outcome is a successful one: going on, or one of the
    /// halts by `STOP` and `RETURN`.
    pub open spec fn succeeded(self) -> bool {
        self == InstructionResult::Continue || self == InstructionResult::Stop || self
            == InstructionResult::Return
    }

    /// Whether the outcome is a failure: a halt that is neither successful
    /// nor a revert.
    pub open spec fn failed(self) -> bool {
        !self.succeeded() && self != InstructionResult::Revert
    }

    /// Whether execution goes on.
    pub fn is_continue(self) -> (b: bool)
        ensures
            b == !self.halts(),
    {
        self == InstructionResult::Continue
    }

    /// Whether the outcome is a successful one.
    pub fn is_ok(self) -> (b: bool)
        ensures
            b == self.succeeded(),
    {
        self == InstructionResult::Continue || self == InstructionResult::Stop || self
            == InstructionResult::Return
    }

    /// Whether the frame reverted.
    pub fn is_revert(self) -> (b: bool)
        ensures
            b == (self == InstructionResult::Revert),
    {
        self == InstructionResult::Revert
    }

    /// Whether the outcome is a failure.
    pub fn is_error(self) -> (b: bool)
        ensures
            b == self.failed(),
    {
        !self.is_ok() && !self.is_revert()
    }
}

} // verus!
