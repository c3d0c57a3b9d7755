//! What a frame is given to run.

use crate::interpreter::bytecode::Bytecode;
use crate::primitives::{Address, Word};
use vstd::prelude::*;

verus! {

/// The code of a frame and the call that it answers. Nothing of it changes
/// while the frame runs.
#[derive(Debug)]
pub struct Contract {
    /// The call data.
    pub input: Vec<u8>,
    /// The code that runs.
    pub bytecode: Bytecode,
    /// The account whose code runs.
    pub address: Address,
    /// The account that made the call.
    pub caller: Address,
    /// The value sent with the call.
    pub value: Word,
}

impl Contract {
    /// A contract of these parts.
    pub fn new(input: Vec<u8>, bytecode: Bytecode, address: Address, caller: Address, value: Word) -> (contract: Contract)
        ensures
            contract.input == input,
            contract.bytecode == bytecode,
            contract.address == address,
            contract.caller == caller,
            contract.value == value,
    {
        Contract { input, bytecode, address, caller, value }
    }

    /// Whether `offset` is a jump destination of the code.
    pub fn is_valid_jump(&self, offset: usize) -> (valid: bool)
        requires
            self.bytecode.wf(),
        ensures
            valid == crate::interpreter::bytecode::is_jump_dest(self.bytecode@, offset as int),
    {
        self.bytecode.is_valid_jump(offset)
    }
}

} // verus!
