//! The instruction bytes and the choice of the handler for each.

use crate::instructions::control::{
    after_jump, after_jumpdest, after_jumpi, after_pc, after_return, after_revert, invalid, jump,
    jumpdest, jumpi, pc, ret, revert, stop, unknown,
};
use crate::instructions::stack::{
    after_dup, after_pop, after_push, after_push0, after_swap, dup, pop, push, push0, swap,
};
use crate::instructions::system::{
    address, after_address, after_calldatacopy, after_calldataload, after_calldatasize,
    after_caller, after_callvalue, after_codecopy, after_codesize, after_gas, after_keccak256,
    after_returndatacopy, after_returndatasize, calldatacopy, calldataload, calldatasize, caller,
    callvalue, codecopy, codesize, gas, keccak256, returndatacopy, returndatasize,
};
use crate::interpreter::instruction_result::InstructionResult;
use crate::interpreter::{Interpreter, State};
use crate::protocol::{Spec, SpecId};
use vstd::prelude::*;

verus! {

/// Halts the frame.
pub const STOP: u8 = 0x00;

/// Hashes a range of the memory.
pub const KECCAK256: u8 = 0x20;

/// Pushes the address of the account whose code runs.
pub const ADDRESS: u8 = 0x30;

/// Pushes the address of the account that made the call.
pub const CALLER: u8 = 0x33;

/// Pushes the value sent with the call.
pub const CALLVALUE: u8 = 0x34;

/// Pushes a word of the call data.
pub const CALLDATALOAD: u8 = 0x35;

/// Pushes the length of the call data.
pub const CALLDATASIZE: u8 = 0x36;

/// Copies a range of the call data to the memory.
pub const CALLDATACOPY: u8 = 0x37;

/// Pushes the length of the code.
pub const CODESIZE: u8 = 0x38;

/// Copies a range of the code to the memory.
pub const CODECOPY: u8 = 0x39;

/// Pushes the length of the return data.
pub const RETURNDATASIZE: u8 = 0x3d;

/// Copies a range of the return data to the memory.
pub const RETURNDATACOPY: u8 = 0x3e;

/// Takes the top word off the stack.
pub const POP: u8 = 0x50;

/// Jumps.
pub const JUMP: u8 = 0x56;

/// Jumps on a condition.
pub const JUMPI: u8 = 0x57;

/// Pushes the offset of the instruction itself.
pub const PC: u8 = 0x58;

/// Pushes the gas that is left.
pub const GAS: u8 = 0x5a;

/// Marks a jump destination.
pub const JUMPDEST: u8 = 0x5b;

/// Pushes zero.
pub const PUSH0: u8 = 0x5f;

/// Pushes its one immediate byte; the first of the pushes with immediate bytes.
pub const PUSH1: u8 = 0x60;

/// Pushes its 32 immediate bytes; the last of the pushes with immediate bytes.
pub const PUSH32: u8 = 0x7f;

/// Pushes the top word once more; the first of the duplications.
pub const DUP1: u8 = 0x80;

/// Pushes the sixteenth word from the top once more; the last of the duplications.
pub const DUP16: u8 = 0x8f;

/// Exchanges the top two words; the first of the exchanges.
pub const SWAP1: u8 = 0x90;

/// Exchanges the top word and the word 16 places below it; the last of the exchanges.
pub const SWAP16: u8 = 0x9f;

/// Halts the frame with a range of the memory as output.
pub const RETURN: u8 = 0xf3;

/// Halts the frame with output, for its caller to discard its effects.
pub const REVERT: u8 = 0xfd;

/// The instruction that is invalid by design.
pub const INVALID: u8 = 0xfe;

/// What the instruction with the byte `opcode` does to `s` under the
/// protocol version `version`, with the instruction pointer of `s` behind
/// the instruction byte. A byte that is none of this machine's
/// instructions halts with `OpcodeNotFound`.
pub open spec fn after_instruction(s: State, opcode: u8, version: SpecId) -> State {
    if opcode == STOP {
        s.halt(InstructionResult::Stop)
    } else if opcode == KECCAK256 {
        after_keccak256(s)
    } else if opcode == ADDRESS {
        after_address(s)
    } else if opcode == CALLER {
        after_caller(s)
    } else if opcode == CALLVALUE {
        after_callvalue(s)
    } else if opcode == CALLDATALOAD {
        after_calldataload(s)
    } else if opcode == CALLDATASIZE {
        after_calldatasize(s)
    } else if opcode == CALLDATACOPY {
        after_calldatacopy(s)
    } else if opcode == CODESIZE {
        after_codesize(s)
    } else if opcode == CODECOPY {
        after_codecopy(s)
    } else if opcode == RETURNDATASIZE {
        after_returndatasize(s, version)
    } else if opcode == RETURNDATACOPY {
        after_returndatacopy(s, version)
    } else if opcode == POP {
        after_pop(s)
    } else if opcode == JUMP {
        after_jump(s)
    } else if opcode == JUMPI {
        after_jumpi(s)
    } else if opcode == PC {
        after_pc(s)
    } else if opcode == GAS {
        after_gas(s)
    } else if opcode == JUMPDEST {
        after_jumpdest(s)
    } else if opcode == PUSH0 {
        after_push0(s, version)
    } else if PUSH1 <= opcode <= PUSH32 {
        after_push(s, (opcode - PUSH1 + 1) as nat)
    } else if DUP1 <= opcode <= DUP16 {
        after_dup(s, (opcode - DUP1 + 1) as nat)
    } else if SWAP1 <= opcode <= SWAP16 {
        after_swap(s, (opcode - SWAP1 + 1) as nat)
    } else if opcode == RETURN {
        after_return(s, InstructionResult::Return)
    } else if opcode == REVERT {
        after_revert(s, version)
    } else if opcode == INVALID {
        s.halt(InstructionResult::InvalidOpcode)
    } else {
        s.halt(InstructionResult::OpcodeNotFound)
    }
}

/// Runs the handler of the instruction with the byte `opcode`, which was
/// read from the code just before the instruction pointer.
pub fn instruction<SPEC: Spec>(opcode: u8, interpreter: &mut Interpreter)
    requires
        old(interpreter).wf(),
        1 <= old(interpreter)@.pc <= old(interpreter)@.code.len(),
    ensures
        final(interpreter).wf(),
        final(interpreter)@ == after_instruction(old(interpreter)@, opcode, SPEC::spec_id()),
{
    match opcode {
        0x00 => stop(interpreter),
        0x20 => keccak256(interpreter),
        0x30 => address(interpreter),
        0x33 => caller(interpreter),
        0x34 => callvalue(interpreter),
        0x35 => calldataload(interpreter),
        0x36 => calldatasize(interpreter),
        0x37 => calldatacopy(interpreter),
        0x38 => codesize(interpreter),
        0x39 => codecopy(interpreter),
        0x3d => returndatasize::<SPEC>(interpreter),
        0x3e => returndatacopy::<SPEC>(interpreter),
        0x50 => pop(interpreter),
        0x56 => jump(interpreter),
        0x57 => jumpi(interpreter),
        0x58 => pc(interpreter),
        0x5a => gas(interpreter),
        0x5b => jumpdest(interpreter),
        0x5f => push0::<SPEC>(interpreter),
        0x60 => push::<1>(interpreter),
        0x61 => push::<2>(interpreter),
        0x62 => push::<3>(interpreter),
        0x63 => push::<4>(interpreter),
        0x64 => push::<5>(interpreter),
        0x65 => push::<6>(interpreter),
        0x66 => push::<7>(interpreter),
        0x67 => push::<8>(interpreter),
        0x68 => push::<9>(interpreter),
        0x69 => push::<10>(interpreter),
        0x6a => push::<11>(interpreter),
        0x6b => push::<12>(interpreter),
        0x6c => push::<13>(interpreter),
        0x6d => push::<14>(interpreter),
        0x6e => push::<15>(interpreter),
        0x6f => push::<16>(interpreter),
        0x70 => push::<17>(interpreter),
        0x71 => push::<18>(interpreter),
        0x72 => push::<19>(interpreter),
        0x73 => push::<20>(interpreter),
        0x74 => push::<21>(interpreter),
        0x75 => push::<22>(interpreter),
        0x76 => push::<23>(interpreter),
        0x77 => push::<24>(interpreter),
        0x78 => push::<25>(interpreter),
        0x79 => push::<26>(interpreter),
        0x7a => push::<27>(interpreter),
        0x7b => push::<28>(interpreter),
        0x7c => push::<29>(interpreter),
        0x7d => push::<30>(interpreter),
        0x7e => push::<31>(interpreter),
        0x7f => push::<32>(interpreter),
        0x80 => dup::<1>(interpreter),
        0x81 => dup::<2>(interpreter),
        0x82 => dup::<3>(interpreter),
        0x83 => dup::<4>(interpreter),
        0x84 => dup::<5>(interpreter),
        0x85 => dup::<6>(interpreter),
        0x86 => dup::<7>(interpreter),
        0x87 => dup::<8>(interpreter),
        0x88 => dup::<9>(interpreter),
        0x89 => dup::<10>(interpreter),
        0x8a => dup::<11>(interpreter),
        0x8b => dup::<12>(interpreter),
        0x8c => dup::<13>(interpreter),
        0x8d => dup::<14>(interpreter),
        0x8e => dup::<15>(interpreter),
        0x8f => dup::<16>(interpreter),
        0x90 => swap::<1>(interpreter),
        0x91 => swap::<2>(interpreter),
        0x92 => swap::<3>(interpreter),
        0x93 => swap::<4>(interpreter),
        0x94 => swap::<5>(interpreter),
        0x95 => swap::<6>(interpreter),
        0x96 => swap::<7>(interpreter),
        0x97 => swap::<8>(interpreter),
        0x98 => swap::<9>(interpreter),
        0x99 => swap::<10>(interpreter),
        0x9a => swap::<11>(interpreter),
        0x9b => swap::<12>(interpreter),
        0x9c => swap::<13>(interpreter),
        0x9d => swap::<14>(interpreter),
        0x9e => swap::<15>(interpreter),
        0x9f => swap::<16>(interpreter),
        0xf3 => ret(interpreter),
        0xfd => revert::<SPEC>(interpreter),
        0xfe => invalid(interpreter),
        _ => unknown(interpreter),
    }
}

} // verus!
