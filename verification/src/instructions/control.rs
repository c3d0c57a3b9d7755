//! Jumps and halts.

use crate::gas;
use crate::interpreter::bytecode::is_jump_dest;
use crate::interpreter::instruction_result::InstructionResult;
use crate::interpreter::shared_memory::read;
use crate::interpreter::{Interpreter, InterpreterAction, InterpreterResult, State};
use crate::primitives::{word_of_value, Word};
use crate::protocol::{Spec, SpecId};
use vstd::prelude::*;
use vstd::slice::slice_to_vec;

verus! {

/// The state after a jump to `dest`: there, where `dest` is a jump
/// destination of the code, and halted with `InvalidJump` where it is not.
pub open spec fn jump_to(s: State, dest: Word) -> State {
    if is_jump_dest(s.code, dest.value() as int) {
        s.at(dest.value() as int)
    } else {
        s.halt(InstructionResult::InvalidJump)
    }
}

/// `JUMP`: charges `MID`, takes the destination off the stack and jumps.
pub open spec fn after_jump(s: State) -> State {
    if s.gas.remaining < gas::MID {
        s.halt(InstructionResult::OutOfGas)
    } else if s.stack.len() < 1 {
        s.spend(gas::MID as nat).halt(InstructionResult::StackUnderflow)
    } else {
        jump_to(s.spend(gas::MID as nat).pop_n(1), s.peek(0))
    }
}

/// `JUMPI`: charges `HIGH`, takes the destination and the condition off
/// the stack, and jumps unless the condition is zero.
pub open spec fn after_jumpi(s: State) -> State {
    if s.gas.remaining < gas::HIGH {
        s.halt(InstructionResult::OutOfGas)
    } else if s.stack.len() < 2 {
        s.spend(gas::HIGH as nat).halt(InstructionResult::StackUnderflow)
    } else if s.peek(1).value() == 0 {
        s.spend(gas::HIGH as nat).pop_n(2)
    } else {
        jump_to(s.spend(gas::HIGH as nat).pop_n(2), s.peek(0))
    }
}

/// `JUMPDEST`: charges its cost and does nothing else.
pub open spec fn after_jumpdest(s: State) -> State {
    s.charge(gas::JUMPDEST as nat)
}

/// `PC`: charges `BASE` and pushes the offset of the instruction itself,
/// the byte before the instruction pointer.
pub open spec fn after_pc(s: State) -> State
    recommends
        s.pc >= 1,
{
    if s.gas.remaining < gas::BASE {
        s.halt(InstructionResult::OutOfGas)
    } else {
        s.spend(gas::BASE as nat).push(word_of_value((s.pc - 1) as nat))
    }
}

/// `RETURN` and `REVERT`, which differ in the outcome `result`: takes an
/// offset and a length off the stack and halts with that range of the
/// memory as output. An empty range is empty output, whatever the offset
/// is, and touches no memory; any other range is first made to lie in the
/// memory, at the cost of the growth.
pub open spec fn after_return(s: State, result: InstructionResult) -> State {
    if s.stack.len() < 2 {
        s.halt(InstructionResult::StackUnderflow)
    } else {
        let offset: nat = s.peek(0).value();
        let len: nat = s.peek(1).value();
        let s1: State = s.pop_n(2);
        if len > usize::MAX {
            s1.halt(InstructionResult::OutOfOffset)
        } else if len == 0 {
            s1.finish(result, Seq::<u8>::empty())
        } else if offset > usize::MAX {
            s1.halt(InstructionResult::OutOfOffset)
        } else if s1.resize_failure(offset, len) is Some {
            s1.resize(offset, len)
        } else {
            let s2: State = s1.resized(offset, len);
            s2.finish(result, read(s2.memory, offset as int, len))
        }
    }
}

/// `REVERT` under the protocol version `version`: not activated before
/// Byzantium.
pub open spec fn after_revert(s: State, version: SpecId) -> State {
    if version.includes(SpecId::Byzantium) {
        after_return(s, InstructionResult::Revert)
    } else {
        s.halt(InstructionResult::NotActivated)
    }
}

/// A jump with the gas and the operand it needs goes to its destination
/// exactly where that is a jump destination of the code: a `JUMPDEST` byte
/// that is itself an instruction. To any other offset, so one beyond the
/// code, one that holds another byte, or a `JUMPDEST` byte among the
/// immediate bytes of a push, it halts with `InvalidJump`.
pub proof fn lemma_jump_validates(s: State)
    requires
        s.gas.remaining >= gas::MID,
        s.stack.len() >= 1,
    ensures
        is_jump_dest(s.code, s.peek(0).value() as int) ==> after_jump(s) == s.spend(
            gas::MID as nat,
        ).pop_n(1).at(s.peek(0).value() as int),
        !is_jump_dest(s.code, s.peek(0).value() as int) ==> after_jump(s) == s.spend(
            gas::MID as nat,
        ).pop_n(1).halt(InstructionResult::InvalidJump),
{
}

/// A conditional jump with the gas and the operands it needs does what a
/// jump does where its condition is not zero, and only takes its operands
/// off the stack where it is.
pub proof fn lemma_jumpi_validates(s: State)
    requires
        s.gas.remaining >= gas::HIGH,
        s.stack.len() >= 2,
    ensures
        s.peek(1).value() == 0 ==> after_jumpi(s) == s.spend(gas::HIGH as nat).pop_n(2),
        s.peek(1).value() != 0 && is_jump_dest(s.code, s.peek(0).value() as int) ==> after_jumpi(s)
            == s.spend(gas::HIGH as nat).pop_n(2).at(s.peek(0).value() as int),
        s.peek(1).value() != 0 && !is_jump_dest(s.code, s.peek(0).value() as int) ==> after_jumpi(
            s,
        ) == s.spend(gas::HIGH as nat).pop_n(2).halt(InstructionResult::InvalidJump),
{
}

/// A return of no bytes succeeds whatever the offset is: the output is
/// empty, and neither the memory nor the gas changes.
pub proof fn lemma_return_of_nothing(s: State, result: InstructionResult)
    requires
        s.stack.len() >= 2,
        s.peek(1).value() == 0,
    ensures
        after_return(s, result) == s.pop_n(2).finish(result, Seq::<u8>::empty()),
        after_return(s, result).memory == s.memory,
        after_return(s, result).gas == s.gas,
{
}

/// The `JUMP` instruction.
pub fn jump(interpreter: &mut Interpreter)
    requires
        old(interpreter).wf(),
    ensures
        final(interpreter).wf(),
        final(interpreter)@ == after_jump(old(interpreter)@),
{
    if !interpreter.charge(gas::MID) {
        return ;
    }
    let dest: Word = match interpreter.pop1() {
        Some(dest) => dest,
        None => {
            return ;
        },
    };
    jump_inner(interpreter, dest);
}

/// The `JUMPI` instruction.
pub fn jumpi(interpreter: &mut Interpreter)
    requires
        old(interpreter).wf(),
    ensures
        final(interpreter).wf(),
        final(interpreter)@ == after_jumpi(old(interpreter)@),
{
    if !interpreter.charge(gas::HIGH) {
        return ;
    }
    let (dest, value): (Word, Word) = match interpreter.pop2() {
        Some(operands) => operands,
        None => {
            return ;
        },
    };
    if !value.is_zero() {
        jump_inner(interpreter, dest);
    }
}

/// Jumps to `dest`, or halts the machine with `InvalidJump`.
pub fn jump_inner(interpreter: &mut Interpreter, dest: Word)
    requires
        old(interpreter).wf(),
    ensures
        final(interpreter).wf(),
        final(interpreter)@ == jump_to(old(interpreter)@, dest),
{
    proof {
        interpreter.lemma_wf_state();
    }
    let dest: usize = match interpreter.as_usize_or_fail(dest, InstructionResult::InvalidJump) {
        Some(dest) => dest,
        None => {
            return ;
        },
    };
    if !interpreter.contract.is_valid_jump(dest) {
        interpreter.instruction_result = InstructionResult::InvalidJump;
        return ;
    }
    interpreter.instruction_pointer = dest;
}

/// The `JUMPDEST` instruction.
pub fn jumpdest(interpreter: &mut Interpreter)
    requires
        old(interpreter).wf(),
    ensures
        final(interpreter).wf(),
        final(interpreter)@ == after_jumpdest(old(interpreter)@),
{
    interpreter.charge(gas::JUMPDEST);
}

/// The `PC` instruction. The instruction pointer stands behind the
/// instruction byte.
pub fn pc(interpreter: &mut Interpreter)
    requires
        old(interpreter).wf(),
        old(interpreter)@.pc >= 1,
    ensures
        final(interpreter).wf(),
        final(interpreter)@ == after_pc(old(interpreter)@),
{
    if !interpreter.charge(gas::BASE) {
        return ;
    }
    let offset: usize = interpreter.program_counter() - 1;
    interpreter.push(Word::from_usize(offset));
}

/// Halts the machine with the outcome `instruction_result` and the range
/// of the memory that the stack names as output.
pub fn return_inner(interpreter: &mut Interpreter, instruction_result: InstructionResult)
    requires
        old(interpreter).wf(),
    ensures
        final(interpreter).wf(),
        final(interpreter)@ == after_return(old(interpreter)@, instruction_result),
{
    let (offset, len): (Word, Word) = match interpreter.pop2() {
        Some(operands) => operands,
        None => {
            return ;
        },
    };
    let len: usize = match interpreter.as_usize_or_fail(len, InstructionResult::OutOfOffset) {
        Some(len) => len,
        None => {
            return ;
        },
    };
    let mut output: Vec<u8> = Vec::new();
    if len != 0 {
        let offset: usize = match interpreter.as_usize_or_fail(
            offset,
            InstructionResult::OutOfOffset,
        ) {
            Some(offset) => offset,
            None => {
                return ;
            },
        };
        if !interpreter.resize_memory(offset, len) {
            return ;
        }
        output = slice_to_vec(interpreter.shared_memory.slice(offset, len));
    }
    interpreter.instruction_result = instruction_result;
    interpreter.next_action = InterpreterAction::Return {
        result: InterpreterResult { output, gas: interpreter.gas, result: instruction_result },
    };
}

/// The `RETURN` instruction.
pub fn ret(interpreter: &mut Interpreter)
    requires
        old(interpreter).wf(),
    ensures
        final(interpreter).wf(),
        final(interpreter)@ == after_return(old(interpreter)@, InstructionResult::Return),
{
    return_inner(interpreter, InstructionResult::Return);
}

/// The `REVERT` instruction, which Byzantium introduced.
pub fn revert<SPEC: Spec>(interpreter: &mut Interpreter)
    requires
        old(interpreter).wf(),
    ensures
        final(interpreter).wf(),
        final(interpreter)@ == after_revert(old(interpreter)@, SPEC::spec_id()),
{
    if !interpreter.check(SPEC::id(), SpecId::Byzantium) {
        return ;
    }
    return_inner(interpreter, InstructionResult::Revert);
}

/// Halts the machine.
pub fn stop(interpreter: &mut Interpreter)
    ensures
        *final(interpreter) == (Interpreter {
            instruction_result: InstructionResult::Stop,
            ..*old(interpreter)
        }),
        final(interpreter)@ == old(interpreter)@.halt(InstructionResult::Stop),
{
    interpreter.instruction_result = InstructionResult::Stop;
}

/// Halts the machine as the `INVALID` instruction does.
pub fn invalid(interpreter: &mut Interpreter)
    ensures
        *final(interpreter) == (Interpreter {
            instruction_result: InstructionResult::InvalidOpcode,
            ..*old(interpreter)
        }),
        final(interpreter)@ == old(interpreter)@.halt(InstructionResult::InvalidOpcode),
{
    interpreter.instruction_result = InstructionResult::InvalidOpcode;
}

/// Halts the machine as a byte that is no instruction does.
pub fn unknown(interpreter: &mut Interpreter)
    ensures
        *final(interpreter) == (Interpreter {
            instruction_result: InstructionResult::OpcodeNotFound,
            ..*old(interpreter)
        }),
        final(interpreter)@ == old(interpreter)@.halt(InstructionResult::OpcodeNotFound),
{
    interpreter.instruction_result = InstructionResult::OpcodeNotFound;
}

} // verus!
