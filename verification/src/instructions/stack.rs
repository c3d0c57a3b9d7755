//! The instructions that only move words on the stack.

use crate::gas;
use crate::interpreter::bytecode::{immediate_bytes, PADDING};
use crate::interpreter::instruction_result::InstructionResult;
use crate::interpreter::stack::{duplicated, swapped, STACK_LIMIT};
use crate::interpreter::{Interpreter, State};
use crate::primitives::{pad_left, word_of_bytes, word_of_value, Word};
use crate::protocol::{Spec, SpecId};
use vstd::prelude::*;

verus! {

/// `POP`: charges `BASE` and takes the top word off the stack.
pub open spec fn after_pop(s: State) -> State {
    if s.gas.remaining < gas::BASE {
        s.halt(InstructionResult::OutOfGas)
    } else if s.stack.len() < 1 {
        s.spend(gas::BASE as nat).halt(InstructionResult::StackUnderflow)
    } else {
        s.spend(gas::BASE as nat).pop_n(1)
    }
}

/// `PUSH0` under the protocol version `version`: charges `BASE` and pushes
/// zero. Not activated before Shanghai.
pub open spec fn after_push0(s: State, version: SpecId) -> State {
    if !version.includes(SpecId::Shanghai) {
        s.halt(InstructionResult::NotActivated)
    } else if s.gas.remaining < gas::BASE {
        s.halt(InstructionResult::OutOfGas)
    } else {
        s.spend(gas::BASE as nat).push(word_of_value(0))
    }
}

/// `PUSH1` to `PUSH32`, with `n` the number of immediate bytes: charges
/// `VERYLOW`, pushes the `n` bytes behind the instruction as the low-order
/// bytes of a word, and moves the instruction pointer past them. With a
/// full stack the instruction pointer stays.
pub open spec fn after_push(s: State, n: nat) -> State {
    if s.gas.remaining < gas::VERYLOW {
        s.halt(InstructionResult::OutOfGas)
    } else if s.stack.len() >= STACK_LIMIT {
        s.spend(gas::VERYLOW as nat).halt(InstructionResult::StackOverflow)
    } else {
        s.spend(gas::VERYLOW as nat).push(
            word_of_bytes(pad_left(immediate_bytes(s.code, s.pc, n))),
        ).at(s.pc + n)
    }
}

/// `DUP1` to `DUP16`, with `n` the number of the instruction: charges
/// `VERYLOW` and pushes the `n`-th word from the top once more.
pub open spec fn after_dup(s: State, n: nat) -> State {
    if s.gas.remaining < gas::VERYLOW {
        s.halt(InstructionResult::OutOfGas)
    } else if s.stack.len() < n {
        s.spend(gas::VERYLOW as nat).halt(InstructionResult::StackUnderflow)
    } else if s.stack.len() >= STACK_LIMIT {
        s.spend(gas::VERYLOW as nat).halt(InstructionResult::StackOverflow)
    } else {
        State { stack: duplicated(s.stack, n as int), ..s.spend(gas::VERYLOW as nat) }
    }
}

/// `SWAP1` to `SWAP16`, with `n` the number of the instruction: charges
/// `VERYLOW` and exchanges the top word and the word `n` places below it.
pub open spec fn after_swap(s: State, n: nat) -> State {
    if s.gas.remaining < gas::VERYLOW {
        s.halt(InstructionResult::OutOfGas)
    } else if s.stack.len() <= n {
        s.spend(gas::VERYLOW as nat).halt(InstructionResult::StackUnderflow)
    } else {
        State { stack: swapped(s.stack, n as int), ..s.spend(gas::VERYLOW as nat) }
    }
}

/// `POP` on an empty stack halts with `StackUnderflow` and leaves the stack
/// empty.
pub proof fn lemma_pop_of_nothing(s: State)
    requires
        s.gas.remaining >= gas::BASE,
        s.stack.len() == 0,
    ensures
        after_pop(s) == s.spend(gas::BASE as nat).halt(InstructionResult::StackUnderflow),
        after_pop(s).stack == s.stack,
{
}

/// `PUSH0` halts with `NotActivated` under every version before Shanghai,
/// and changes nothing else. From Shanghai on, with gas for it and room on
/// the stack, it pushes zero and goes on.
pub proof fn lemma_push0_activation(s: State, version: SpecId)
    ensures
        !version.includes(SpecId::Shanghai) ==> after_push0(s, version) == s.halt(
            InstructionResult::NotActivated,
        ),
        version.includes(SpecId::Shanghai) && s.gas.remaining >= gas::BASE && s.stack.len()
            < STACK_LIMIT ==> {
            &&& after_push0(s, version).result == s.result
            &&& after_push0(s, version).stack == s.stack.push(word_of_value(0))
            &&& after_push0(s, version).gas.remaining == s.gas.remaining - gas::BASE
        },
{
}

/// The `POP` instruction.
pub fn pop(interpreter: &mut Interpreter)
    requires
        old(interpreter).wf(),
    ensures
        final(interpreter).wf(),
        final(interpreter)@ == after_pop(old(interpreter)@),
{
    if !interpreter.charge(gas::BASE) {
        return ;
    }
    if let Err(result) = interpreter.stack.pop() {
        interpreter.instruction_result = result;
    } else {
        assert(interpreter.stack@ =~= old(interpreter).stack@.subrange(
            0,
            old(interpreter).stack@.len() - 1,
        ));
    }
}

/// The `PUSH0` instruction, which Shanghai introduced.
pub fn push0<SPEC: Spec>(interpreter: &mut Interpreter)
    requires
        old(interpreter).wf(),
    ensures
        final(interpreter).wf(),
        final(interpreter)@ == after_push0(old(interpreter)@, SPEC::spec_id()),
{
    if !interpreter.check(SPEC::id(), SpecId::Shanghai) {
        return ;
    }
    if !interpreter.charge(gas::BASE) {
        return ;
    }
    if let Err(result) = interpreter.stack.push(Word::zero()) {
        interpreter.instruction_result = result;
    }
}

/// The instructions `PUSH1` to `PUSH32`, with `N` the number of immediate
/// bytes. The instruction pointer stands behind the instruction byte, which
/// was read from the code.
pub fn push<const N: usize>(interpreter: &mut Interpreter)
    requires
        old(interpreter).wf(),
        1 <= N <= 32,
        old(interpreter)@.pc <= old(interpreter)@.code.len(),
    ensures
        final(interpreter).wf(),
        final(interpreter)@ == after_push(old(interpreter)@, N as nat),
{
    if !interpreter.charge(gas::VERYLOW) {
        return ;
    }
    let ip: usize = interpreter.instruction_pointer;
    proof {
        interpreter.lemma_wf_state();
    }
    if let Err(result) = interpreter.stack.push_slice(interpreter.contract.bytecode.immediate(ip, N)) {
        interpreter.instruction_result = result;
        return ;
    }
    interpreter.instruction_pointer = ip + N;
}

/// The instructions `DUP1` to `DUP16`, with `N` the number of the
/// instruction.
pub fn dup<const N: usize>(interpreter: &mut Interpreter)
    requires
        old(interpreter).wf(),
        N >= 1,
    ensures
        final(interpreter).wf(),
        final(interpreter)@ == after_dup(old(interpreter)@, N as nat),
{
    if !interpreter.charge(gas::VERYLOW) {
        return ;
    }
    if let Err(result) = interpreter.stack.dup(N) {
        interpreter.instruction_result = result;
    }
}

/// The instructions `SWAP1` to `SWAP16`, with `N` the number of the
/// instruction.
pub fn swap<const N: usize>(interpreter: &mut Interpreter)
    requires
        old(interpreter).wf(),
    ensures
        final(interpreter).wf(),
        final(interpreter)@ == after_swap(old(interpreter)@, N as nat),
{
    if !interpreter.charge(gas::VERYLOW) {
        return ;
    }
    if let Err(result) = interpreter.stack.swap(N) {
        interpreter.instruction_result = result;
    }
}

} // verus!
