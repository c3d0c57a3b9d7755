//! The driver: one instruction at a time, until the frame halts.

use crate::gas;
use crate::instructions::control::{after_jump, after_jumpdest};
use crate::instructions::opcode::{after_instruction, instruction};
use crate::interpreter::bytecode::is_jump_dest;
use crate::interpreter::instruction_result::InstructionResult;
use crate::interpreter::{Interpreter, InterpreterAction, InterpreterResult, ResultView, State};
use crate::protocol::{Spec, SpecId};
use vstd::prelude::*;

verus! {

/// The state after one step under the protocol version `version`. A halted
/// machine stays as it is. Past the end of the code the machine stops.
/// Anywhere else the byte at the instruction pointer is read, the pointer
/// moves behind it, and the instruction with that byte is done.
pub open spec fn after_step(s: State, version: SpecId) -> State {
    if s.result.halts() {
        s
    } else if s.pc >= s.code.len() {
        s.halt(InstructionResult::Stop)
    } else {
        after_instruction(s.at(s.pc + 1), s.code[s.pc], version)
    }
}

/// The state in which the machine halts when it runs from `s` on: the
/// first halted state among `s`, the state after one step, the state after
/// two, and so on.
pub open spec fn after_run(s: State, version: SpecId) -> State
    decreases s.gas.remaining,
{
    if s.result.halts() {
        s
    } else {
        let next: State = after_step(s, version);
        if next.result.halts() || next.gas.remaining >= s.gas.remaining {
            next
        } else {
            after_run(next, version)
        }
    }
}

/// What a halted machine hands to its caller: the result that `RETURN` or
/// `REVERT` made ready, or else the outcome with no output.
pub open spec fn outcome(s: State) -> ResultView {
    match s.action {
        Some(result) => result,
        None => ResultView { result: s.result, output: Seq::<u8>::empty(), gas: s.gas },
    }
}

/// A step that does not halt the machine costs gas: no program runs for
/// ever.
pub proof fn lemma_step_consumes_gas(s: State, version: SpecId)
    requires
        !s.result.halts(),
        !after_step(s, version).result.halts(),
    ensures
        after_step(s, version).gas.remaining < s.gas.remaining,
{
}

/// After a jump that went to `dest`, the next step reads the instruction
/// at `dest`, which is the `JUMPDEST` that made `dest` a destination.
pub proof fn lemma_step_after_jump(s: State, version: SpecId)
    requires
        !s.result.halts(),
        s.gas.remaining >= gas::MID,
        s.stack.len() >= 1,
        is_jump_dest(s.code, s.peek(0).value() as int),
    ensures
        after_jump(s).pc == s.peek(0).value(),
        after_step(after_jump(s), version) == after_jumpdest(after_jump(s).at(after_jump(s).pc + 1)),
{
}

/// A halted machine stays as it is, however often it is stepped.
pub proof fn lemma_halted_stays(s: State, version: SpecId)
    requires
        s.result.halts(),
    ensures
        after_step(s, version) == s,
        after_run(s, version) == s,
{
}

/// A run ends halted.
pub proof fn lemma_run_halts(s: State, version: SpecId)
    ensures
        after_run(s, version).result.halts(),
    decreases s.gas.remaining,
{
    if !s.result.halts() {
        let next: State = after_step(s, version);
        if !next.result.halts() {
            lemma_step_consumes_gas(s, version);
            lemma_run_halts(next, version);
        }
    }
}

/// A run is a step and then a run.
pub proof fn lemma_run_unfolds(s: State, version: SpecId)
    ensures
        after_run(s, version) == after_run(after_step(s, version), version),
{
    if !s.result.halts() {
        let next: State = after_step(s, version);
        if !next.result.halts() {
            lemma_step_consumes_gas(s, version);
        }
    }
}

impl Interpreter {
    /// Does one step: the instruction at the instruction pointer, if the
    /// machine has not halted.
    pub fn step<SPEC: Spec>(&mut self)
        requires
            old(self).wf(),
        ensures
            final(self).wf(),
            final(self)@ == after_step(old(self)@, SPEC::spec_id()),
    {
        if !self.instruction_result.is_continue() {
            return ;
        }
        let pc: usize = self.instruction_pointer;
        if pc >= self.contract.bytecode.len() {
            self.instruction_result = InstructionResult::Stop;
            return ;
        }
        let opcode: u8 = self.contract.bytecode.byte(pc);
        self.instruction_pointer = pc + 1;
        instruction::<SPEC>(opcode, self);
    }

    /// Steps until the machine halts, and hands out the result: the one
    /// that `RETURN` or `REVERT` made ready, or else the outcome with no
    /// output. A result that was ready is taken out of the machine.
    pub fn run<SPEC: Spec>(&mut self) -> (result: InterpreterResult)
        requires
            old(self).wf(),
        ensures
            final(self).wf(),
            final(self)@ == (State {
                action: None::<ResultView>,
                ..after_run(old(self)@, SPEC::spec_id())
            }),
            result@ == outcome(after_run(old(self)@, SPEC::spec_id())),
    {
        while self.instruction_result.is_continue()
            invariant
                self.wf(),
                after_run(self@, SPEC::spec_id()) == after_run(old(self)@, SPEC::spec_id()),
            decreases
                    (if self@.result.halts() {
                        0
                    } else {
                        self@.gas.remaining + 1
                    }),
        {
            proof {
                lemma_run_unfolds(self@, SPEC::spec_id());
                if !after_step(self@, SPEC::spec_id()).result.halts() {
                    lemma_step_consumes_gas(self@, SPEC::spec_id());
                }
            }
            self.step::<SPEC>();
        }
        let mut action: InterpreterAction = InterpreterAction::Continue;
        core::mem::swap(&mut self.next_action, &mut action);
        match action {
            InterpreterAction::Return { result } => result,
            InterpreterAction::Continue => InterpreterResult {
                result: self.instruction_result,
                output: Vec::new(),
                gas: self.gas,
            },
        }
    }
}

} // verus!
