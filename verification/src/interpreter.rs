//! The machine: its parts, its state and the driver that steps through the
//! code.

pub mod bytecode;
pub mod contract;
pub mod driver;
pub mod instruction_result;
pub mod shared_memory;
pub mod stack;

use crate::gas::{memory_cost, memory_gas, words_for, Gas, GasView};
use crate::interpreter::bytecode::PADDING;
use crate::interpreter::contract::Contract;
use crate::interpreter::instruction_result::InstructionResult;
use crate::interpreter::shared_memory::{grown, SharedMemory};
use crate::interpreter::stack::{Stack, STACK_LIMIT};
use crate::primitives::{zeros, Address, Word};
use crate::protocol::SpecId;
use vstd::prelude::*;

verus! {

/// What a frame hands to its caller when it halts, as plain values.
pub struct ResultView {
    pub result: InstructionResult,
    pub output: Seq<u8>,
    pub gas: GasView,
}

/// What a frame hands to its caller when it halts.
#[derive(Debug)]
pub struct InterpreterResult {
    /// The outcome that ended the frame.
    pub result: InstructionResult,
    /// The bytes that the frame returned: a copy, not a part of its memory.
    pub output: Vec<u8>,
    /// The gas meter as the frame left it.
    pub gas: Gas,
}

impl View for InterpreterResult {
    type V = ResultView;

    open spec fn view(&self) -> ResultView {
        ResultView { result: self.result, output: self.output@, gas: self.gas@ }
    }
}

/// What the caller of the driver is to do next.
#[derive(Debug)]
pub enum InterpreterAction {
    /// Nothing yet: go on stepping.
    Continue,
    /// The frame halted with this result.
    Return { result: InterpreterResult },
}

impl View for InterpreterAction {
    type V = Option<ResultView>;

    open spec fn view(&self) -> Option<ResultView> {
        match self {
            InterpreterAction::Continue => None,
            InterpreterAction::Return { result } => Some(result@),
        }
    }
}

/// The state of the machine as plain values: what the instructions are
/// defined on.
pub struct State {
    /// The offset in the code of the byte that is read next.
    pub pc: int,
    pub gas: GasView,
    /// The operand stack; its top is the last word.
    pub stack: Seq<Word>,
    pub memory: Seq<u8>,
    pub result: InstructionResult,
    /// The bytes that the last call made by this frame returned.
    pub return_data: Seq<u8>,
    /// The result that is ready for the caller, if any.
    pub action: Option<ResultView>,
    pub code: Seq<u8>,
    pub input: Seq<u8>,
    pub address: Address,
    pub caller: Address,
    pub value: Word,
}

/// The length of the smallest memory of whole words that holds the `len`
/// bytes from `offset` on.
pub open spec fn covering_len(offset: nat, len: nat) -> nat {
    words_for(offset + len) * 32
}

/// The cost of growing a memory of `old_len` bytes to the longer `new_len`.
pub open spec fn expansion_cost(old_len: nat, new_len: nat) -> nat {
    (memory_cost(new_len / 32) - memory_cost(old_len / 32)) as nat
}

impl State {
    /// The bounds that every state of a machine keeps.
    pub open spec fn wf(self) -> bool {
        &&& self.gas.remaining <= self.gas.limit <= u64::MAX
        &&& self.stack.len() <= STACK_LIMIT
        &&& self.memory.len() % 32 == 0
        &&& self.memory.len() <= usize::MAX
        &&& self.code.len() + PADDING <= usize::MAX
        &&& 0 <= self.pc <= self.code.len() + PADDING
        &&& self.input.len() <= usize::MAX
        &&& self.return_data.len() <= usize::MAX
    }

    /// The state with the outcome `result`.
    pub open spec fn halt(self, result: InstructionResult) -> State {
        State { result, ..self }
    }

    /// The state with `cost` less gas.
    pub open spec fn spend(self, cost: nat) -> State
        recommends
            cost <= self.gas.remaining,
    {
        State { gas: GasView { remaining: (self.gas.remaining - cost) as nat, ..self.gas }, ..self }
    }

    /// The state after a charge of `cost`: with that much less gas, or
    /// halted where less is left.
    pub open spec fn charge(self, cost: nat) -> State {
        if cost <= self.gas.remaining {
            self.spend(cost)
        } else {
            self.halt(InstructionResult::OutOfGas)
        }
    }

    /// The word `i` places below the top of the stack.
    pub open spec fn peek(self, i: int) -> Word
        recommends
            0 <= i < self.stack.len(),
    {
        self.stack[self.stack.len() - 1 - i]
    }

    /// The state without the top `n` words of the stack.
    pub open spec fn pop_n(self, n: int) -> State
        recommends
            0 <= n <= self.stack.len(),
    {
        State { stack: self.stack.subrange(0, self.stack.len() - n), ..self }
    }

    /// The halted state that hands `output` to the caller, with the outcome
    /// `result`.
    pub open spec fn finish(self, result: InstructionResult, output: Seq<u8>) -> State {
        State { result, action: Some(ResultView { result, output, gas: self.gas }), ..self }
    }

    /// The state with the instruction pointer at `pc`.
    pub open spec fn at(self, pc: int) -> State {
        State { pc, ..self }
    }

    /// The state with the memory `memory`.
    pub open spec fn with_memory(self, memory: Seq<u8>) -> State {
        State { memory, ..self }
    }

    /// The state after a push of `word`: with the word on top, or halted
    /// where the stack is full.
    pub open spec fn push(self, word: Word) -> State {
        if self.stack.len() < STACK_LIMIT {
            State { stack: self.stack.push(word), ..self }
        } else {
            self.halt(InstructionResult::StackOverflow)
        }
    }

    /// Why the memory cannot be made to hold the `len` bytes from `offset`
    /// on, if it cannot: the range ends beyond the addressable range, or
    /// the growth costs more gas than is left.
    pub open spec fn resize_failure(self, offset: nat, len: nat) -> Option<InstructionResult> {
        let new_len: nat = covering_len(offset, len);
        if new_len > usize::MAX {
            Some(InstructionResult::OutOfOffset)
        } else if new_len <= self.memory.len() {
            None
        } else if expansion_cost(self.memory.len(), new_len) > self.gas.remaining {
            Some(InstructionResult::OutOfGas)
        } else {
            None
        }
    }

    /// The state with the memory grown by whole words to hold the `len`
    /// bytes from `offset` on, and the growth paid for. Nothing changes
    /// where the memory holds them already.
    pub open spec fn resized(self, offset: nat, len: nat) -> State {
        let new_len: nat = covering_len(offset, len);
        if new_len <= self.memory.len() {
            self
        } else {
            State { memory: grown(self.memory, new_len), ..self }.spend(
                expansion_cost(self.memory.len(), new_len),
            )
        }
    }

    /// The state after the memory was asked to hold the `len` bytes from
    /// `offset` on: grown and paid for, or halted.
    pub open spec fn resize(self, offset: nat, len: nat) -> State {
        match self.resize_failure(offset, len) {
            Some(result) => self.halt(result),
            None => self.resized(offset, len),
        }
    }
}

/// A memory costs the more, the longer it is.
pub proof fn lemma_memory_cost_monotonic(a: nat, b: nat)
    requires
        a <= b,
    ensures
        memory_cost(a) <= memory_cost(b),
{
    assert(a * a <= b * b) by (nonlinear_arith)
        requires
            a <= b,
    ;
}

/// A memory of whole words that holds a range holds the whole words that
/// cover the range.
pub proof fn lemma_covering_len(offset: nat, len: nat, memory_len: nat)
    requires
        memory_len % 32 == 0,
    ensures
        covering_len(offset, len) % 32 == 0,
        offset + len <= covering_len(offset, len) < offset + len + 32,
        offset + len <= memory_len <==> covering_len(offset, len) <= memory_len,
{
}

/// Growing an empty memory to `words` words costs `3 * words + words *
/// words / 512`.
pub proof fn lemma_growth_from_empty(s: State, words: nat)
    requires
        s.memory.len() == 0,
        words * 32 <= usize::MAX,
        3 * words + words * words / 512 <= s.gas.remaining,
    ensures
        expansion_cost(0, words * 32) == 3 * words + words * words / 512,
        s.resize(0, words * 32) == s.with_memory(zeros(words * 32)).spend(
            3 * words + words * words / 512,
        ),
{
    assert(covering_len(0, words * 32) == words * 32);
    assert((words * 32) / 32 == words);
    assert(memory_cost(0) == 0);
    assert(grown(s.memory, words * 32) =~= zeros(words * 32));
    if words == 0 {
        assert(s.with_memory(zeros(0)).spend(0) == s) by {
            assert(zeros(0) =~= s.memory);
        }
    }
}

/// Asking the memory to hold what it holds already costs nothing and
/// changes nothing.
pub proof fn lemma_no_growth_is_free(s: State, offset: nat, len: nat)
    requires
        s.memory.len() % 32 == 0,
        s.memory.len() <= usize::MAX,
        offset + len <= s.memory.len(),
    ensures
        s.resize(offset, len) == s,
{
    lemma_covering_len(offset, len, s.memory.len());
}

/// The machine of one frame.
#[derive(Debug)]
pub struct Interpreter {
    /// The offset in the code of the byte that is read next.
    pub instruction_pointer: usize,
    /// The gas meter.
    pub gas: Gas,
    /// The code and the call.
    pub contract: Contract,
    /// The outcome of the last instruction.
    pub instruction_result: InstructionResult,
    /// The scratch memory.
    pub shared_memory: SharedMemory,
    /// The operand stack.
    pub stack: Stack,
    /// The bytes that the last call made by this frame returned.
    pub return_data_buffer: Vec<u8>,
    /// The result that is ready for the caller, if any.
    pub next_action: InterpreterAction,
}

impl View for Interpreter {
    type V = State;

    open spec fn view(&self) -> State {
        State {
            pc: self.instruction_pointer as int,
            gas: self.gas@,
            stack: self.stack@,
            memory: self.shared_memory@,
            result: self.instruction_result,
            return_data: self.return_data_buffer@,
            action: self.next_action@,
            code: self.contract.bytecode@,
            input: self.contract.input@,
            address: self.contract.address,
            caller: self.contract.caller,
            value: self.contract.value,
        }
    }
}

impl Interpreter {
    /// Every part is well formed, and the instruction pointer is in the
    /// code or its padding.
    pub open spec fn wf(&self) -> bool {
        &&& self.gas.wf()
        &&& self.stack.wf()
        &&& self.shared_memory.wf()
        &&& self.contract.bytecode.wf()
        &&& self.instruction_pointer <= self.contract.bytecode@.len() + PADDING
    }

    /// The state of a well-formed machine keeps the bounds of states.
    pub proof fn lemma_wf_state(&self)
        requires
            self.wf(),
        ensures
            self@.wf(),
    {
        self.contract.bytecode.lemma_len_bound();
        self.shared_memory.lemma_len_bound();
        assert(self.contract.input@.len() == self.contract.input.len());
        assert(self.return_data_buffer@.len() == self.return_data_buffer.len());
    }

    /// A machine at the start of `contract`'s code, with `gas_limit` gas,
    /// an empty stack and an empty memory.
    pub fn new(contract: Contract, gas_limit: u64) -> (interpreter: Interpreter)
        requires
            contract.bytecode.wf(),
        ensures
            interpreter.wf(),
            interpreter.contract == contract,
            interpreter@ == (State {
                pc: 0,
                gas: GasView { limit: gas_limit as nat, remaining: gas_limit as nat, refunded: 0 },
                stack: Seq::<Word>::empty(),
                memory: Seq::<u8>::empty(),
                result: InstructionResult::Continue,
                return_data: Seq::<u8>::empty(),
                action: None::<ResultView>,
                code: contract.bytecode@,
                input: contract.input@,
                address: contract.address,
                caller: contract.caller,
                value: contract.value,
            }),
    {
        Interpreter {
            instruction_pointer: 0,
            gas: Gas::new(gas_limit),
            contract,
            instruction_result: InstructionResult::Continue,
            shared_memory: SharedMemory::new(),
            stack: Stack::new(),
            return_data_buffer: Vec::new(),
            next_action: InterpreterAction::Continue,
        }
    }

    /// The offset in the code of the byte that is read next.
    pub fn program_counter(&self) -> (pc: usize)
        ensures
            pc == self@.pc,
    {
        self.instruction_pointer
    }

    /// Charges `cost`, or halts the machine with `OutOfGas`.
    pub fn charge(&mut self, cost: u64) -> (paid: bool)
        requires
            old(self).wf(),
        ensures
            final(self).wf(),
            paid == (cost <= old(self)@.gas.remaining),
            final(self)@ == old(self)@.charge(cost as nat),
    {
        if self.gas.record_cost(cost) {
            true
        } else {
            self.instruction_result = InstructionResult::OutOfGas;
            false
        }
    }

    /// Halts the machine with `NotActivated` unless `active` has what
    /// `required` introduced.
    pub fn check(&mut self, active: SpecId, required: SpecId) -> (activated: bool)
        ensures
            activated == active.includes(required),
            activated ==> *final(self) == *old(self),
            !activated ==> *final(self) == (Interpreter {
                instruction_result: InstructionResult::NotActivated,
                ..*old(self)
            }),
    {
        if SpecId::enabled(active, required) {
            true
        } else {
            self.instruction_result = InstructionResult::NotActivated;
            false
        }
    }

    /// `word` as an offset or a length, or halts the machine with `reason`
    /// where it is beyond the addressable range.
    pub fn as_usize_or_fail(&mut self, word: Word, reason: InstructionResult) -> (r: Option<usize>)
        ensures
            word.value() <= usize::MAX ==> r == Some(word.value() as usize) && *final(self) == *old(
                self,
            ),
            word.value() > usize::MAX ==> r is None && *final(self) == (Interpreter {
                instruction_result: reason,
                ..*old(self)
            }),
    {
        let r: Option<usize> = word.as_usize();
        if r.is_none() {
            self.instruction_result = reason;
        }
        r
    }

    /// Takes the top word off the stack, or halts the machine with
    /// `StackUnderflow`.
    pub fn pop1(&mut self) -> (r: Option<Word>)
        requires
            old(self).wf(),
        ensures
            final(self).wf(),
            old(self)@.stack.len() >= 1 ==> r == Some(old(self)@.peek(0)) && final(self)@ == old(
                self,
            )@.pop_n(1),
            old(self)@.stack.len() < 1 ==> r is None && final(self)@ == old(self)@.halt(
                InstructionResult::StackUnderflow,
            ),
    {
        if self.stack.len() < 1 {
            self.instruction_result = InstructionResult::StackUnderflow;
            None
        } else {
            let a: Word = self.stack.pop().unwrap();
            assert(self.stack@ =~= old(self).stack@.subrange(0, old(self).stack@.len() - 1));
            Some(a)
        }
    }

    /// Takes the top two words off the stack, the top one first, or halts
    /// the machine with `StackUnderflow`.
    pub fn pop2(&mut self) -> (r: Option<(Word, Word)>)
        requires
            old(self).wf(),
        ensures
            final(self).wf(),
            old(self)@.stack.len() >= 2 ==> r == Some((old(self)@.peek(0), old(self)@.peek(1)))
                && final(self)@ == old(self)@.pop_n(2),
            old(self)@.stack.len() < 2 ==> r is None && final(self)@ == old(self)@.halt(
                InstructionResult::StackUnderflow,
            ),
    {
        if self.stack.len() < 2 {
            self.instruction_result = InstructionResult::StackUnderflow;
            None
        } else {
            let a: Word = self.stack.pop().unwrap();
            let b: Word = self.stack.pop().unwrap();
            assert(self.stack@ =~= old(self).stack@.subrange(0, old(self).stack@.len() - 2));
            Some((a, b))
        }
    }

    /// Takes the top three words off the stack, the top one first, or halts
    /// the machine with `StackUnderflow`.
    pub fn pop3(&mut self) -> (r: Option<(Word, Word, Word)>)
        requires
            old(self).wf(),
        ensures
            final(self).wf(),
            old(self)@.stack.len() >= 3 ==> r == Some(
                (old(self)@.peek(0), old(self)@.peek(1), old(self)@.peek(2)),
            ) && final(self)@ == old(self)@.pop_n(3),
            old(self)@.stack.len() < 3 ==> r is None && final(self)@ == old(self)@.halt(
                InstructionResult::StackUnderflow,
            ),
    {
        if self.stack.len() < 3 {
            self.instruction_result = InstructionResult::StackUnderflow;
            None
        } else {
            let a: Word = self.stack.pop().unwrap();
            let b: Word = self.stack.pop().unwrap();
            let c: Word = self.stack.pop().unwrap();
            assert(self.stack@ =~= old(self).stack@.subrange(0, old(self).stack@.len() - 3));
            Some((a, b, c))
        }
    }

    /// Puts `word` on the stack, or halts the machine with `StackOverflow`.
    pub fn push(&mut self, word: Word)
        requires
            old(self).wf(),
        ensures
            final(self).wf(),
            final(self)@ == old(self)@.push(word),
    {
        match self.stack.push(word) {
            Ok(()) => {},
            Err(result) => {
                self.instruction_result = result;
            },
        }
    }

    /// Makes the memory hold the `len` bytes from `offset` on, growing it
    /// by whole words and charging for the growth, or halts the machine:
    /// with `OutOfOffset` where the range ends beyond the addressable range,
    /// with `OutOfGas` where the growth costs more than is left.
    pub fn resize_memory(&mut self, offset: usize, len: usize) -> (resized: bool)
        requires
            old(self).wf(),
        ensures
            final(self).wf(),
            resized == (old(self)@.resize_failure(offset as nat, len as nat) is None),
            final(self)@ == old(self)@.resize(offset as nat, len as nat),
            resized ==> offset + len <= final(self)@.memory.len(),
    {
        proof {
            self.lemma_wf_state();
            lemma_covering_len(offset as nat, len as nat, self@.memory.len());
        }
        let end: usize = match offset.checked_add(len) {
            Some(end) => end,
            None => {
                self.instruction_result = InstructionResult::OutOfOffset;
                return false;
            },
        };
        let memory_len: usize = self.shared_memory.len();
        if end <= memory_len {
            return true;
        }
        let words: usize = if end % 32 == 0 {
            end / 32
        } else {
            end / 32 + 1
        };
        if words > usize::MAX / 32 {
            self.instruction_result = InstructionResult::OutOfOffset;
            return false;
        }
        let new_len: usize = words * 32;
        proof {
            lemma_memory_cost_monotonic((memory_len / 32) as nat, words as nat);
        }
        let cost: u128 = memory_gas(words) - memory_gas(memory_len / 32);
        if cost > self.gas.remaining() as u128 {
            self.instruction_result = InstructionResult::OutOfGas;
            return false;
        }
        self.gas.record_cost(cost as u64);
        self.shared_memory.resize(new_len);
        true
    }
}

} // verus!
