//! Hashing, and what a frame can read of its call and of its own code.

use crate::gas;
use crate::gas::{copying_cost, hashing_cost};
use crate::hash::{keccak256_digest, keccak_empty, keccak_empty_bytes};
use crate::interpreter::instruction_result::InstructionResult;
use crate::interpreter::shared_memory::{read, window, written};
use crate::interpreter::stack::STACK_LIMIT;
use crate::interpreter::{Interpreter, State};
use crate::primitives::{
    lemma_word_of_bytes, pad_left, word_of_bytes, word_of_value, zeros, Word,
};
use crate::protocol::{Spec, SpecId};
use vstd::prelude::*;
use vstd::slice::slice_subrange;

verus! {

/// The value of `word` as an offset, clamped to the largest offset.
pub open spec fn saturated(word: Word) -> nat {
    if word.value() <= usize::MAX {
        word.value()
    } else {
        usize::MAX as nat
    }
}

/// The state after a charge of `BASE` and a push of `word`.
pub open spec fn after_base_push(s: State, word: Word) -> State {
    if s.gas.remaining < gas::BASE {
        s.halt(InstructionResult::OutOfGas)
    } else {
        s.spend(gas::BASE as nat).push(word)
    }
}

/// `KECCAK256`: takes an offset and a length off the stack, charges for
/// hashing that many bytes, and pushes the hash of that range of the
/// memory. The hash of an empty range is the hash of the empty string,
/// whatever the offset is, and touches no memory; any other range is first
/// made to lie in the memory, at the cost of the growth.
pub open spec fn after_keccak256(s: State) -> State {
    if s.stack.len() < 2 {
        s.halt(InstructionResult::StackUnderflow)
    } else {
        let from: nat = s.peek(0).value();
        let len: nat = s.peek(1).value();
        let s1: State = s.pop_n(2);
        if len > usize::MAX {
            s1.halt(InstructionResult::OutOfOffset)
        } else if hashing_cost(len) > s1.gas.remaining {
            s1.halt(InstructionResult::OutOfGas)
        } else {
            let s2: State = s1.spend(hashing_cost(len));
            if len == 0 {
                s2.push(word_of_bytes(keccak_empty_bytes()))
            } else if from > usize::MAX {
                s2.halt(InstructionResult::OutOfOffset)
            } else if s2.resize_failure(from, len) is Some {
                s2.resize(from, len)
            } else {
                let s3: State = s2.resized(from, len);
                s3.push(word_of_bytes(keccak256_digest(read(s3.memory, from as int, len))))
            }
        }
    }
}

/// `ADDRESS`: charges `BASE` and pushes the address of the account whose
/// code runs.
pub open spec fn after_address(s: State) -> State {
    after_base_push(s, word_of_bytes(pad_left(s.address.bytes@)))
}

/// `CALLER`: charges `BASE` and pushes the address of the account that
/// made the call.
pub open spec fn after_caller(s: State) -> State {
    after_base_push(s, word_of_bytes(pad_left(s.caller.bytes@)))
}

/// `CODESIZE`: charges `BASE` and pushes the length of the code.
pub open spec fn after_codesize(s: State) -> State {
    after_base_push(s, word_of_value(s.code.len()))
}

/// `CALLDATASIZE`: charges `BASE` and pushes the length of the call data.
pub open spec fn after_calldatasize(s: State) -> State {
    after_base_push(s, word_of_value(s.input.len()))
}

/// `CALLVALUE`: charges `BASE` and pushes the value sent with the call.
pub open spec fn after_callvalue(s: State) -> State {
    after_base_push(s, s.value)
}

/// `GAS`: charges `BASE` and pushes the gas that is then left.
pub open spec fn after_gas(s: State) -> State {
    after_base_push(s, word_of_value((s.gas.remaining - gas::BASE) as nat))
}

/// `RETURNDATASIZE` under the protocol version `version`: charges `BASE`
/// and pushes the length of the return data. Not activated before
/// Byzantium.
pub open spec fn after_returndatasize(s: State, version: SpecId) -> State {
    if version.includes(SpecId::Byzantium) {
        after_base_push(s, word_of_value(s.return_data.len()))
    } else {
        s.halt(InstructionResult::NotActivated)
    }
}

/// `CALLDATALOAD`: charges `VERYLOW`, takes an index off the stack and
/// pushes the 32 bytes of the call data from that index on, with zero bytes
/// for what lies beyond the end of the call data.
pub open spec fn after_calldataload(s: State) -> State {
    if s.gas.remaining < gas::VERYLOW {
        s.halt(InstructionResult::OutOfGas)
    } else if s.stack.len() < 1 {
        s.spend(gas::VERYLOW as nat).halt(InstructionResult::StackUnderflow)
    } else {
        s.spend(gas::VERYLOW as nat).pop_n(1).push(
            word_of_bytes(window(s.input, s.peek(0).value() as int, 32)),
        )
    }
}

/// `CODECOPY` and `CALLDATACOPY`, with `data` the code or the call data:
/// takes a memory offset, a data offset and a length off the stack, charges
/// for copying that many bytes, and writes that range of `data` to the
/// memory, with zero bytes for what lies beyond the end of `data`. An empty
/// range changes nothing more, whatever the offsets are; for any other the
/// memory is first made to hold what is written, at the cost of the growth.
pub open spec fn after_copy(s: State, data: Seq<u8>) -> State {
    if s.stack.len() < 3 {
        s.halt(InstructionResult::StackUnderflow)
    } else {
        let memory_offset: nat = s.peek(0).value();
        let data_offset: nat = s.peek(1).value();
        let len: nat = s.peek(2).value();
        let s1: State = s.pop_n(3);
        if len > usize::MAX {
            s1.halt(InstructionResult::OutOfOffset)
        } else if copying_cost(len) > s1.gas.remaining {
            s1.halt(InstructionResult::OutOfGas)
        } else {
            let s2: State = s1.spend(copying_cost(len));
            if len == 0 {
                s2
            } else if memory_offset > usize::MAX {
                s2.halt(InstructionResult::OutOfOffset)
            } else if s2.resize_failure(memory_offset, len) is Some {
                s2.resize(memory_offset, len)
            } else {
                let s3: State = s2.resized(memory_offset, len);
                s3.with_memory(
                    written(s3.memory, memory_offset as int, window(data, data_offset as int, len)),
                )
            }
        }
    }
}

/// `CODECOPY`: copies from the code itself, without its padding.
pub open spec fn after_codecopy(s: State) -> State {
    after_copy(s, s.code)
}

/// `CALLDATACOPY`: copies from the call data.
pub open spec fn after_calldatacopy(s: State) -> State {
    after_copy(s, s.input)
}

/// `RETURNDATACOPY` under the protocol version `version`: takes a memory
/// offset, a data offset and a length off the stack, charges for copying
/// that many bytes, and writes that range of the return data to the memory.
/// A range that ends beyond the return data halts with `OutOfOffset`; to
/// that end the data offset is clamped to the largest offset. An empty range
/// within the return data changes nothing more; for any other the memory is
/// first made to hold what is written. Not activated before Byzantium.
pub open spec fn after_returndatacopy(s: State, version: SpecId) -> State {
    if !version.includes(SpecId::Byzantium) {
        s.halt(InstructionResult::NotActivated)
    } else if s.stack.len() < 3 {
        s.halt(InstructionResult::StackUnderflow)
    } else {
        let memory_offset: nat = s.peek(0).value();
        let data_offset: nat = saturated(s.peek(1));
        let len: nat = s.peek(2).value();
        let s1: State = s.pop_n(3);
        if len > usize::MAX {
            s1.halt(InstructionResult::OutOfOffset)
        } else if copying_cost(len) > s1.gas.remaining {
            s1.halt(InstructionResult::OutOfGas)
        } else {
            let s2: State = s1.spend(copying_cost(len));
            if data_offset + len > s2.return_data.len() {
                s2.halt(InstructionResult::OutOfOffset)
            } else if len == 0 {
                s2
            } else if memory_offset > usize::MAX {
                s2.halt(InstructionResult::OutOfOffset)
            } else if s2.resize_failure(memory_offset, len) is Some {
                s2.resize(memory_offset, len)
            } else {
                let s3: State = s2.resized(memory_offset, len);
                s3.with_memory(
                    written(
                        s3.memory,
                        memory_offset as int,
                        s3.return_data.subrange(data_offset as int, (data_offset + len) as int),
                    ),
                )
            }
        }
    }
}

/// A window of data is the same from any two offsets beyond the end of the
/// data, and so from an offset and the offset clamped.
pub proof fn lemma_window_saturated(data: Seq<u8>, offset: Word, len: nat)
    requires
        data.len() <= usize::MAX,
    ensures
        window(data, saturated(offset) as int, len) == window(data, offset.value() as int, len),
{
    assert(window(data, saturated(offset) as int, len) =~= window(
        data,
        offset.value() as int,
        len,
    ));
}

/// The hash of no bytes is the hash of the empty string, whatever the
/// offset is: the memory does not change, and only the fixed cost of
/// hashing is charged.
pub proof fn lemma_keccak256_of_nothing(s: State)
    requires
        s.stack.len() >= 2,
        s.peek(1).value() == 0,
        s.gas.remaining >= gas::KECCAK256,
    ensures
        after_keccak256(s) == s.pop_n(2).spend(gas::KECCAK256 as nat).push(
            word_of_bytes(keccak_empty_bytes()),
        ),
        after_keccak256(s).memory == s.memory,
{
}

/// `CALLDATALOAD`, with gas for it and an index on the stack, pushes the
/// call data from the index on, cut to 32 bytes or extended with zero bytes
/// to 32: the zero word for an index at or beyond the end of the call data,
/// and the bytes that are left followed by zero bytes where fewer than 32
/// are left.
pub proof fn lemma_calldataload_pads(s: State)
    requires
        s.gas.remaining >= gas::VERYLOW,
        1 <= s.stack.len() <= STACK_LIMIT,
    ensures
        after_calldataload(s).result == s.result,
        after_calldataload(s).stack.len() == s.stack.len(),
        ({
            let index: nat = s.peek(0).value();
            let loaded: Word = after_calldataload(s).stack.last();
            &&& index >= s.input.len() ==> loaded == word_of_bytes(zeros(32))
            &&& index < s.input.len() <= index + 32 ==> loaded == word_of_bytes(
                s.input.subrange(index as int, s.input.len() as int) + zeros(
                    (32 - (s.input.len() - index)) as nat,
                ),
            )
            &&& index + 32 <= s.input.len() ==> loaded == word_of_bytes(
                s.input.subrange(index as int, (index + 32) as int),
            )
        }),
{
    let index: nat = s.peek(0).value();
    let loaded: Seq<u8> = window(s.input, index as int, 32);
    if index >= s.input.len() {
        assert(loaded =~= zeros(32));
    } else if s.input.len() <= index + 32 {
        assert(loaded =~= s.input.subrange(index as int, s.input.len() as int) + zeros(
            (32 - (s.input.len() - index)) as nat,
        ));
    } else {
        assert(loaded =~= s.input.subrange(index as int, (index + 32) as int));
    }
}

/// The `KECCAK256` instruction.
pub fn keccak256(interpreter: &mut Interpreter)
    requires
        old(interpreter).wf(),
    ensures
        final(interpreter).wf(),
        final(interpreter)@ == after_keccak256(old(interpreter)@),
{
    let (from, len): (Word, Word) = match interpreter.pop2() {
        Some(operands) => operands,
        None => {
            return ;
        },
    };
    let len: usize = match interpreter.as_usize_or_fail(len, InstructionResult::OutOfOffset) {
        Some(len) => len,
        None => {
            return ;
        },
    };
    if !interpreter.charge(gas::keccak256_cost(len as u64)) {
        return ;
    }
    let hash: Word = if len == 0 {
        keccak_empty()
    } else {
        let from: usize = match interpreter.as_usize_or_fail(from, InstructionResult::OutOfOffset) {
            Some(from) => from,
            None => {
                return ;
            },
        };
        if !interpreter.resize_memory(from, len) {
            return ;
        }
        crate::hash::keccak256(interpreter.shared_memory.slice(from, len))
    };
    interpreter.push(hash);
}

/// The `ADDRESS` instruction.
pub fn address(interpreter: &mut Interpreter)
    requires
        old(interpreter).wf(),
    ensures
        final(interpreter).wf(),
        final(interpreter)@ == after_address(old(interpreter)@),
{
    if !interpreter.charge(gas::BASE) {
        return ;
    }
    let word: Word = interpreter.contract.address.into_word();
    interpreter.push(word);
}

/// The `CALLER` instruction.
pub fn caller(interpreter: &mut Interpreter)
    requires
        old(interpreter).wf(),
    ensures
        final(interpreter).wf(),
        final(interpreter)@ == after_caller(old(interpreter)@),
{
    if !interpreter.charge(gas::BASE) {
        return ;
    }
    let word: Word = interpreter.contract.caller.into_word();
    interpreter.push(word);
}

/// The `CODESIZE` instruction.
pub fn codesize(interpreter: &mut Interpreter)
    requires
        old(interpreter).wf(),
    ensures
        final(interpreter).wf(),
        final(interpreter)@ == after_codesize(old(interpreter)@),
{
    if !interpreter.charge(gas::BASE) {
        return ;
    }
    let len: usize = interpreter.contract.bytecode.len();
    interpreter.push(Word::from_usize(len));
}

/// The `CODECOPY` instruction.
pub fn codecopy(interpreter: &mut Interpreter)
    requires
        old(interpreter).wf(),
    ensures
        final(interpreter).wf(),
        final(interpreter)@ == after_codecopy(old(interpreter)@),
{
    let (memory_offset, code_offset, len): (Word, Word, Word) = match interpreter.pop3() {
        Some(operands) => operands,
        None => {
            return ;
        },
    };
    let len: usize = match interpreter.as_usize_or_fail(len, InstructionResult::OutOfOffset) {
        Some(len) => len,
        None => {
            return ;
        },
    };
    if !interpreter.charge(gas::verylowcopy_cost(len as u64)) {
        return ;
    }
    if len == 0 {
        return ;
    }
    let memory_offset: usize = match interpreter.as_usize_or_fail(
        memory_offset,
        InstructionResult::OutOfOffset,
    ) {
        Some(memory_offset) => memory_offset,
        None => {
            return ;
        },
    };
    let code_offset_word: Word = code_offset;
    let code_offset: usize = code_offset.as_usize_saturated();
    if !interpreter.resize_memory(memory_offset, len) {
        return ;
    }
    proof {
        interpreter.lemma_wf_state();
        lemma_window_saturated(interpreter@.code, code_offset_word, len as nat);
    }
    interpreter.shared_memory.set_data(
        memory_offset,
        code_offset,
        len,
        interpreter.contract.bytecode.original_bytecode_slice(),
    );
}

/// The `CALLDATALOAD` instruction.
pub fn calldataload(interpreter: &mut Interpreter)
    requires
        old(interpreter).wf(),
    ensures
        final(interpreter).wf(),
        final(interpreter)@ == after_calldataload(old(interpreter)@),
{
    if !interpreter.charge(gas::VERYLOW) {
        return ;
    }
    let index_word: Word = match interpreter.pop1() {
        Some(index) => index,
        None => {
            return ;
        },
    };
    let index: usize = index_word.as_usize_saturated();
    let input_len: usize = interpreter.contract.input.len();
    let have_bytes: usize = if index < input_len {
        if input_len - index < 32 {
            input_len - index
        } else {
            32
        }
    } else {
        0
    };
    let mut bytes = [0u8; 32];
    let mut i: usize = 0;
    while i < have_bytes
        invariant
            i <= have_bytes <= 32,
            input_len == interpreter.contract.input@.len(),
            have_bytes > 0 ==> index + have_bytes <= input_len,
            forall|j: int| 0 <= j < i ==> bytes@[j] == interpreter.contract.input@[index + j],
            forall|j: int| i <= j < 32 ==> bytes@[j] == 0,
        decreases have_bytes - i,
    {
        bytes[i] = interpreter.contract.input[index + i];
        i = i + 1;
    }
    let load: Word = Word::from_be_bytes(bytes);
    proof {
        let input: Seq<u8> = interpreter.contract.input@;
        assert(load.bytes@ =~= window(input, index as int, 32));
        lemma_window_saturated(input, index_word, 32);
        lemma_word_of_bytes(load);
    }
    interpreter.push(load);
}

/// The `CALLDATASIZE` instruction.
pub fn calldatasize(interpreter: &mut Interpreter)
    requires
        old(interpreter).wf(),
    ensures
        final(interpreter).wf(),
        final(interpreter)@ == after_calldatasize(old(interpreter)@),
{
    if !interpreter.charge(gas::BASE) {
        return ;
    }
    let len: usize = interpreter.contract.input.len();
    interpreter.push(Word::from_usize(len));
}

/// The `CALLVALUE` instruction.
pub fn callvalue(interpreter: &mut Interpreter)
    requires
        old(interpreter).wf(),
    ensures
        final(interpreter).wf(),
        final(interpreter)@ == after_callvalue(old(interpreter)@),
{
    if !interpreter.charge(gas::BASE) {
        return ;
    }
    let value: Word = interpreter.contract.value;
    interpreter.push(value);
}

/// The `CALLDATACOPY` instruction.
pub fn calldatacopy(interpreter: &mut Interpreter)
    requires
        old(interpreter).wf(),
    ensures
        final(interpreter).wf(),
        final(interpreter)@ == after_calldatacopy(old(interpreter)@),
{
    let (memory_offset, data_offset, len): (Word, Word, Word) = match interpreter.pop3() {
        Some(operands) => operands,
        None => {
            return ;
        },
    };
    let len: usize = match interpreter.as_usize_or_fail(len, InstructionResult::OutOfOffset) {
        Some(len) => len,
        None => {
            return ;
        },
    };
    if !interpreter.charge(gas::verylowcopy_cost(len as u64)) {
        return ;
    }
    if len == 0 {
        return ;
    }
    let memory_offset: usize = match interpreter.as_usize_or_fail(
        memory_offset,
        InstructionResult::OutOfOffset,
    ) {
        Some(memory_offset) => memory_offset,
        None => {
            return ;
        },
    };
    let data_offset_word: Word = data_offset;
    let data_offset: usize = data_offset.as_usize_saturated();
    if !interpreter.resize_memory(memory_offset, len) {
        return ;
    }
    proof {
        interpreter.lemma_wf_state();
        lemma_window_saturated(interpreter@.input, data_offset_word, len as nat);
    }
    interpreter.shared_memory.set_data(
        memory_offset,
        data_offset,
        len,
        interpreter.contract.input.as_slice(),
    );
}

/// The `RETURNDATASIZE` instruction, which Byzantium introduced.
pub fn returndatasize<SPEC: Spec>(interpreter: &mut Interpreter)
    requires
        old(interpreter).wf(),
    ensures
        final(interpreter).wf(),
        final(interpreter)@ == after_returndatasize(old(interpreter)@, SPEC::spec_id()),
{
    if !interpreter.check(SPEC::id(), SpecId::Byzantium) {
        return ;
    }
    if !interpreter.charge(gas::BASE) {
        return ;
    }
    let len: usize = interpreter.return_data_buffer.len();
    interpreter.push(Word::from_usize(len));
}

/// The `RETURNDATACOPY` instruction, which Byzantium introduced.
pub fn returndatacopy<SPEC: Spec>(interpreter: &mut Interpreter)
    requires
        old(interpreter).wf(),
    ensures
        final(interpreter).wf(),
        final(interpreter)@ == after_returndatacopy(old(interpreter)@, SPEC::spec_id()),
{
    if !interpreter.check(SPEC::id(), SpecId::Byzantium) {
        return ;
    }
    let (memory_offset, offset, len): (Word, Word, Word) = match interpreter.pop3() {
        Some(operands) => operands,
        None => {
            return ;
        },
    };
    let len: usize = match interpreter.as_usize_or_fail(len, InstructionResult::OutOfOffset) {
        Some(len) => len,
        None => {
            return ;
        },
    };
    if !interpreter.charge(gas::verylowcopy_cost(len as u64)) {
        return ;
    }
    let data_offset: usize = offset.as_usize_saturated();
    proof {
        interpreter.lemma_wf_state();
    }
    let data_end: usize = match data_offset.checked_add(len) {
        Some(data_end) => data_end,
        None => {
            interpreter.instruction_result = InstructionResult::OutOfOffset;
            return ;
        },
    };
    if data_end > interpreter.return_data_buffer.len() {
        interpreter.instruction_result = InstructionResult::OutOfOffset;
        return ;
    }
    if len != 0 {
        let memory_offset: usize = match interpreter.as_usize_or_fail(
            memory_offset,
            InstructionResult::OutOfOffset,
        ) {
            Some(memory_offset) => memory_offset,
            None => {
                return ;
            },
        };
        if !interpreter.resize_memory(memory_offset, len) {
            return ;
        }
        interpreter.shared_memory.set(
            memory_offset,
            slice_subrange(interpreter.return_data_buffer.as_slice(), data_offset, data_end),
        );
    }
}

/// The `GAS` instruction.
pub fn gas(interpreter: &mut Interpreter)
    requires
        old(interpreter).wf(),
    ensures
        final(interpreter).wf(),
        final(interpreter)@ == after_gas(old(interpreter)@),
{
    if !interpreter.charge(gas::BASE) {
        return ;
    }
    let remaining: u64 = interpreter.gas.remaining();
    interpreter.push(Word::from_u64(remaining));
}

} // verus!
