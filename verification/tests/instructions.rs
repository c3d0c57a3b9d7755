use evm_interpreter::hash::keccak_empty;
use evm_interpreter::instructions::control::{
    invalid, jump, jump_inner, jumpdest, jumpi, pc, ret, return_inner, revert, stop, unknown,
};
use evm_interpreter::instructions::stack::{dup, pop, push, push0, swap};
use evm_interpreter::instructions::system::{
    address, calldatacopy, calldataload, calldatasize, caller, callvalue, codecopy, codesize, gas,
    keccak256, returndatacopy, returndatasize,
};
use evm_interpreter::interpreter::bytecode::Bytecode;
use evm_interpreter::interpreter::contract::Contract;
use evm_interpreter::interpreter::instruction_result::InstructionResult;
use evm_interpreter::interpreter::{Interpreter, InterpreterAction};
use evm_interpreter::primitives::{Address, Word};
use evm_interpreter::protocol::{
    ByzantiumSpec, CancunSpec, FrontierSpec, HomesteadSpec, LondonSpec, MergeSpec, ShanghaiSpec,
    SpecId, SpuriousDragonSpec,
};

fn machine(code: &[u8], input: &[u8], gas_limit: u64) -> Interpreter {
    let contract = Contract::new(
        input.to_vec(),
        Bytecode::new(code.to_vec()),
        Address { bytes: [0xaa; 20] },
        Address { bytes: [0xbb; 20] },
        Word::from_u64(7),
    );
    Interpreter::new(contract, gas_limit)
}

/// Pushes the words so that the first is on top.
fn operands(interpreter: &mut Interpreter, top_first: &[Word]) {
    for word in top_first.iter().rev() {
        interpreter.stack.push(*word).unwrap();
    }
}

fn huge() -> Word {
    Word::from_be_bytes([0xff; 32])
}

fn top(interpreter: &Interpreter) -> Word {
    interpreter.stack.peek(0).unwrap()
}

#[test]
fn jump_to_a_jumpdest_moves_the_instruction_pointer() {
    // JUMPDEST, STOP
    let mut m = machine(&[0x5b, 0x00], &[], 100);
    m.instruction_pointer = 1;
    operands(&mut m, &[Word::from_u64(0)]);
    jump(&mut m);
    assert_eq!(m.instruction_result, InstructionResult::Continue);
    assert_eq!(m.program_counter(), 0);
    assert_eq!(m.gas.remaining(), 92);
    assert_eq!(m.stack.len(), 0);
}

#[test]
fn jump_to_another_byte_is_invalid() {
    // JUMPDEST, STOP
    let mut m = machine(&[0x5b, 0x00], &[], 100);
    operands(&mut m, &[Word::from_u64(1)]);
    jump(&mut m);
    assert_eq!(m.instruction_result, InstructionResult::InvalidJump);
    assert_eq!(m.program_counter(), 0);
    assert_eq!(m.gas.remaining(), 92);
}

#[test]
fn jump_into_push_data_is_invalid() {
    // PUSH1 0x5b, JUMPDEST
    let mut m = machine(&[0x60, 0x5b, 0x5b], &[], 100);
    operands(&mut m, &[Word::from_u64(1)]);
    jump(&mut m);
    assert_eq!(m.instruction_result, InstructionResult::InvalidJump);
    let mut m = machine(&[0x60, 0x5b, 0x5b], &[], 100);
    operands(&mut m, &[Word::from_u64(2)]);
    jump(&mut m);
    assert_eq!(m.instruction_result, InstructionResult::Continue);
    assert_eq!(m.program_counter(), 2);
}

#[test]
fn jump_beyond_the_code_or_the_addressable_range_is_invalid() {
    let mut m = machine(&[0x5b], &[], 100);
    operands(&mut m, &[Word::from_u64(1)]);
    jump(&mut m);
    assert_eq!(m.instruction_result, InstructionResult::InvalidJump);
    let mut m = machine(&[0x5b], &[], 100);
    operands(&mut m, &[huge()]);
    jump(&mut m);
    assert_eq!(m.instruction_result, InstructionResult::InvalidJump);
    assert_eq!(m.stack.len(), 0);
}

#[test]
fn jump_without_gas_or_operand_fails() {
    let mut m = machine(&[0x5b], &[], 7);
    operands(&mut m, &[Word::zero()]);
    jump(&mut m);
    assert_eq!(m.instruction_result, InstructionResult::OutOfGas);
    assert_eq!(m.gas.remaining(), 7);
    assert_eq!(m.stack.len(), 1);
    let mut m = machine(&[0x5b], &[], 8);
    jump(&mut m);
    assert_eq!(m.instruction_result, InstructionResult::StackUnderflow);
    assert_eq!(m.gas.remaining(), 0);
}

#[test]
fn jump_inner_checks_the_destination() {
    let mut m = machine(&[0x00, 0x5b], &[], 0);
    jump_inner(&mut m, Word::from_u64(1));
    assert_eq!(m.instruction_result, InstructionResult::Continue);
    assert_eq!(m.program_counter(), 1);
    jump_inner(&mut m, Word::from_u64(0));
    assert_eq!(m.instruction_result, InstructionResult::InvalidJump);
    assert_eq!(m.program_counter(), 1);
}

#[test]
fn jumpi_falls_through_on_zero() {
    let mut m = machine(&[0x5b, 0x00], &[], 100);
    m.instruction_pointer = 1;
    operands(&mut m, &[Word::from_u64(1), Word::zero()]);
    jumpi(&mut m);
    assert_eq!(m.instruction_result, InstructionResult::Continue);
    assert_eq!(m.program_counter(), 1);
    assert_eq!(m.gas.remaining(), 90);
    assert_eq!(m.stack.len(), 0);
}

#[test]
fn jumpi_jumps_on_a_condition_that_is_not_zero() {
    let mut m = machine(&[0x5b, 0x00], &[], 100);
    m.instruction_pointer = 1;
    operands(&mut m, &[Word::from_u64(0), huge()]);
    jumpi(&mut m);
    assert_eq!(m.instruction_result, InstructionResult::Continue);
    assert_eq!(m.program_counter(), 0);
    let mut m = machine(&[0x5b, 0x00], &[], 100);
    operands(&mut m, &[Word::from_u64(1), Word::from_u64(1)]);
    jumpi(&mut m);
    assert_eq!(m.instruction_result, InstructionResult::InvalidJump);
    let mut m = machine(&[0x5b, 0x00], &[], 100);
    operands(&mut m, &[Word::from_u64(0)]);
    jumpi(&mut m);
    assert_eq!(m.instruction_result, InstructionResult::StackUnderflow);
    assert_eq!(m.stack.len(), 1);
}

#[test]
fn jumpdest_only_costs_gas() {
    let mut m = machine(&[0x5b], &[], 1);
    jumpdest(&mut m);
    assert_eq!(m.instruction_result, InstructionResult::Continue);
    assert_eq!(m.gas.remaining(), 0);
    jumpdest(&mut m);
    assert_eq!(m.instruction_result, InstructionResult::OutOfGas);
}

#[test]
fn pc_pushes_the_offset_of_the_instruction() {
    let mut m = machine(&[0x5b, 0x5b, 0x58], &[], 10);
    m.instruction_pointer = 3;
    pc(&mut m);
    assert_eq!(top(&m), Word::from_u64(2));
    assert_eq!(m.gas.remaining(), 8);
    assert_eq!(m.program_counter(), 3);
}

#[test]
fn return_of_nothing_ignores_the_offset() {
    let mut m = machine(&[0xf3], &[], 5);
    operands(&mut m, &[huge(), Word::zero()]);
    ret(&mut m);
    assert_eq!(m.instruction_result, InstructionResult::Return);
    assert_eq!(m.gas.remaining(), 5);
    assert_eq!(m.shared_memory.len(), 0);
    match &m.next_action {
        InterpreterAction::Return { result } => {
            assert_eq!(result.result, InstructionResult::Return);
            assert!(result.output.is_empty());
            assert_eq!(result.gas.remaining(), 5);
        }
        InterpreterAction::Continue => panic!("no result"),
    }
}

#[test]
fn return_copies_the_range_and_pays_for_the_growth() {
    let mut m = machine(&[0xf3], &[1, 2, 3, 4], 100);
    // bring the call data into memory at offset 30
    operands(&mut m, &[Word::from_u64(30), Word::zero(), Word::from_u64(4)]);
    calldatacopy(&mut m);
    assert_eq!(m.shared_memory.len(), 64);
    assert_eq!(m.gas.remaining(), 100 - 6 - 6);
    operands(&mut m, &[Word::from_u64(29), Word::from_u64(70)]);
    ret(&mut m);
    assert_eq!(m.instruction_result, InstructionResult::Return);
    assert_eq!(m.shared_memory.len(), 128);
    assert_eq!(m.gas.remaining(), 100 - 6 - 6 - 6);
    match &m.next_action {
        InterpreterAction::Return { result } => {
            let mut expected = vec![0u8, 1, 2, 3, 4];
            expected.resize(70, 0);
            assert_eq!(result.output, expected);
            assert_eq!(result.gas.remaining(), 82);
            assert_eq!(result.gas.spent(), 18);
        }
        InterpreterAction::Continue => panic!("no result"),
    }
}

#[test]
fn return_fails_on_what_it_cannot_address_or_pay() {
    let mut m = machine(&[0xf3], &[], 100);
    operands(&mut m, &[Word::zero(), huge()]);
    ret(&mut m);
    assert_eq!(m.instruction_result, InstructionResult::OutOfOffset);
    let mut m = machine(&[0xf3], &[], 100);
    operands(&mut m, &[huge(), Word::from_u64(1)]);
    ret(&mut m);
    assert_eq!(m.instruction_result, InstructionResult::OutOfOffset);
    let mut m = machine(&[0xf3], &[], 100);
    operands(&mut m, &[Word::from_usize(usize::MAX), Word::from_u64(1)]);
    ret(&mut m);
    assert_eq!(m.instruction_result, InstructionResult::OutOfOffset);
    let mut m = machine(&[0xf3], &[], 2);
    operands(&mut m, &[Word::zero(), Word::from_u64(1)]);
    ret(&mut m);
    assert_eq!(m.instruction_result, InstructionResult::OutOfGas);
    assert_eq!(m.gas.remaining(), 2);
    assert_eq!(m.shared_memory.len(), 0);
    let mut m = machine(&[0xf3], &[], 2);
    operands(&mut m, &[Word::zero()]);
    ret(&mut m);
    assert_eq!(m.instruction_result, InstructionResult::StackUnderflow);
}

#[test]
fn return_inner_sets_the_given_outcome() {
    let mut m = machine(&[], &[], 0);
    operands(&mut m, &[Word::zero(), Word::zero()]);
    return_inner(&mut m, InstructionResult::Revert);
    assert_eq!(m.instruction_result, InstructionResult::Revert);
}

#[test]
fn revert_is_not_activated_before_byzantium() {
    let mut m = machine(&[0xfd], &[], 10);
    operands(&mut m, &[Word::zero(), Word::zero()]);
    revert::<SpuriousDragonSpec>(&mut m);
    assert_eq!(m.instruction_result, InstructionResult::NotActivated);
    assert_eq!(m.stack.len(), 2);
    let mut m = machine(&[0xfd], &[], 10);
    operands(&mut m, &[Word::zero(), Word::zero()]);
    revert::<ByzantiumSpec>(&mut m);
    assert_eq!(m.instruction_result, InstructionResult::Revert);
    assert!(m.instruction_result.is_revert());
    assert!(!m.instruction_result.is_ok());
    assert!(!m.instruction_result.is_error());
}

#[test]
fn stop_invalid_and_unknown_halt() {
    let mut m = machine(&[], &[], 10);
    stop(&mut m);
    assert_eq!(m.instruction_result, InstructionResult::Stop);
    assert!(m.instruction_result.is_ok());
    invalid(&mut m);
    assert_eq!(m.instruction_result, InstructionResult::InvalidOpcode);
    assert!(m.instruction_result.is_error());
    unknown(&mut m);
    assert_eq!(m.instruction_result, InstructionResult::OpcodeNotFound);
    assert_eq!(m.gas.remaining(), 10);
}

#[test]
fn pop_discards_the_top() {
    let mut m = machine(&[], &[], 4);
    operands(&mut m, &[Word::from_u64(1), Word::from_u64(2)]);
    pop(&mut m);
    assert_eq!(m.instruction_result, InstructionResult::Continue);
    assert_eq!(top(&m), Word::from_u64(2));
    assert_eq!(m.stack.len(), 1);
    assert_eq!(m.gas.remaining(), 2);
}

#[test]
fn pop_on_an_empty_stack_underflows() {
    let mut m = machine(&[], &[], 4);
    pop(&mut m);
    assert_eq!(m.instruction_result, InstructionResult::StackUnderflow);
    assert_eq!(m.stack.len(), 0);
}

#[test]
fn push0_is_not_activated_before_shanghai() {
    let mut m = machine(&[0x5f], &[], 10);
    push0::<MergeSpec>(&mut m);
    assert_eq!(m.instruction_result, InstructionResult::NotActivated);
    assert_eq!(m.stack.len(), 0);
    assert_eq!(m.gas.remaining(), 10);
    let mut m = machine(&[0x5f], &[], 10);
    push0::<LondonSpec>(&mut m);
    assert_eq!(m.instruction_result, InstructionResult::NotActivated);
}

#[test]
fn push0_pushes_zero_from_shanghai_on() {
    let mut m = machine(&[0x5f], &[], 10);
    push0::<ShanghaiSpec>(&mut m);
    assert_eq!(m.instruction_result, InstructionResult::Continue);
    assert_eq!(top(&m), Word::zero());
    assert_eq!(m.gas.remaining(), 8);
    push0::<CancunSpec>(&mut m);
    assert_eq!(m.instruction_result, InstructionResult::Continue);
    assert_eq!(m.stack.len(), 2);
    assert_eq!(m.gas.remaining(), 6);
}

#[test]
fn push_reads_the_immediate_bytes_and_skips_them() {
    // PUSH2 0x12 0x34, STOP
    let mut m = machine(&[0x61, 0x12, 0x34, 0x00], &[], 10);
    m.instruction_pointer = 1;
    push::<2>(&mut m);
    assert_eq!(m.instruction_result, InstructionResult::Continue);
    assert_eq!(top(&m), Word::from_u64(0x1234));
    assert_eq!(m.program_counter(), 3);
    assert_eq!(m.gas.remaining(), 7);
}

#[test]
fn push_at_the_end_of_the_code_reads_zero_bytes() {
    // PUSH32 0xff, with 31 immediate bytes missing
    let mut m = machine(&[0x7f, 0xff], &[], 10);
    m.instruction_pointer = 1;
    push::<32>(&mut m);
    let mut expected = [0u8; 32];
    expected[0] = 0xff;
    assert_eq!(top(&m), Word::from_be_bytes(expected));
    assert_eq!(m.program_counter(), 33);
}

#[test]
fn push_onto_a_full_stack_overflows_and_stays() {
    let mut m = machine(&[0x60, 0x01], &[], 10);
    m.instruction_pointer = 1;
    for _ in 0..1024 {
        m.stack.push(Word::zero()).unwrap();
    }
    push::<1>(&mut m);
    assert_eq!(m.instruction_result, InstructionResult::StackOverflow);
    assert_eq!(m.program_counter(), 1);
    assert_eq!(m.gas.remaining(), 7);
}

#[test]
fn dup_and_swap_charge_and_delegate() {
    let mut m = machine(&[], &[], 10);
    operands(&mut m, &[Word::from_u64(1), Word::from_u64(2)]);
    dup::<2>(&mut m);
    assert_eq!(top(&m), Word::from_u64(2));
    assert_eq!(m.stack.len(), 3);
    assert_eq!(m.gas.remaining(), 7);
    swap::<1>(&mut m);
    assert_eq!(top(&m), Word::from_u64(1));
    assert_eq!(m.stack.peek(1), Ok(Word::from_u64(2)));
    assert_eq!(m.gas.remaining(), 4);
    dup::<4>(&mut m);
    assert_eq!(m.instruction_result, InstructionResult::StackUnderflow);
    assert_eq!(m.gas.remaining(), 1);
    let mut m = machine(&[], &[], 10);
    operands(&mut m, &[Word::from_u64(1), Word::from_u64(2)]);
    swap::<2>(&mut m);
    assert_eq!(m.instruction_result, InstructionResult::StackUnderflow);
    swap::<16>(&mut m);
    assert_eq!(m.gas.remaining(), 4);
}

#[test]
fn keccak256_of_an_empty_range_touches_no_memory() {
    let mut m = machine(&[0x20], &[], 30);
    operands(&mut m, &[huge(), Word::zero()]);
    keccak256(&mut m);
    assert_eq!(m.instruction_result, InstructionResult::Continue);
    assert_eq!(top(&m), keccak_empty());
    assert_eq!(m.shared_memory.len(), 0);
    assert_eq!(m.gas.remaining(), 0);
}

#[test]
fn keccak256_hashes_the_range_of_memory() {
    let mut m = machine(&[0x20], b"abc", 100);
    operands(&mut m, &[Word::zero(), Word::zero(), Word::from_u64(3)]);
    calldatacopy(&mut m);
    assert_eq!(m.gas.remaining(), 100 - 6 - 3);
    operands(&mut m, &[Word::zero(), Word::from_u64(3)]);
    keccak256(&mut m);
    assert_eq!(m.instruction_result, InstructionResult::Continue);
    let expected: [u8; 32] = [
        0x4e, 0x03, 0x65, 0x7a, 0xea, 0x45, 0xa9, 0x4f, 0xc7, 0xd4, 0x7b, 0xa8, 0x26, 0xc8, 0xd6,
        0x67, 0xc0, 0xd1, 0xe6, 0xe3, 0x3a, 0x64, 0xa0, 0x36, 0xec, 0x44, 0xf5, 0x8f, 0xa1, 0x2d,
        0x6c, 0x45,
    ];
    assert_eq!(top(&m), Word::from_be_bytes(expected));
    assert_eq!(m.gas.remaining(), 100 - 6 - 3 - 36);
    // a range beyond the memory grows it first, and hashes zero bytes with the rest
    operands(&mut m, &[Word::from_u64(32), Word::from_u64(1)]);
    keccak256(&mut m);
    assert_eq!(m.shared_memory.len(), 64);
    assert_eq!(m.gas.remaining(), 100 - 6 - 3 - 36 - 36 - 3);
    let zero_byte_hash: [u8; 32] = [
        0xbc, 0x36, 0x78, 0x9e, 0x7a, 0x1e, 0x28, 0x14, 0x36, 0x46, 0x42, 0x29, 0x82, 0x8f, 0x81,
        0x7d, 0x66, 0x12, 0xf7, 0xb4, 0x77, 0xd6, 0x65, 0x91, 0xff, 0x96, 0xa9, 0xe0, 0x64, 0xbc,
        0xc9, 0x8a,
    ];
    assert_eq!(top(&m), Word::from_be_bytes(zero_byte_hash));
}

#[test]
fn keccak256_fails_without_operands_gas_or_addressable_range() {
    let mut m = machine(&[0x20], &[], 100);
    operands(&mut m, &[Word::zero()]);
    keccak256(&mut m);
    assert_eq!(m.instruction_result, InstructionResult::StackUnderflow);
    assert_eq!(m.gas.remaining(), 100);
    let mut m = machine(&[0x20], &[], 35);
    operands(&mut m, &[Word::zero(), Word::from_u64(1)]);
    keccak256(&mut m);
    assert_eq!(m.instruction_result, InstructionResult::OutOfGas);
    assert_eq!(m.gas.remaining(), 35);
    let mut m = machine(&[0x20], &[], 100);
    operands(&mut m, &[Word::zero(), huge()]);
    keccak256(&mut m);
    assert_eq!(m.instruction_result, InstructionResult::OutOfOffset);
    let mut m = machine(&[0x20], &[], 100);
    operands(&mut m, &[huge(), Word::from_u64(1)]);
    keccak256(&mut m);
    assert_eq!(m.instruction_result, InstructionResult::OutOfOffset);
    assert_eq!(m.gas.remaining(), 64);
}

#[test]
fn frame_scalars_are_pushed_for_base_gas() {
    let mut m = machine(&[0x30, 0x33, 0x34], &[9, 9, 9, 9, 9], 100);
    address(&mut m);
    let mut expected = [0u8; 32];
    expected[12..].copy_from_slice(&[0xaa; 20]);
    assert_eq!(top(&m), Word::from_be_bytes(expected));
    caller(&mut m);
    expected[12..].copy_from_slice(&[0xbb; 20]);
    assert_eq!(top(&m), Word::from_be_bytes(expected));
    callvalue(&mut m);
    assert_eq!(top(&m), Word::from_u64(7));
    codesize(&mut m);
    assert_eq!(top(&m), Word::from_u64(3));
    calldatasize(&mut m);
    assert_eq!(top(&m), Word::from_u64(5));
    assert_eq!(m.gas.remaining(), 90);
    gas(&mut m);
    assert_eq!(top(&m), Word::from_u64(88));
    assert_eq!(m.stack.len(), 6);
    assert_eq!(m.instruction_result, InstructionResult::Continue);
}

#[test]
fn base_push_fails_without_gas_or_room() {
    let mut m = machine(&[], &[], 1);
    codesize(&mut m);
    assert_eq!(m.instruction_result, InstructionResult::OutOfGas);
    assert_eq!(m.gas.remaining(), 1);
    let mut m = machine(&[], &[], 2);
    for _ in 0..1024 {
        m.stack.push(Word::zero()).unwrap();
    }
    gas(&mut m);
    assert_eq!(m.instruction_result, InstructionResult::StackOverflow);
    assert_eq!(m.gas.remaining(), 0);
    assert_eq!(m.stack.len(), 1024);
}

#[test]
fn calldataload_beyond_the_call_data_is_zero() {
    let input: Vec<u8> = (1..=40).collect();
    for index in [Word::from_u64(40), Word::from_u64(41), huge()] {
        let mut m = machine(&[0x35], &input, 3);
        operands(&mut m, &[index]);
        calldataload(&mut m);
        assert_eq!(m.instruction_result, InstructionResult::Continue);
        assert_eq!(top(&m), Word::zero());
        assert_eq!(m.stack.len(), 1);
        assert_eq!(m.gas.remaining(), 0);
    }
}

#[test]
fn calldataload_pads_what_is_left_with_zero_bytes() {
    let input: Vec<u8> = (1..=40).collect();
    let mut m = machine(&[0x35], &input, 10);
    operands(&mut m, &[Word::from_u64(30)]);
    calldataload(&mut m);
    let mut expected = [0u8; 32];
    expected[..10].copy_from_slice(&[31, 32, 33, 34, 35, 36, 37, 38, 39, 40]);
    assert_eq!(top(&m), Word::from_be_bytes(expected));
    assert_eq!(&top(&m).bytes[10..], &[0u8; 22]);
    operands(&mut m, &[Word::from_u64(8)]);
    calldataload(&mut m);
    let full: Vec<u8> = (9..=40).collect();
    assert_eq!(top(&m).bytes.to_vec(), full);
    operands(&mut m, &[Word::from_u64(39)]);
    calldataload(&mut m);
    let mut last = [0u8; 32];
    last[0] = 40;
    assert_eq!(top(&m), Word::from_be_bytes(last));
}

#[test]
fn calldataload_fails_without_gas_or_operand() {
    let mut m = machine(&[0x35], &[1], 2);
    operands(&mut m, &[Word::zero()]);
    calldataload(&mut m);
    assert_eq!(m.instruction_result, InstructionResult::OutOfGas);
    let mut m = machine(&[0x35], &[1], 3);
    calldataload(&mut m);
    assert_eq!(m.instruction_result, InstructionResult::StackUnderflow);
}

#[test]
fn calldatacopy_of_nothing_ignores_the_offsets() {
    let mut m = machine(&[0x37], &[1, 2, 3], 3);
    operands(&mut m, &[huge(), huge(), Word::zero()]);
    calldatacopy(&mut m);
    assert_eq!(m.instruction_result, InstructionResult::Continue);
    assert_eq!(m.shared_memory.len(), 0);
    assert_eq!(m.gas.remaining(), 0);
    assert_eq!(m.stack.len(), 0);
}

#[test]
fn calldatacopy_pads_beyond_the_call_data() {
    let mut m = machine(&[0x37], &[1, 2, 3], 100);
    operands(&mut m, &[Word::from_u64(1), Word::from_u64(1), Word::from_u64(4)]);
    calldatacopy(&mut m);
    assert_eq!(m.shared_memory.slice(0, 6), &[0, 2, 3, 0, 0, 0][..]);
    operands(&mut m, &[Word::from_u64(1), huge(), Word::from_u64(2)]);
    calldatacopy(&mut m);
    assert_eq!(m.shared_memory.slice(0, 6), &[0, 0, 0, 0, 0, 0][..]);
    assert_eq!(m.instruction_result, InstructionResult::Continue);
    assert_eq!(m.gas.remaining(), 100 - 6 - 3 - 6);
}

#[test]
fn copy_fails_on_what_it_cannot_address_or_pay() {
    let mut m = machine(&[0x37], &[1, 2, 3], 100);
    operands(&mut m, &[Word::zero(), Word::zero(), huge()]);
    calldatacopy(&mut m);
    assert_eq!(m.instruction_result, InstructionResult::OutOfOffset);
    assert_eq!(m.gas.remaining(), 100);
    let mut m = machine(&[0x37], &[1, 2, 3], 100);
    operands(&mut m, &[huge(), Word::zero(), Word::from_u64(1)]);
    codecopy(&mut m);
    assert_eq!(m.instruction_result, InstructionResult::OutOfOffset);
    assert_eq!(m.gas.remaining(), 94);
    let mut m = machine(&[0x37], &[1, 2, 3], 5);
    operands(&mut m, &[Word::zero(), Word::zero(), Word::from_u64(1)]);
    codecopy(&mut m);
    assert_eq!(m.instruction_result, InstructionResult::OutOfGas);
    assert_eq!(m.gas.remaining(), 5);
    let mut m = machine(&[0x37], &[1, 2, 3], 8);
    operands(&mut m, &[Word::zero(), Word::zero(), Word::from_u64(1)]);
    calldatacopy(&mut m);
    assert_eq!(m.instruction_result, InstructionResult::OutOfGas);
    assert_eq!(m.gas.remaining(), 2);
    assert_eq!(m.shared_memory.len(), 0);
    let mut m = machine(&[0x37], &[1, 2, 3], 8);
    operands(&mut m, &[Word::zero(), Word::zero()]);
    calldatacopy(&mut m);
    assert_eq!(m.instruction_result, InstructionResult::StackUnderflow);
}

#[test]
fn codecopy_reads_the_code_without_its_padding() {
    let code = [0x39, 0x60, 0x01, 0x5b];
    let mut m = machine(&code, &[], 100);
    operands(&mut m, &[Word::from_u64(2), Word::from_u64(1), Word::from_u64(5)]);
    codecopy(&mut m);
    assert_eq!(m.instruction_result, InstructionResult::Continue);
    assert_eq!(m.shared_memory.len(), 32);
    assert_eq!(m.shared_memory.slice(0, 8), &[0, 0, 0x60, 0x01, 0x5b, 0, 0, 0][..]);
    assert_eq!(m.gas.remaining(), 100 - 6 - 3);
}

#[test]
fn memory_growth_costs_the_difference_of_the_totals() {
    for (words, cost) in [(1usize, 3u64), (22, 66), (23, 70), (32, 98), (1024, 5120)] {
        let mut m = machine(&[], &[], 10_000);
        assert!(m.resize_memory(0, words * 32));
        assert_eq!(m.shared_memory.len(), words * 32);
        assert_eq!(m.gas.spent(), cost);
        assert!(m.resize_memory(0, words * 32));
        assert!(m.resize_memory(words * 32 - 1, 1));
        assert_eq!(m.gas.spent(), cost);
        assert_eq!(m.shared_memory.len(), words * 32);
    }
    let mut m = machine(&[], &[], 10_000);
    assert!(m.resize_memory(0, 1));
    assert_eq!(m.gas.spent(), 3);
    assert!(m.resize_memory(31, 2));
    assert_eq!(m.shared_memory.len(), 64);
    assert_eq!(m.gas.spent(), 6);
    assert!(m.resize_memory(0, 32 * 1024));
    assert_eq!(m.gas.spent(), 5120);
}

#[test]
fn memory_growth_fails_cleanly() {
    let mut m = machine(&[], &[], 97);
    assert!(!m.resize_memory(0, 32 * 32));
    assert_eq!(m.instruction_result, InstructionResult::OutOfGas);
    assert_eq!(m.gas.remaining(), 97);
    assert_eq!(m.shared_memory.len(), 0);
    let mut m = machine(&[], &[], 97);
    assert!(!m.resize_memory(usize::MAX, 1));
    assert_eq!(m.instruction_result, InstructionResult::OutOfOffset);
    let mut m = machine(&[], &[], 97);
    assert!(!m.resize_memory(usize::MAX - 5, 2));
    assert_eq!(m.instruction_result, InstructionResult::OutOfOffset);
    let mut m = machine(&[], &[], 97);
    assert!(!m.resize_memory(usize::MAX - 40, 2));
    assert_eq!(m.instruction_result, InstructionResult::OutOfGas);
    let mut m = machine(&[], &[], 0);
    assert!(m.resize_memory(0, 0));
    assert_eq!(m.instruction_result, InstructionResult::Continue);
    assert_eq!(m.shared_memory.len(), 0);
}

#[test]
fn returndata_is_not_activated_before_byzantium() {
    let mut m = machine(&[], &[], 10);
    m.return_data_buffer = vec![1, 2, 3];
    returndatasize::<HomesteadSpec>(&mut m);
    assert_eq!(m.instruction_result, InstructionResult::NotActivated);
    let mut m = machine(&[], &[], 10);
    operands(&mut m, &[Word::zero(), Word::zero(), Word::zero()]);
    returndatacopy::<FrontierSpec>(&mut m);
    assert_eq!(m.instruction_result, InstructionResult::NotActivated);
    assert_eq!(m.stack.len(), 3);
    assert_eq!(m.gas.remaining(), 10);
}

#[test]
fn returndatasize_pushes_the_length() {
    let mut m = machine(&[], &[], 10);
    m.return_data_buffer = vec![1, 2, 3];
    returndatasize::<ByzantiumSpec>(&mut m);
    assert_eq!(top(&m), Word::from_u64(3));
    assert_eq!(m.gas.remaining(), 8);
}

#[test]
fn returndatacopy_copies_a_range_within_the_return_data() {
    let mut m = machine(&[], &[], 100);
    m.return_data_buffer = vec![1, 2, 3, 4, 5];
    operands(&mut m, &[Word::from_u64(2), Word::from_u64(1), Word::from_u64(4)]);
    returndatacopy::<ByzantiumSpec>(&mut m);
    assert_eq!(m.instruction_result, InstructionResult::Continue);
    assert_eq!(m.shared_memory.slice(0, 8), &[0, 0, 2, 3, 4, 5, 0, 0][..]);
    assert_eq!(m.gas.remaining(), 100 - 6 - 3);
    operands(&mut m, &[huge(), Word::from_u64(5), Word::zero()]);
    returndatacopy::<ShanghaiSpec>(&mut m);
    assert_eq!(m.instruction_result, InstructionResult::Continue);
    assert_eq!(m.gas.remaining(), 100 - 6 - 3 - 3);
}

#[test]
fn returndatacopy_beyond_the_return_data_is_out_of_offset() {
    let cases = [
        (Word::from_u64(2), Word::from_u64(4)),
        (Word::from_u64(6), Word::zero()),
        (huge(), Word::from_u64(1)),
        (huge(), Word::zero()),
        (Word::from_usize(usize::MAX), Word::from_u64(2)),
    ];
    for (offset, len) in cases {
        let mut m = machine(&[], &[], 100);
        m.return_data_buffer = vec![1, 2, 3, 4, 5];
        operands(&mut m, &[Word::zero(), offset, len]);
        returndatacopy::<ByzantiumSpec>(&mut m);
        assert_eq!(m.instruction_result, InstructionResult::OutOfOffset);
        assert_eq!(m.shared_memory.len(), 0);
    }
}

#[test]
fn charge_halts_the_machine_when_gas_is_short() {
    let mut m = machine(&[], &[], 5);
    assert!(m.charge(5));
    assert_eq!(m.gas.remaining(), 0);
    assert_eq!(m.instruction_result, InstructionResult::Continue);
    assert!(!m.charge(1));
    assert_eq!(m.instruction_result, InstructionResult::OutOfGas);
    assert_eq!(m.gas.remaining(), 0);
}

#[test]
fn operands_come_off_the_stack_top_first() {
    let mut m = machine(&[], &[], 5);
    operands(&mut m, &[Word::from_u64(1), Word::from_u64(2), Word::from_u64(3)]);
    assert_eq!(m.pop3(), Some((Word::from_u64(1), Word::from_u64(2), Word::from_u64(3))));
    operands(&mut m, &[Word::from_u64(1), Word::from_u64(2), Word::from_u64(3)]);
    assert_eq!(m.pop2(), Some((Word::from_u64(1), Word::from_u64(2))));
    assert_eq!(m.pop2(), None);
    assert_eq!(m.instruction_result, InstructionResult::StackUnderflow);
    assert_eq!(m.stack.len(), 1);
    assert_eq!(m.pop1(), Some(Word::from_u64(3)));
    assert_eq!(m.pop1(), None);
    assert_eq!(m.pop3(), None);
}

#[test]
fn a_word_beyond_the_addressable_range_halts_with_the_given_reason() {
    let mut m = machine(&[], &[], 5);
    assert_eq!(m.as_usize_or_fail(Word::from_u64(9), InstructionResult::InvalidJump), Some(9));
    assert_eq!(m.instruction_result, InstructionResult::Continue);
    assert_eq!(m.as_usize_or_fail(huge(), InstructionResult::InvalidJump), None);
    assert_eq!(m.instruction_result, InstructionResult::InvalidJump);
}

#[test]
fn check_halts_the_machine_before_the_required_version() {
    let mut m = machine(&[], &[], 5);
    assert!(m.check(SpecId::London, SpecId::Byzantium));
    assert_eq!(m.instruction_result, InstructionResult::Continue);
    assert!(!m.check(SpecId::London, SpecId::Shanghai));
    assert_eq!(m.instruction_result, InstructionResult::NotActivated);
}
