use evm_interpreter::gas::{
    keccak256_cost, memory_gas, num_words, verylowcopy_cost, Gas, BASE, HIGH, JUMPDEST, MID,
    VERYLOW,
};
use evm_interpreter::interpreter::bytecode::Bytecode;
use evm_interpreter::interpreter::instruction_result::InstructionResult;
use evm_interpreter::interpreter::shared_memory::SharedMemory;
use evm_interpreter::interpreter::stack::{Stack, STACK_LIMIT};
use evm_interpreter::primitives::Word;

#[test]
fn gas_tiers() {
    assert_eq!(JUMPDEST, 1);
    assert_eq!(BASE, 2);
    assert_eq!(VERYLOW, 3);
    assert_eq!(MID, 8);
    assert_eq!(HIGH, 10);
}

#[test]
fn words_round_up() {
    assert_eq!(num_words(0), 0);
    assert_eq!(num_words(1), 1);
    assert_eq!(num_words(32), 1);
    assert_eq!(num_words(33), 2);
    assert_eq!(num_words(u64::MAX), 1 << 59);
}

#[test]
fn memory_gas_is_linear_plus_quadratic() {
    assert_eq!(memory_gas(0), 0);
    assert_eq!(memory_gas(1), 3);
    assert_eq!(memory_gas(22), 66);
    assert_eq!(memory_gas(23), 70);
    assert_eq!(memory_gas(32), 98);
    assert_eq!(memory_gas(1024), 5120);
    let n = usize::MAX as u128;
    assert_eq!(memory_gas(usize::MAX), 3 * n + n * n / 512);
}

#[test]
fn hashing_and_copying_cost_per_word() {
    assert_eq!(keccak256_cost(0), 30);
    assert_eq!(keccak256_cost(1), 36);
    assert_eq!(keccak256_cost(32), 36);
    assert_eq!(keccak256_cost(33), 42);
    assert_eq!(verylowcopy_cost(0), 3);
    assert_eq!(verylowcopy_cost(1), 6);
    assert_eq!(verylowcopy_cost(64), 9);
    assert_eq!(verylowcopy_cost(65), 12);
}

#[test]
fn gas_charge_that_fits_is_subtracted() {
    let mut gas = Gas::new(10);
    assert_eq!(gas.limit(), 10);
    assert!(gas.record_cost(4));
    assert_eq!(gas.remaining(), 6);
    assert_eq!(gas.spent(), 4);
    assert!(gas.record_cost(6));
    assert_eq!(gas.remaining(), 0);
    assert_eq!(gas.refunded(), 0);
}

#[test]
fn gas_charge_beyond_what_is_left_charges_nothing() {
    let mut gas = Gas::new(10);
    assert!(!gas.record_cost(11));
    assert_eq!(gas.remaining(), 10);
    assert!(gas.record_cost(10));
    assert!(!gas.record_cost(1));
    assert_eq!(gas.remaining(), 0);
}

#[test]
fn stack_length_is_the_number_of_pushes_up_to_the_limit() {
    let mut stack = Stack::new();
    assert!(stack.is_empty());
    for count in 1..=STACK_LIMIT {
        assert_eq!(stack.push(Word::from_usize(count)), Ok(()));
        assert_eq!(stack.len(), count);
    }
    assert_eq!(stack.len(), 1024);
    assert_eq!(stack.push(Word::from_u64(1025)), Err(InstructionResult::StackOverflow));
    assert_eq!(stack.len(), 1024);
    assert_eq!(stack.peek(0), Ok(Word::from_u64(1024)));
}

#[test]
fn stack_pop_on_empty_underflows_and_changes_nothing() {
    let mut stack = Stack::new();
    assert_eq!(stack.pop(), Err(InstructionResult::StackUnderflow));
    assert_eq!(stack.len(), 0);
    assert_eq!(stack.push(Word::from_u64(5)), Ok(()));
    assert_eq!(stack.pop(), Ok(Word::from_u64(5)));
    assert_eq!(stack.pop(), Err(InstructionResult::StackUnderflow));
    assert!(stack.is_empty());
}

#[test]
fn stack_peek_counts_from_the_top() {
    let mut stack = Stack::new();
    for v in [10u64, 20, 30] {
        stack.push(Word::from_u64(v)).unwrap();
    }
    assert_eq!(stack.peek(0), Ok(Word::from_u64(30)));
    assert_eq!(stack.peek(2), Ok(Word::from_u64(10)));
    assert_eq!(stack.peek(3), Err(InstructionResult::StackUnderflow));
}

#[test]
fn stack_dup_copies_the_nth_from_the_top() {
    let mut stack = Stack::new();
    for v in [10u64, 20, 30] {
        stack.push(Word::from_u64(v)).unwrap();
    }
    assert_eq!(stack.dup(3), Ok(()));
    assert_eq!(stack.len(), 4);
    assert_eq!(stack.peek(0), Ok(Word::from_u64(10)));
    assert_eq!(stack.peek(1), Ok(Word::from_u64(30)));
    assert_eq!(stack.dup(1), Ok(()));
    assert_eq!(stack.peek(0), Ok(Word::from_u64(10)));
    assert_eq!(stack.len(), 5);
}

#[test]
fn stack_dup_fails_on_too_few_words_or_a_full_stack() {
    let mut stack = Stack::new();
    stack.push(Word::from_u64(1)).unwrap();
    assert_eq!(stack.dup(2), Err(InstructionResult::StackUnderflow));
    assert_eq!(stack.len(), 1);
    while stack.len() < STACK_LIMIT {
        stack.push(Word::zero()).unwrap();
    }
    assert_eq!(stack.dup(1), Err(InstructionResult::StackOverflow));
    assert_eq!(stack.len(), STACK_LIMIT);
}

#[test]
fn stack_swap_exchanges_with_the_word_n_below_the_top() {
    let mut stack = Stack::new();
    for v in [10u64, 20, 30] {
        stack.push(Word::from_u64(v)).unwrap();
    }
    assert_eq!(stack.swap(2), Ok(()));
    assert_eq!(stack.peek(0), Ok(Word::from_u64(10)));
    assert_eq!(stack.peek(1), Ok(Word::from_u64(20)));
    assert_eq!(stack.peek(2), Ok(Word::from_u64(30)));
    assert_eq!(stack.swap(3), Err(InstructionResult::StackUnderflow));
    assert_eq!(stack.peek(0), Ok(Word::from_u64(10)));
    assert_eq!(stack.len(), 3);
}

#[test]
fn stack_push_slice_zero_extends() {
    let mut stack = Stack::new();
    assert_eq!(stack.push_slice(&[0x12, 0x34]), Ok(()));
    assert_eq!(stack.peek(0), Ok(Word::from_u64(0x1234)));
    while stack.len() < STACK_LIMIT {
        stack.push(Word::zero()).unwrap();
    }
    assert_eq!(stack.push_slice(&[1]), Err(InstructionResult::StackOverflow));
}

#[test]
fn memory_grows_with_zero_bytes_and_never_shrinks() {
    let mut memory = SharedMemory::new();
    assert_eq!(memory.len(), 0);
    memory.resize(64);
    assert_eq!(memory.len(), 64);
    assert_eq!(memory.slice(0, 64), &[0u8; 64][..]);
    memory.set(30, &[1, 2, 3, 4]);
    memory.resize(32);
    assert_eq!(memory.len(), 64);
    memory.resize(96);
    assert_eq!(memory.len(), 96);
    assert_eq!(memory.slice(29, 6), &[0, 1, 2, 3, 4, 0][..]);
    assert_eq!(memory.slice(64, 32), &[0u8; 32][..]);
}

#[test]
fn memory_zero_length_access_ignores_the_offset() {
    let mut memory = SharedMemory::new();
    memory.resize(32);
    assert_eq!(memory.slice(usize::MAX, 0), &[0u8; 0][..]);
    memory.set(usize::MAX, &[]);
    memory.set_data(usize::MAX, usize::MAX, 0, &[1, 2, 3]);
    assert_eq!(memory.slice(0, 32), &[0u8; 32][..]);
}

#[test]
fn memory_set_data_pads_with_zero_bytes_beyond_the_data() {
    let mut memory = SharedMemory::new();
    memory.resize(32);
    memory.set(0, &[0xff; 32]);
    memory.set_data(4, 2, 6, &[1, 2, 3, 4, 5]);
    assert_eq!(memory.slice(0, 12), &[0xff, 0xff, 0xff, 0xff, 3, 4, 5, 0, 0, 0, 0xff, 0xff][..]);
    memory.set_data(0, 9, 2, &[1, 2, 3, 4, 5]);
    assert_eq!(memory.slice(0, 3), &[0, 0, 0xff][..]);
    memory.set_data(20, usize::MAX, 2, &[1, 2, 3, 4, 5]);
    assert_eq!(memory.slice(19, 4), &[0xff, 0, 0, 0xff][..]);
}

#[test]
fn bytecode_marks_jumpdest_instructions_only() {
    // PUSH1 0x5b, JUMPDEST, PUSH2 0x5b 0x5b, JUMPDEST, STOP
    let code = vec![0x60, 0x5b, 0x5b, 0x61, 0x5b, 0x5b, 0x5b, 0x00];
    let bytecode = Bytecode::new(code.clone());
    assert_eq!(bytecode.len(), 8);
    assert_eq!(bytecode.original_bytecode_slice(), &code[..]);
    let valid: Vec<usize> = (0..10).filter(|&i| bytecode.is_valid_jump(i)).collect();
    assert_eq!(valid, vec![2, 6]);
    assert!(!bytecode.is_valid_jump(usize::MAX));
}

#[test]
fn bytecode_push_at_the_end_reads_padding() {
    // JUMPDEST, PUSH32 with only one immediate byte in the code
    let bytecode = Bytecode::new(vec![0x5b, 0x7f, 0x5b]);
    assert!(bytecode.is_valid_jump(0));
    assert!(!bytecode.is_valid_jump(2));
    assert_eq!(bytecode.byte(2), 0x5b);
    assert_eq!(bytecode.byte(3), 0);
    assert_eq!(bytecode.byte(34), 0);
    let mut expected = vec![0x5b];
    expected.extend_from_slice(&[0u8; 31]);
    assert_eq!(bytecode.immediate(2, 32), &expected[..]);
}

#[test]
fn bytecode_of_no_code() {
    let bytecode = Bytecode::new(Vec::new());
    assert_eq!(bytecode.len(), 0);
    assert!(!bytecode.is_valid_jump(0));
    assert_eq!(bytecode.immediate(0, 32), &[0u8; 32][..]);
}
