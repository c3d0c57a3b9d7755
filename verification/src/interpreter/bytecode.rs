//! The code of a frame and its jump destinations.

use crate::instructions::opcode::{JUMPDEST, PUSH1, PUSH32};
use vstd::prelude::*;
use vstd::slice::slice_subrange;

verus! {

/// The number of zero bytes kept behind the code, so that the immediate
/// bytes of a push at its very end can be read.
pub const PADDING: usize = 32;

/// The number of immediate bytes that follow the instruction byte `op`.
pub open spec fn immediate_len(op: u8) -> int {
    if PUSH1 <= op <= PUSH32 {
        op - PUSH1 + 1
    } else {
        0
    }
}

/// Where the instruction after the one at `pc` starts.
pub open spec fn next_instruction(code: Seq<u8>, pc: int) -> int {
    pc + 1 + immediate_len(code[pc])
}

/// Whether reading instruction after instruction from `from` on, an
/// instruction starts at `target`.
pub open spec fn reaches(code: Seq<u8>, from: int, target: int) -> bool
    decreases target - from,
{
    if from == target {
        true
    } else if from < 0 || from > target || from >= code.len() {
        false
    } else if next_instruction(code, from) > target {
        false
    } else {
        reaches(code, next_instruction(code, from), target)
    }
}

/// Whether an instruction of `code` starts at `offset`: the byte there is
/// not among the immediate bytes of a push.
pub open spec fn is_instruction_start(code: Seq<u8>, offset: int) -> bool {
    0 <= offset < code.len() && reaches(code, 0, offset)
}

/// Whether `offset` is a jump destination of `code`: a `JUMPDEST`
/// instruction starts there.
pub open spec fn is_jump_dest(code: Seq<u8>, offset: int) -> bool {
    is_instruction_start(code, offset) && code[offset] == JUMPDEST
}

/// The byte of `code` at `offset`, and zero beyond its end.
pub open spec fn code_byte(code: Seq<u8>, offset: int) -> u8 {
    if 0 <= offset < code.len() {
        code[offset]
    } else {
        0
    }
}

/// The `len` bytes that follow `offset` in `code`, with zero bytes for what
/// lies beyond the end of the code.
pub open spec fn immediate_bytes(code: Seq<u8>, offset: int, len: nat) -> Seq<u8> {
    Seq::new(len, |i: int| code_byte(code, offset + i))
}

/// Once the reading has come to `through`, what follows does not depend on
/// where it began.
pub proof fn lemma_reaches_through(code: Seq<u8>, from: int, through: int, target: int)
    requires
        0 <= from,
        reaches(code, from, through),
        through <= target,
    ensures
        reaches(code, from, target) == reaches(code, through, target),
    decreases through - from,
{
    if from != through {
        lemma_reaches_through(code, next_instruction(code, from), through, target);
    }
}

/// No instruction starts among the immediate bytes of an instruction.
pub proof fn lemma_immediate_is_no_start(code: Seq<u8>, start: int, offset: int)
    requires
        is_instruction_start(code, start),
        start < offset < next_instruction(code, start),
    ensures
        !is_instruction_start(code, offset),
{
    lemma_reaches_through(code, 0, start, offset);
}

/// No byte among the immediate bytes of an instruction is a jump
/// destination, whatever the byte is.
pub proof fn lemma_immediate_is_no_jump_dest(code: Seq<u8>, start: int, offset: int)
    requires
        is_instruction_start(code, start),
        start < offset < next_instruction(code, start),
    ensures
        !is_jump_dest(code, offset),
{
    lemma_immediate_is_no_start(code, start, offset);
}

/// The instruction after an instruction is an instruction.
pub proof fn lemma_next_is_start(code: Seq<u8>, start: int)
    requires
        is_instruction_start(code, start),
    ensures
        reaches(code, 0, next_instruction(code, start)),
{
    lemma_reaches_through(code, 0, start, next_instruction(code, start));
    assert(reaches(code, next_instruction(code, start), next_instruction(code, start)));
}

/// Code, with its jump destinations marked once and for all.
#[derive(Debug)]
pub struct Bytecode {
    /// The code, followed by `PADDING` zero bytes.
    bytes: Vec<u8>,
    /// The length of the code itself.
    len: usize,
    /// For each offset of the code, whether it is a jump destination.
    jump_map: Vec<bool>,
}

impl View for Bytecode {
    type V = Seq<u8>;

    /// The code itself, without the padding.
    closed spec fn view(&self) -> Seq<u8> {
        self.bytes@.subrange(0, self.len as int)
    }
}

impl Bytecode {
    /// The padding is in place and the marks are those of the code.
    pub closed spec fn wf(&self) -> bool {
        &&& self.bytes@.len() == self.len + PADDING
        &&& forall|i: int| self.len <= i < self.len + PADDING ==> self.bytes@[i] == 0
        &&& self.jump_map@.len() == self.len
        &&& forall|i: int| 0 <= i < self.len ==> self.jump_map@[i] == is_jump_dest(self@, i)
    }

    /// Code and padding together fit the addressable range.
    pub proof fn lemma_len_bound(&self)
        requires
            self.wf(),
        ensures
            self@.len() + PADDING <= usize::MAX,
    {
        assert(self.bytes@.len() == self.bytes.len());
    }

    /// Marks the jump destinations of `code`.
    pub fn new(code: Vec<u8>) -> (bytecode: Bytecode)
        requires
            code@.len() + PADDING <= usize::MAX,
        ensures
            bytecode.wf(),
            bytecode@ == code@,
    {
        let len: usize = code.len();
        let mut jump_map: Vec<bool> = Vec::new();
        let mut next: usize = 0;
        let mut i: usize = 0;
        while i < len
            invariant
                len == code@.len(),
                len + PADDING <= usize::MAX,
                i <= len,
                i <= next <= len + PADDING,
                reaches(code@, 0, next as int),
                forall|j: int| i <= j < next ==> !is_instruction_start(code@, j),
                jump_map@.len() == i,
                forall|j: int| 0 <= j < i ==> jump_map@[j] == is_jump_dest(code@, j),
            decreases len - i,
        {
            if i == next {
                let op: u8 = code[i];
                proof {
                    lemma_next_is_start(code@, i as int);
                    assert forall|j: int| i < j < next_instruction(code@, i as int) implies
                        !is_instruction_start(code@, j) by {
                        lemma_immediate_is_no_start(code@, i as int, j);
                    }
                }
                jump_map.push(op == JUMPDEST);
                if PUSH1 <= op && op <= PUSH32 {
                    next = i + 2 + (op - PUSH1) as usize;
                } else {
                    next = i + 1;
                }
            } else {
                jump_map.push(false);
            }
            i = i + 1;
        }
        let mut bytes: Vec<u8> = code;
        let mut k: usize = 0;
        while k < PADDING
            invariant
                k <= PADDING,
                len + PADDING <= usize::MAX,
                bytes@.len() == len + k,
                bytes@.subrange(0, len as int) == code@,
                forall|j: int| len <= j < len + k ==> bytes@[j] == 0,
            decreases PADDING - k,
        {
            bytes.push(0u8);
            assert(bytes@.subrange(0, len as int) =~= code@);
            k = k + 1;
        }
        assert(bytes@.subrange(0, len as int) =~= code@);
        Bytecode { bytes, len, jump_map }
    }

    /// The length of the code.
    pub fn len(&self) -> (n: usize)
        requires
            self.wf(),
        ensures
            n == self@.len(),
            n + PADDING <= usize::MAX,
    {
        proof {
            self.lemma_len_bound();
        }
        self.len
    }

    /// Whether `offset` is a jump destination.
    pub fn is_valid_jump(&self, offset: usize) -> (valid: bool)
        requires
            self.wf(),
        ensures
            valid == is_jump_dest(self@, offset as int),
    {
        offset < self.len && self.jump_map[offset]
    }

    /// The code itself, without the padding.
    pub fn original_bytecode_slice(&self) -> (code: &[u8])
        requires
            self.wf(),
        ensures
            code@ == self@,
    {
        slice_subrange(self.bytes.as_slice(), 0, self.len)
    }

    /// The byte at `offset`, which may lie in the padding.
    pub fn byte(&self, offset: usize) -> (byte: u8)
        requires
            self.wf(),
            offset < self@.len() + PADDING,
        ensures
            byte == code_byte(self@, offset as int),
    {
        self.bytes[offset]
    }

    /// The `len` bytes from `offset` on, which may reach into the padding.
    pub fn immediate(&self, offset: usize, len: usize) -> (bytes: &[u8])
        requires
            self.wf(),
            offset + len <= self@.len() + PADDING,
        ensures
            bytes@ == immediate_bytes(self@, offset as int, len as nat),
    {
        proof {
            self.lemma_len_bound();
        }
        let bytes = slice_subrange(self.bytes.as_slice(), offset, offset + len);
        assert(bytes@ =~= immediate_bytes(self@, offset as int, len as nat));
        bytes
    }
}

} // verus!
