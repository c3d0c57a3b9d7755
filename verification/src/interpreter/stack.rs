//! The operand stack.

use crate::interpreter::instruction_result::InstructionResult;
use crate::primitives::{pad_left, word_of_bytes, Word};
use vstd::prelude::*;

verus! {

/// The most words that a stack holds.
pub const STACK_LIMIT: usize = 1024;

/// The stack `s` with the `n`-th word from the top, counted from 1, put on
/// top once more.
pub open spec fn duplicated(s: Seq<Word>, n: int) -> Seq<Word>
    recommends
        1 <= n <= s.len(),
{
    s.push(s[s.len() - n])
}

/// The stack `s` with the top word and the word `n` places below it
/// exchanged.
pub open spec fn swapped(s: Seq<Word>, n: int) -> Seq<Word>
    recommends
        0 <= n < s.len(),
{
    s.update(s.len() - 1, s[s.len() - 1 - n]).update(s.len() - 1 - n, s[s.len() - 1])
}

/// The stack that pushing the words of `words`, first to last, onto `s`
/// leaves, where all of them fit; `None` where one of them finds the stack
/// full.
pub open spec fn pushed_all(s: Seq<Word>, words: Seq<Word>) -> Option<Seq<Word>>
    decreases words.len(),
{
    if words.len() == 0 {
        Some(s)
    } else if s.len() >= STACK_LIMIT {
        None
    } else {
        pushed_all(s.push(words[0]), words.subrange(1, words.len() as int))
    }
}

/// A stack of up to 1024 words. The top of the stack is the last word of
/// its view.
#[derive(Debug)]
pub struct Stack {
    data: Vec<Word>,
}

impl View for Stack {
    type V = Seq<Word>;

    closed spec fn view(&self) -> Seq<Word> {
        self.data@
    }
}

impl Stack {
    /// The stack holds no more words than its limit.
    pub open spec fn wf(&self) -> bool {
        self@.len() <= STACK_LIMIT
    }

    /// An empty stack.
    pub fn new() -> (stack: Stack)
        ensures
            stack.wf(),
            stack@ == Seq::<Word>::empty(),
    {
        Stack { data: Vec::new() }
    }

    /// The number of words on the stack.
    pub fn len(&self) -> (n: usize)
        ensures
            n == self@.len(),
    {
        self.data.len()
    }

    /// Whether the stack holds no word.
    pub fn is_empty(&self) -> (b: bool)
        ensures
            b == (self@.len() == 0),
    {
        self.data.len() == 0
    }

    /// The word `n` places below the top; `peek(0)` is the top.
    pub fn peek(&self, n: usize) -> (r: Result<Word, InstructionResult>)
        ensures
            n < self@.len() ==> r == Ok::<Word, InstructionResult>(self@[self@.len() - 1 - n]),
            n >= self@.len() ==> r == Err::<Word, InstructionResult>(
                InstructionResult::StackUnderflow,
            ),
    {
        let len: usize = self.data.len();
        if n >= len {
            Err(InstructionResult::StackUnderflow)
        } else {
            Ok(self.data[len - 1 - n])
        }
    }

    /// Puts `word` on top. A full stack is left as it is.
    pub fn push(&mut self, word: Word) -> (r: Result<(), InstructionResult>)
        requires
            old(self).wf(),
        ensures
            final(self).wf(),
            old(self)@.len() < STACK_LIMIT ==> r == Ok::<(), InstructionResult>(())
                && final(self)@ == old(self)@.push(word),
            old(self)@.len() >= STACK_LIMIT ==> r == Err::<(), InstructionResult>(
                InstructionResult::StackOverflow,
            ) && final(self)@ == old(self)@,
    {
        if self.data.len() >= STACK_LIMIT {
            Err(InstructionResult::StackOverflow)
        } else {
            self.data.push(word);
            Ok(())
        }
    }

    /// Takes the top word off. An empty stack is left as it is.
    pub fn pop(&mut self) -> (r: Result<Word, InstructionResult>)
        requires
            old(self).wf(),
        ensures
            final(self).wf(),
            old(self)@.len() > 0 ==> r == Ok::<Word, InstructionResult>(old(self)@.last())
                && final(self)@ == old(self)@.drop_last(),
            old(self)@.len() == 0 ==> r == Err::<Word, InstructionResult>(
                InstructionResult::StackUnderflow,
            ) && final(self)@ == old(self)@,
    {
        match self.data.pop() {
            Some(word) => Ok(word),
            None => Err(InstructionResult::StackUnderflow),
        }
    }

    /// Puts the `n`-th word from the top, counted from 1, on top once more.
    /// With fewer than `n` words, or with a full stack, the stack is left as
    /// it is.
    pub fn dup(&mut self, n: usize) -> (r: Result<(), InstructionResult>)
        requires
            old(self).wf(),
            n >= 1,
        ensures
            final(self).wf(),
            old(self)@.len() < n ==> r == Err::<(), InstructionResult>(
                InstructionResult::StackUnderflow,
            ) && final(self)@ == old(self)@,
            n <= old(self)@.len() && old(self)@.len() >= STACK_LIMIT ==> r == Err::<
                (),
                InstructionResult,
            >(InstructionResult::StackOverflow) && final(self)@ == old(self)@,
            n <= old(self)@.len() < STACK_LIMIT ==> r == Ok::<(), InstructionResult>(())
                && final(self)@ == duplicated(old(self)@, n as int),
    {
        let len: usize = self.data.len();
        if len < n {
            Err(InstructionResult::StackUnderflow)
        } else if len >= STACK_LIMIT {
            Err(InstructionResult::StackOverflow)
        } else {
            let word: Word = self.data[len - n];
            self.data.push(word);
            Ok(())
        }
    }

    /// Exchanges the top word and the word `n` places below it. With fewer
    /// than `n + 1` words the stack is left as it is.
    pub fn swap(&mut self, n: usize) -> (r: Result<(), InstructionResult>)
        requires
            old(self).wf(),
        ensures
            final(self).wf(),
            old(self)@.len() <= n ==> r == Err::<(), InstructionResult>(
                InstructionResult::StackUnderflow,
            ) && final(self)@ == old(self)@,
            n < old(self)@.len() ==> r == Ok::<(), InstructionResult>(()) && final(self)@
                == swapped(old(self)@, n as int),
    {
        let len: usize = self.data.len();
        if len <= n {
            Err(InstructionResult::StackUnderflow)
        } else {
            let top: Word = self.data[len - 1];
            let other: Word = self.data[len - 1 - n];
            self.data.set(len - 1, other);
            self.data.set(len - 1 - n, top);
            Ok(())
        }
    }

    /// Puts on top the word whose low-order bytes are `bytes`. A full stack
    /// is left as it is.
    pub fn push_slice(&mut self, bytes: &[u8]) -> (r: Result<(), InstructionResult>)
        requires
            old(self).wf(),
            bytes@.len() <= 32,
        ensures
            final(self).wf(),
            old(self)@.len() < STACK_LIMIT ==> r == Ok::<(), InstructionResult>(())
                && final(self)@ == old(self)@.push(word_of_bytes(pad_left(bytes@))),
            old(self)@.len() >= STACK_LIMIT ==> r == Err::<(), InstructionResult>(
                InstructionResult::StackOverflow,
            ) && final(self)@ == old(self)@,
    {
        if self.data.len() >= STACK_LIMIT {
            Err(InstructionResult::StackOverflow)
        } else {
            self.data.push(Word::from_be_slice(bytes));
            Ok(())
        }
    }
}

/// Pushing up to 1024 words onto an empty stack keeps all of them, in order:
/// the stack is then as long as the number of pushes.
pub proof fn lemma_pushes_within_limit(s: Seq<Word>, words: Seq<Word>)
    requires
        s.len() + words.len() <= STACK_LIMIT,
    ensures
        pushed_all(s, words) == Some(s + words),
    decreases words.len(),
{
    if words.len() == 0 {
        assert(s + words =~= s);
    } else {
        let rest: Seq<Word> = words.subrange(1, words.len() as int);
        lemma_pushes_within_limit(s.push(words[0]), rest);
        assert(s.push(words[0]) + rest =~= s + words);
    }
}

/// Of more pushes than the stack has room for, one fails: the push that
/// finds 1024 words on the stack.
pub proof fn lemma_pushes_beyond_limit(s: Seq<Word>, words: Seq<Word>)
    requires
        s.len() <= STACK_LIMIT,
        s.len() + words.len() > STACK_LIMIT,
    ensures
        pushed_all(s, words) is None,
    decreases words.len(),
{
    if s.len() < STACK_LIMIT {
        lemma_pushes_beyond_limit(s.push(words[0]), words.subrange(1, words.len() as int));
    }
}

} // verus!
