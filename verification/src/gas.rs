//! The gas meter and the cost of each kind of work.

use vstd::prelude::*;

verus! {

/// The cost of an instruction that is free.
pub const ZERO: u64 = 0;

/// The cost of a jump destination.
pub const JUMPDEST: u64 = 1;

/// The cost of the cheapest instructions, which read a value of the frame.
pub const BASE: u64 = 2;

/// The cost of the instructions that move a word.
pub const VERYLOW: u64 = 3;

/// The cost tier above `VERYLOW`.
pub const LOW: u64 = 5;

/// The cost of a jump.
pub const MID: u64 = 8;

/// The cost of a conditional jump.
pub const HIGH: u64 = 10;

/// The fixed part of the cost of hashing.
pub const KECCAK256: u64 = 30;

/// The cost of hashing one 32-byte word.
pub const KECCAK256WORD: u64 = 6;

/// The cost of copying one 32-byte word.
pub const COPY: u64 = 3;

/// The linear part of the cost of one 32-byte word of memory.
pub const MEMORY: u64 = 3;

/// The number of 32-byte words that cover `len` bytes.
pub open spec fn words_for(len: nat) -> nat {
    (len + 31) / 32
}

/// The total cost of a memory of `words` 32-byte words.
pub open spec fn memory_cost(words: nat) -> nat {
    3 * words + words * words / 512
}

/// The cost of hashing `len` bytes.
pub open spec fn hashing_cost(len: nat) -> nat {
    30 + 6 * words_for(len)
}

/// The cost of copying `len` bytes.
pub open spec fn copying_cost(len: nat) -> nat {
    3 + 3 * words_for(len)
}

/// The number of 32-byte words that cover `len` bytes.
pub fn num_words(len: u64) -> (words: u64)
    ensures
        words == words_for(len as nat),
{
    if len % 32 == 0 {
        len / 32
    } else {
        len / 32 + 1
    }
}

/// The total cost of a memory of `words` 32-byte words.
pub fn memory_gas(words: usize) -> (cost: u128)
    ensures
        cost == memory_cost(words as nat),
{
    let w: u128 = words as u128;
    assert(w * w <= 0xffff_ffff_ffff_ffff * 0xffff_ffff_ffff_ffff) by (nonlinear_arith)
        requires
            0 <= w <= 0xffff_ffff_ffff_ffff,
    ;
    assert((MEMORY as u128) * w == 3 * w);
    (MEMORY as u128) * w + w * w / 512
}

/// The cost of hashing `len` bytes.
pub fn keccak256_cost(len: u64) -> (cost: u64)
    ensures
        cost == hashing_cost(len as nat),
{
    KECCAK256 + KECCAK256WORD * num_words(len)
}

/// The cost of copying `len` bytes.
pub fn verylowcopy_cost(len: u64) -> (cost: u64)
    ensures
        cost == copying_cost(len as nat),
{
    VERYLOW + COPY * num_words(len)
}

/// What a gas meter holds.
pub struct GasView {
    pub limit: nat,
    pub remaining: nat,
    pub refunded: int,
}

/// The gas meter of one frame.
#[derive(Clone, Copy, Debug, PartialEq, Eq)]
pub struct Gas {
    limit: u64,
    remaining: u64,
    refunded: i64,
}

impl View for Gas {
    type V = GasView;

    closed spec fn view(&self) -> GasView {
        GasView {
            limit: self.limit as nat,
            remaining: self.remaining as nat,
            refunded: self.refunded as int,
        }
    }
}

impl Gas {
    /// No more gas is left than the frame was given.
    pub open spec fn wf(&self) -> bool {
        &&& self@.remaining <= self@.limit
        &&& self@.limit <= u64::MAX
    }

    /// A meter with `limit` gas, none of it spent.
    pub fn new(limit: u64) -> (gas: Gas)
        ensures
            gas.wf(),
            gas@ == (GasView { limit: limit as nat, remaining: limit as nat, refunded: 0 }),
    {
        Gas { limit, remaining: limit, refunded: 0 }
    }

    /// The gas that the frame was given.
    pub fn limit(&self) -> (limit: u64)
        ensures
            limit == self@.limit,
    {
        self.limit
    }

    /// The gas that is left.
    pub fn remaining(&self) -> (remaining: u64)
        ensures
            remaining == self@.remaining,
    {
        self.remaining
    }

    /// The gas that was spent.
    pub fn spent(&self) -> (spent: u64)
        requires
            self.wf(),
        ensures
            spent == self@.limit - self@.remaining,
    {
        self.limit - self.remaining
    }

    /// The gas that is to be given back.
    pub fn refunded(&self) -> (refunded: i64)
        ensures
            refunded == self@.refunded,
    {
        self.refunded
    }

    /// Charges `cost`. Where more is asked than is left, nothing is charged
    /// and the result is `false`.
    pub fn record_cost(&mut self, cost: u64) -> (paid: bool)
        requires
            old(self).wf(),
        ensures
            final(self).wf(),
            paid == (cost <= old(self)@.remaining),
            paid ==> final(self)@ == (GasView {
                remaining: (old(self)@.remaining - cost) as nat,
                ..old(self)@
            }),
            !paid ==> final(self)@ == old(self)@,
    {
        if cost > self.remaining {
            false
        } else {
            self.remaining = self.remaining - cost;
            true
        }
    }
}

} // verus!
