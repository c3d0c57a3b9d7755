//! Machine words and addresses.

use vstd::prelude::*;

verus! {

/// The value of a byte string read as a big-endian number.
pub open spec fn be_value(bytes: Seq<u8>) -> nat
    decreases bytes.len(),
{
    if bytes.len() == 0 {
        0
    } else {
        be_value(bytes.drop_last()) * 256 + bytes.last() as nat
    }
}

/// 256 to the power `n`.
pub open spec fn pow256(n: nat) -> nat
    decreases n,
{
    if n == 0 {
        1
    } else {
        256 * pow256((n - 1) as nat)
    }
}

/// A string of `n` zero bytes.
pub open spec fn zeros(n: nat) -> Seq<u8> {
    Seq::new(n, |i: int| 0u8)
}

/// `bytes`, extended on the left with zero bytes to 32 bytes.
pub open spec fn pad_left(bytes: Seq<u8>) -> Seq<u8>
    recommends
        bytes.len() <= 32,
{
    zeros((32 - bytes.len()) as nat) + bytes
}

/// The powers of 256 up to 2 to the 64.
pub proof fn lemma_pow256_values()
    ensures
        pow256(0) == 1,
        pow256(1) == 0x100,
        pow256(2) == 0x1_0000,
        pow256(3) == 0x100_0000,
        pow256(4) == 0x1_0000_0000,
        pow256(5) == 0x100_0000_0000,
        pow256(6) == 0x1_0000_0000_0000,
        pow256(7) == 0x100_0000_0000_0000,
        pow256(8) == 0x1_0000_0000_0000_0000,
{
    reveal_with_fuel(pow256, 9);
}

/// The powers of 256 are positive and grow with the exponent.
pub proof fn lemma_pow256_monotonic(a: nat, b: nat)
    requires
        a <= b,
    ensures
        1 <= pow256(a) <= pow256(b),
    decreases b,
{
    if b == 0 {
    } else if a == b {
        lemma_pow256_monotonic((a - 1) as nat, (b - 1) as nat);
    } else {
        lemma_pow256_monotonic(a, (b - 1) as nat);
    }
}

/// A big-endian number is below 256 to the number of its bytes.
pub proof fn lemma_be_value_bound(bytes: Seq<u8>)
    ensures
        be_value(bytes) < pow256(bytes.len()),
    decreases bytes.len(),
{
    if bytes.len() > 0 {
        lemma_be_value_bound(bytes.drop_last());
    }
}

/// Leading zero bytes do not change a big-endian number.
pub proof fn lemma_be_value_leading_zeros(bytes: Seq<u8>, k: int)
    requires
        0 <= k <= bytes.len(),
        forall|i: int| 0 <= i < k ==> bytes[i] == 0,
    ensures
        be_value(bytes) == be_value(bytes.subrange(k, bytes.len() as int)),
    decreases bytes.len(),
{
    let n: int = bytes.len() as int;
    if n == 0 {
        assert(bytes.subrange(k, n) =~= bytes);
    } else if k == n {
        lemma_be_value_leading_zeros(bytes.drop_last(), k - 1);
        assert(bytes.drop_last().subrange(k - 1, n - 1).len() == 0);
        assert(bytes.subrange(k, n).len() == 0);
    } else {
        lemma_be_value_leading_zeros(bytes.drop_last(), k);
        assert(bytes.subrange(k, n).drop_last() =~= bytes.drop_last().subrange(k, n - 1));
    }
}

/// A byte string with a non-zero byte at `i` is worth at least the weight of
/// that position.
pub proof fn lemma_be_value_lower(bytes: Seq<u8>, i: int)
    requires
        0 <= i < bytes.len(),
        bytes[i] != 0,
    ensures
        be_value(bytes) >= pow256((bytes.len() - 1 - i) as nat),
    decreases bytes.len(),
{
    if i < bytes.len() - 1 {
        lemma_be_value_lower(bytes.drop_last(), i);
    }
}

/// Putting a byte in front adds that byte times the weight of its position.
pub proof fn lemma_be_value_push_front(b: u8, bytes: Seq<u8>)
    ensures
        be_value(seq![b] + bytes) == b as nat * pow256(bytes.len()) + be_value(bytes),
    decreases bytes.len(),
{
    let all: Seq<u8> = seq![b] + bytes;
    assert(be_value(all) == be_value(all.drop_last()) * 256 + all.last() as nat);
    if bytes.len() == 0 {
        assert(all.drop_last() =~= Seq::<u8>::empty());
        assert(be_value(all.drop_last()) == 0);
        assert(pow256(0) == 1);
        assert(b as nat * pow256(0) == b as nat) by (nonlinear_arith)
            requires
                pow256(0) == 1,
        ;
    } else {
        lemma_be_value_push_front(b, bytes.drop_last());
        assert(all.drop_last() =~= seq![b] + bytes.drop_last());
        assert(all.last() == bytes.last());
        let p: nat = pow256((bytes.len() - 1) as nat);
        let rest: nat = be_value(bytes.drop_last());
        assert(pow256(bytes.len()) == 256 * p);
        assert(be_value(all.drop_last()) == b as nat * p + rest);
        assert((b as nat * p + rest) * 256 == b as nat * (256 * p) + rest * 256)
            by (nonlinear_arith);
        assert(be_value(bytes) == rest * 256 + bytes.last() as nat);
    }
}

/// Two byte strings of one length with one big-endian value are equal.
pub proof fn lemma_be_value_injective(a: Seq<u8>, b: Seq<u8>)
    requires
        a.len() == b.len(),
        be_value(a) == be_value(b),
    ensures
        a == b,
    decreases a.len(),
{
    if a.len() > 0 {
        lemma_be_value_injective(a.drop_last(), b.drop_last());
        assert(a =~= a.drop_last().push(a.last()));
        assert(b =~= b.drop_last().push(b.last()));
    } else {
        assert(a =~= b);
    }
}

/// A 256-bit machine word, held as its 32 big-endian bytes.
#[derive(Clone, Copy, Debug, PartialEq, Eq, Hash)]
pub struct Word {
    pub bytes: [u8; 32],
}

/// The word with the big-endian bytes `bytes`, a string of 32 bytes.
pub open spec fn word_of_bytes(bytes: Seq<u8>) -> Word
    recommends
        bytes.len() == 32,
{
    choose|w: Word| w.bytes@ == bytes
}

/// The word that stands for `value`, a number below 2 to the 256.
pub open spec fn word_of_value(value: nat) -> Word
    recommends
        value < pow256(32),
{
    choose|w: Word| w.value() == value
}

/// A word is the word of its bytes.
pub proof fn lemma_word_of_bytes(w: Word)
    ensures
        word_of_bytes(w.bytes@) == w,
{
    let v: Word = word_of_bytes(w.bytes@);
    assert(v.bytes@ == w.bytes@);
    assert(v.bytes =~= w.bytes);
}

/// A word is the word of its value.
pub proof fn lemma_word_of_value(w: Word)
    ensures
        word_of_value(w.value()) == w,
{
    let v: Word = word_of_value(w.value());
    assert(v.value() == w.value());
    lemma_word_value_injective(v, w);
}

impl Word {
    /// The number that the word stands for.
    pub open spec fn value(&self) -> nat {
        be_value(self.bytes@)
    }

    /// The word zero.
    pub fn zero() -> (w: Word)
        ensures
            w == word_of_value(0),
            w.bytes@ == zeros(32),
            w.value() == 0,
    {
        let w = Word { bytes: [0u8; 32] };
        proof {
            assert(w.bytes@ =~= zeros(32));
            lemma_be_value_leading_zeros(w.bytes@, 32);
            assert(w.bytes@.subrange(32, 32).len() == 0);
            lemma_word_of_value(w);
        }
        w
    }

    /// The word with the given big-endian bytes.
    pub fn from_be_bytes(bytes: [u8; 32]) -> (w: Word)
        ensures
            w.bytes == bytes,
    {
        Word { bytes }
    }

    /// The big-endian bytes of the word.
    pub fn to_be_bytes(&self) -> (bytes: [u8; 32])
        ensures
            bytes == self.bytes,
    {
        self.bytes
    }

    /// The word whose low-order bytes are `bytes`: the byte string is
    /// zero-extended on the left, so the word has the string's value.
    pub fn from_be_slice(bytes: &[u8]) -> (w: Word)
        requires
            bytes@.len() <= 32,
        ensures
            w == word_of_bytes(pad_left(bytes@)),
            w.bytes@ == pad_left(bytes@),
            w.value() == be_value(bytes@),
    {
        let n: usize = bytes.len();
        let mut out = [0u8; 32];
        let mut i: usize = 0;
        while i < n
            invariant
                n == bytes@.len(),
                n <= 32,
                i <= n,
                forall|j: int| 0 <= j < 32 - n ==> out@[j] == 0,
                forall|j: int| 0 <= j < i ==> out@[32 - n + j] == bytes@[j],
            decreases n - i,
        {
            out[32 - n + i] = bytes[i];
            i = i + 1;
        }
        proof {
            assert(out@ =~= pad_left(bytes@));
            lemma_be_value_leading_zeros(out@, 32 - n);
            assert(out@.subrange(32 - n, 32) =~= bytes@);
            lemma_word_of_bytes(Word { bytes: out });
        }
        Word { bytes: out }
    }

    /// The word that stands for `x`.
    pub fn from_u64(x: u64) -> (w: Word)
        ensures
            w == word_of_value(x as nat),
            w.value() == x,
    {
        let mut bytes = [0u8; 32];
        let mut rest: u64 = x;
        let mut k: usize = 0;
        proof {
            assert(pow256(0) == 1);
            assert(bytes@.subrange(32, 32).len() == 0);
        }
        while k < 8
            invariant
                k <= 8,
                forall|i: int| 0 <= i < 32 - k ==> bytes@[i] == 0,
                x == rest * pow256(k as nat) + be_value(bytes@.subrange(32 - k, 32)),
            decreases 8 - k,
        {
            let ghost before = bytes@;
            let low: u8 = (rest % 256) as u8;
            bytes[31 - k] = low;
            proof {
                let tail: Seq<u8> = before.subrange(32 - k, 32);
                assert(bytes@.subrange(31 - k, 32) =~= seq![low] + tail);
                lemma_be_value_push_front(low, tail);
                let p: nat = pow256(k as nat);
                let q: nat = (rest / 256) as nat;
                assert(pow256((k + 1) as nat) == 256 * p);
                assert(rest == q * 256 + low);
                assert((q * 256 + low) * p == q * (256 * p) + low * p) by (nonlinear_arith);
            }
            rest = rest / 256;
            k = k + 1;
        }
        proof {
            lemma_pow256_values();
            assert(rest == 0) by (nonlinear_arith)
                requires
                    x == rest * 0x1_0000_0000_0000_0000
                        + be_value(bytes@.subrange(24, 32)),
                    x < 0x1_0000_0000_0000_0000,
            ;
            lemma_be_value_leading_zeros(bytes@, 24);
            lemma_word_of_value(Word { bytes });
        }
        Word { bytes }
    }

    /// The word that stands for `x`.
    pub fn from_usize(x: usize) -> (w: Word)
        ensures
            w == word_of_value(x as nat),
            w.value() == x,
    {
        Word::from_u64(x as u64)
    }

    /// The word as a `u64`, where it fits.
    pub fn to_u64(&self) -> (r: Option<u64>)
        ensures
            r == (if self.value() <= u64::MAX {
                Some(self.value() as u64)
            } else {
                None::<u64>
            }),
    {
        let mut i: usize = 0;
        while i < 24
            invariant
                i <= 24,
                forall|j: int| 0 <= j < i ==> self.bytes@[j] == 0,
            decreases 24 - i,
        {
            if self.bytes[i] != 0 {
                proof {
                    lemma_be_value_lower(self.bytes@, i as int);
                    lemma_pow256_monotonic(8, (31 - i) as nat);
                    lemma_pow256_values();
                }
                return None;
            }
            i = i + 1;
        }
        let mut acc: u64 = 0;
        let mut j: usize = 24;
        while j < 32
            invariant
                24 <= j <= 32,
                acc == be_value(self.bytes@.subrange(24, j as int)),
            decreases 32 - j,
        {
            proof {
                lemma_be_value_bound(self.bytes@.subrange(24, j as int));
                lemma_pow256_monotonic((j - 24) as nat, 7);
                lemma_pow256_values();
                assert(self.bytes@.subrange(24, j + 1).drop_last() =~= self.bytes@.subrange(
                    24,
                    j as int,
                ));
            }
            acc = acc * 256 + self.bytes[j] as u64;
            j = j + 1;
        }
        proof {
            lemma_be_value_leading_zeros(self.bytes@, 24);
        }
        Some(acc)
    }

    /// The word as an index, where it fits the addressable range.
    pub fn as_usize(&self) -> (r: Option<usize>)
        ensures
            r == (if self.value() <= usize::MAX {
                Some(self.value() as usize)
            } else {
                None::<usize>
            }),
    {
        match self.to_u64() {
            Some(v) => {
                if v <= usize::MAX as u64 {
                    Some(v as usize)
                } else {
                    None
                }
            },
            None => None,
        }
    }

    /// The word as an index, clamped to the largest index where it does not
    /// fit.
    pub fn as_usize_saturated(&self) -> (n: usize)
        ensures
            n == (if self.value() <= usize::MAX {
                self.value()
            } else {
                usize::MAX as nat
            }),
    {
        match self.as_usize() {
            Some(v) => v,
            None => usize::MAX,
        }
    }

    /// Whether the word is zero.
    pub fn is_zero(&self) -> (b: bool)
        ensures
            b == (self.value() == 0),
    {
        let mut i: usize = 0;
        while i < 32
            invariant
                i <= 32,
                forall|j: int| 0 <= j < i ==> self.bytes@[j] == 0,
            decreases 32 - i,
        {
            if self.bytes[i] != 0 {
                proof {
                    lemma_be_value_lower(self.bytes@, i as int);
                    lemma_pow256_monotonic(0, (31 - i) as nat);
                }
                return false;
            }
            i = i + 1;
        }
        proof {
            lemma_be_value_leading_zeros(self.bytes@, 32);
            assert(self.bytes@.subrange(32, 32).len() == 0);
        }
        true
    }
}

/// A word is determined by its value.
pub proof fn lemma_word_value_injective(a: Word, b: Word)
    requires
        a.value() == b.value(),
    ensures
        a == b,
{
    lemma_be_value_injective(a.bytes@, b.bytes@);
    assert(a.bytes =~= b.bytes);
}

/// Every word is below 2 to the 256.
pub proof fn lemma_word_value_bound(w: Word)
    ensures
        w.value() < pow256(32),
{
    lemma_be_value_bound(w.bytes@);
}

/// A 160-bit account address.
#[derive(Clone, Copy, Debug, PartialEq, Eq, Hash)]
pub struct Address {
    pub bytes: [u8; 20],
}

impl Address {
    /// The address as a word: its 20 bytes in the low-order positions.
    pub fn into_word(&self) -> (w: Word)
        ensures
            w == word_of_bytes(pad_left(self.bytes@)),
            w.bytes@ == pad_left(self.bytes@),
    {
        Word::from_be_slice(self.bytes.as_slice())
    }
}

} // verus!
