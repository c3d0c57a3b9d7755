//! The scratch memory of a frame.

use vstd::prelude::*;
use vstd::slice::slice_subrange;

verus! {

/// The `len` bytes of `data` from `offset` on, with zero bytes for what
/// lies beyond the end of `data`.
pub open spec fn window(data: Seq<u8>, offset: int, len: nat) -> Seq<u8> {
    Seq::new(
        len,
        |i: int|
            if offset + i < data.len() {
                data[offset + i]
            } else {
                0u8
            },
    )
}

/// The `len` bytes of `memory` from `offset` on; nothing where `len` is
/// zero, whatever `offset` is.
pub open spec fn read(memory: Seq<u8>, offset: int, len: nat) -> Seq<u8> {
    if len == 0 {
        Seq::<u8>::empty()
    } else {
        memory.subrange(offset, offset + len)
    }
}

/// `memory` with `bytes` written over it from `offset` on; `memory` itself
/// where `bytes` is empty, whatever `offset` is.
pub open spec fn written(memory: Seq<u8>, offset: int, bytes: Seq<u8>) -> Seq<u8> {
    Seq::new(
        memory.len(),
        |i: int|
            if offset <= i < offset + bytes.len() {
                bytes[i - offset]
            } else {
                memory[i]
            },
    )
}

/// `memory` extended with zero bytes to `new_len` bytes; `memory` itself
/// where it is that long already.
pub open spec fn grown(memory: Seq<u8>, new_len: nat) -> Seq<u8> {
    if new_len <= memory.len() {
        memory
    } else {
        Seq::new(
            new_len,
            |i: int|
                if i < memory.len() {
                    memory[i]
                } else {
                    0u8
                },
        )
    }
}

/// A byte buffer that only grows, by whole 32-byte words.
#[derive(Debug)]
pub struct SharedMemory {
    data: Vec<u8>,
}

impl View for SharedMemory {
    type V = Seq<u8>;

    closed spec fn view(&self) -> Seq<u8> {
        self.data@
    }
}

impl SharedMemory {
    /// The length is a whole number of 32-byte words.
    pub open spec fn wf(&self) -> bool {
        self@.len() % 32 == 0
    }

    /// The memory fits the addressable range.
    pub proof fn lemma_len_bound(&self)
        ensures
            self@.len() <= usize::MAX,
    {
        assert(self.data@.len() == self.data.len());
    }

    /// An empty memory.
    pub fn new() -> (memory: SharedMemory)
        ensures
            memory.wf(),
            memory@ == Seq::<u8>::empty(),
    {
        SharedMemory { data: Vec::new() }
    }

    /// The length of the memory in bytes.
    pub fn len(&self) -> (n: usize)
        ensures
            n == self@.len(),
    {
        self.data.len()
    }

    /// Extends the memory with zero bytes to `new_len` bytes. A memory that
    /// is that long already is left as it is.
    pub fn resize(&mut self, new_len: usize)
        requires
            old(self).wf(),
            new_len % 32 == 0,
        ensures
            final(self).wf(),
            final(self)@ == grown(old(self)@, new_len as nat),
    {
        if new_len <= self.data.len() {
            return ;
        }
        while self.data.len() < new_len
            invariant
                old(self)@.len() <= self.data@.len() <= new_len,
                forall|i: int| 0 <= i < old(self)@.len() ==> self.data@[i] == old(self)@[i],
                forall|i: int| old(self)@.len() <= i < self.data@.len() ==> self.data@[i] == 0,
            decreases new_len - self.data@.len(),
        {
            self.data.push(0u8);
        }
        assert(self.data@ =~= grown(old(self)@, new_len as nat));
    }

    /// The `len` bytes from `offset` on. With `len` zero, `offset` is not
    /// looked at.
    pub fn slice(&self, offset: usize, len: usize) -> (out: &[u8])
        requires
            len == 0 || offset + len <= self@.len(),
        ensures
            out@ == read(self@, offset as int, len as nat),
    {
        let total: usize = self.data.len();
        if len == 0 {
            let out = slice_subrange(self.data.as_slice(), 0, 0);
            assert(out@ =~= Seq::<u8>::empty());
            out
        } else {
            slice_subrange(self.data.as_slice(), offset, offset + len)
        }
    }

    /// Writes `bytes` over the memory from `offset` on. With `bytes` empty,
    /// `offset` is not looked at.
    pub fn set(&mut self, offset: usize, bytes: &[u8])
        requires
            bytes@.len() == 0 || offset + bytes@.len() <= old(self)@.len(),
        ensures
            final(self)@ == written(old(self)@, offset as int, bytes@),
    {
        let n: usize = bytes.len();
        let total: usize = self.data.len();
        let mut i: usize = 0;
        while i < n
            invariant
                n == bytes@.len(),
                i <= n,
                n == 0 || offset + n <= total,
                self.data@.len() == total == old(self)@.len(),
                forall|j: int|
                    0 <= j < self.data@.len() ==> self.data@[j] == (if offset <= j < offset + i {
                        bytes@[j - offset]
                    } else {
                        old(self)@[j]
                    }),
            decreases n - i,
        {
            self.data.set(offset + i, bytes[i]);
            i = i + 1;
        }
        assert(self.data@ =~= written(old(self)@, offset as int, bytes@));
    }

    /// Writes over the memory, from `memory_offset` on, the `len` bytes of
    /// `data` from `data_offset` on, with zero bytes for what lies beyond the
    /// end of `data`. With `len` zero, neither offset is looked at.
    pub fn set_data(&mut self, memory_offset: usize, data_offset: usize, len: usize, data: &[u8])
        requires
            len == 0 || memory_offset + len <= old(self)@.len(),
        ensures
            final(self)@ == written(
                old(self)@,
                memory_offset as int,
                window(data@, data_offset as int, len as nat),
            ),
    {
        let data_len: usize = data.len();
        let available: usize = if data_offset < data_len {
            data_len - data_offset
        } else {
            0
        };
        let total: usize = self.data.len();
        let mut i: usize = 0;
        while i < len
            invariant
                i <= len,
                len == 0 || memory_offset + len <= total,
                self.data@.len() == total == old(self)@.len(),
                data_len == data@.len(),
                available == (if data_offset < data@.len() {
                    data@.len() - data_offset
                } else {
                    0
                }),
                forall|j: int|
                    0 <= j < self.data@.len() ==> self.data@[j] == (if memory_offset <= j
                        < memory_offset + i {
                        window(data@, data_offset as int, len as nat)[j - memory_offset]
                    } else {
                        old(self)@[j]
                    }),
            decreases len - i,
        {
            let byte: u8 = if i < available {
                data[data_offset + i]
            } else {
                0
            };
            self.data.set(memory_offset + i, byte);
            i = i + 1;
        }
        assert(self.data@ =~= written(
            old(self)@,
            memory_offset as int,
            window(data@, data_offset as int, len as nat),
        ));
    }
}

/// Writing nothing leaves the memory as it is, at whatever offset.
pub proof fn lemma_written_nothing(memory: Seq<u8>, offset: int)
    ensures
        written(memory, offset, Seq::<u8>::empty()) == memory,
{
    assert(written(memory, offset, Seq::<u8>::empty()) =~= memory);
}

} // verus!
