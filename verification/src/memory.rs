use vstd::prelude::*;
use vstd::arithmetic::div_mod::lemma_fundamental_div_mod;
use crate::errors::ExecutionError;
use crate::word::{Word, word_be_bytes, word_of_be, word_get_byte, word_from_be_bytes};

verus! {

/// The smallest multiple of 32 that is at least `x` (for `x >= 1`).
pub open spec fn round32(x: nat) -> nat {
    (((x - 1) / 32 + 1) * 32) as nat
}

/// The buffer length after an access to bytes `[off, off + size)`: unchanged
/// when the range is already covered, else rounded up to a multiple of 32.
pub open spec fn grown_len(len: nat, off: nat, size: nat) -> nat {
    if off + size <= len {
        len
    } else {
        round32(off + size)
    }
}

pub proof fn lemma_round32(x: nat)
    requires
        x >= 1,
    ensures
        round32(x) >= x,
        round32(x) % 32 == 0,
        round32(x) < x + 32,
{
    lemma_fundamental_div_mod(x as int - 1, 32);
    let q = (x - 1) / 32;
    assert(((q + 1) * 32) % 32 == 0) by {
        vstd::arithmetic::div_mod::lemma_mod_multiples_basic(q + 1, 32);
    }
}

/// A word written at an offset reads back as itself: the bytes `save_word`
/// stores there are `word_be_bytes(v)`, and `get_word` returns the word
/// those bytes denote, which this lemma pins to `v`: the MSTORE-then-MLOAD
/// round trip, for any offset and any value.
pub proof fn lemma_store_load_roundtrip(m: Seq<u8>, off: int, v: Word)
    requires
        0 <= off,
        off + 32 <= m.len(),
        m.subrange(off, off + 32) == word_be_bytes(v),
    ensures
        word_of_be(m.subrange(off, off + 32)) == v,
{
    crate::word::lemma_word_bytes_roundtrip(v);
}

/// The byte memory of one frame: a buffer that starts empty and grows in
/// 32-byte steps, never shrinking, with fresh bytes zero.
pub struct Memory {
    pub store: Vec<u8>,
}

impl Memory {
    pub open spec fn view(&self) -> Seq<u8> {
        self.store@
    }

    /// The buffer length is always a multiple of 32.
    pub open spec fn wf(&self) -> bool {
        self.store@.len() % 32 == 0
    }

    pub fn new() -> (r: Memory)
        ensures
            r@ == Seq::<u8>::empty(),
            r.wf(),
    {
        Memory { store: Vec::new() }
    }

    /// Grows the buffer, zero-filled, so that it covers `[offset, offset + size)`
    /// and stays a multiple of 32 bytes long. Never shrinks and never alters
    /// existing bytes.
    pub fn resize(&mut self, offset: usize, size: usize) -> (r: Result<(), ExecutionError>)
        requires
            size >= 1,
            offset + size + 31 <= usize::MAX,
        ensures
            r is Ok,
            final(self)@.len() == grown_len(old(self)@.len(), offset as nat, size as nat),
            forall|i: int|
                0 <= i < final(self)@.len() ==> final(self)@[i] == (if i < old(self)@.len() {
                    old(self)@[i]
                } else {
                    0u8
                }),
            old(self).wf() ==> final(self).wf(),
    {
        proof {
            lemma_round32((offset + size) as nat);
        }
        if self.store.len() < offset + size {
            let target: usize = ((offset + size - 1) / 32 + 1) * 32;
            while self.store.len() < target
                invariant
                    target == round32((offset + size) as nat),
                    self@.len() <= target,
                    forall|i: int|
                        0 <= i < self@.len() ==> self@[i] == (if i < old(self)@.len() {
                            old(self)@[i]
                        } else {
                            0u8
                        }),
                    self@.len() >= old(self)@.len(),
                decreases target - self@.len(),
            {
                self.store.push(0u8);
            }
        }
        Ok(())
    }

    /// Writes the 32-byte big-endian form of a word at `offset`, growing first.
    pub fn save_word(&mut self, offset: usize, word: Word) -> (r: Result<
        Word,
        ExecutionError,
    >)
        requires
            offset + 63 <= usize::MAX,
        ensures
            r == Ok::<Word, ExecutionError>(word),
            final(self)@.len() == grown_len(old(self)@.len(), offset as nat, 32),
            final(self)@.subrange(offset as int, offset + 32) == word_be_bytes(word),
            forall|i: int|
                0 <= i < final(self)@.len() && !(offset <= i < offset + 32) ==> final(self)@[i]
                    == (if i < old(self)@.len() {
                    old(self)@[i]
                } else {
                    0u8
                }),
            old(self).wf() ==> final(self).wf(),
    {
        let _ = self.resize(offset, 32)?;
        for k in 0..32usize
            invariant
                offset + 63 <= usize::MAX,
                offset + 32 <= self@.len(),
                self@.len() == grown_len(old(self)@.len(), offset as nat, 32),
                forall|i: int|
                    0 <= i < self@.len() && !(offset <= i < offset + k) ==> self@[i] == (if i
                        < old(self)@.len() {
                        old(self)@[i]
                    } else {
                        0u8
                    }),
                forall|i: int|
                    0 <= i < k ==> self@[offset + i] == word_be_bytes(word)[i],
                old(self).wf() ==> self@.len() % 32 == 0,
            decreases 32 - k,
        {
            let b = word_get_byte(&word, 31 - k);
            self.store[offset + k] = b;
        }
        proof {
            assert(self@.subrange(offset as int, offset + 32) =~= word_be_bytes(word));
        }
        Ok(word)
    }

    /// Writes one byte at `offset`, growing first.
    pub fn save_byte(&mut self, offset: usize, byte: u8) -> (r: Result<u8, ExecutionError>)
        requires
            offset + 32 <= usize::MAX,
        ensures
            r == Ok::<u8, ExecutionError>(byte),
            final(self)@.len() == grown_len(old(self)@.len(), offset as nat, 1),
            final(self)@[offset as int] == byte,
            forall|i: int|
                0 <= i < final(self)@.len() && i != offset ==> final(self)@[i] == (if i < old(
                    self,
                )@.len() {
                    old(self)@[i]
                } else {
                    0u8
                }),
            old(self).wf() ==> final(self).wf(),
    {
        let _ = self.resize(offset, 1)?;
        self.store[offset] = byte;
        Ok(byte)
    }

    /// Writes a run of bytes starting at `offset`, growing first; an empty
    /// run leaves the memory untouched.
    pub fn save_bytes(&mut self, offset: usize, bytes: &Vec<u8>) -> (r: Result<
        (),
        ExecutionError,
    >)
        requires
            offset + bytes@.len() + 31 <= usize::MAX,
        ensures
            r is Ok,
            bytes@.len() == 0 ==> final(self)@ == old(self)@,
            bytes@.len() > 0 ==> {
                &&& final(self)@.len() == grown_len(
                    old(self)@.len(),
                    offset as nat,
                    bytes@.len(),
                )
                &&& final(self)@.subrange(offset as int, offset + bytes@.len()) == bytes@
                &&& forall|i: int|
                    0 <= i < final(self)@.len() && !(offset <= i < offset + bytes@.len())
                        ==> final(self)@[i] == (if i < old(self)@.len() {
                        old(self)@[i]
                    } else {
                        0u8
                    })
            },
            old(self).wf() ==> final(self).wf(),
    {
        let n = bytes.len();
        if n == 0 {
            return Ok(());
        }
        let _ = self.resize(offset, n)?;
        for k in 0..n
            invariant
                n == bytes@.len(),
                offset + n + 31 <= usize::MAX,
                offset + n <= self@.len(),
                self@.len() == grown_len(old(self)@.len(), offset as nat, n as nat),
                forall|i: int|
                    0 <= i < self@.len() && !(offset <= i < offset + k) ==> self@[i] == (if i
                        < old(self)@.len() {
                        old(self)@[i]
                    } else {
                        0u8
                    }),
                forall|i: int| 0 <= i < k ==> self@[offset + i] == bytes@[i],
                old(self).wf() ==> self@.len() % 32 == 0,
            decreases n - k,
        {
            self.store[offset + k] = bytes[k];
        }
        proof {
            assert(self@.subrange(offset as int, offset + bytes@.len()) =~= bytes@);
        }
        Ok(())
    }

    /// Reads the byte at `offset`, growing first so the read is in range.
    pub fn get_byte(&mut self, offset: usize) -> (r: Result<u8, ExecutionError>)
        requires
            offset + 32 <= usize::MAX,
        ensures
            final(self)@.len() == grown_len(old(self)@.len(), offset as nat, 1),
            forall|i: int|
                0 <= i < final(self)@.len() ==> final(self)@[i] == (if i < old(self)@.len() {
                    old(self)@[i]
                } else {
                    0u8
                }),
            r == Ok::<u8, ExecutionError>(final(self)@[offset as int]),
            old(self).wf() ==> final(self).wf(),
    {
        let _ = self.resize(offset, 1)?;
        Ok(self.store[offset])
    }

    /// Reads `n_bytes` bytes from `offset`, growing first; a zero-length read
    /// leaves the memory untouched.
    pub fn get_bytes(&mut self, offset: usize, n_bytes: usize) -> (r: Result<
        Vec<u8>,
        ExecutionError,
    >)
        requires
            offset + n_bytes + 31 <= usize::MAX,
        ensures
            n_bytes == 0 ==> final(self)@ == old(self)@ && (r matches Ok(bytes) && bytes@
                == Seq::<u8>::empty()),
            n_bytes > 0 ==> final(self)@.len() == grown_len(
                old(self)@.len(),
                offset as nat,
                n_bytes as nat,
            ) && (r matches Ok(bytes) && bytes@ == final(self)@.subrange(
                offset as int,
                offset + n_bytes,
            )),
            forall|i: int|
                0 <= i < final(self)@.len() ==> final(self)@[i] == (if i < old(self)@.len() {
                    old(self)@[i]
                } else {
                    0u8
                }),
            old(self).wf() ==> final(self).wf(),
    {
        let mut bytes: Vec<u8> = Vec::new();
        if n_bytes == 0 {
            return Ok(bytes);
        }
        let _ = self.resize(offset, n_bytes)?;
        for k in 0..n_bytes
            invariant
                offset + n_bytes + 31 <= usize::MAX,
                offset + n_bytes <= self@.len(),
                self@.len() == grown_len(old(self)@.len(), offset as nat, n_bytes as nat),
                forall|i: int|
                    0 <= i < self@.len() ==> self@[i] == (if i < old(self)@.len() {
                        old(self)@[i]
                    } else {
                        0u8
                    }),
                bytes@.len() == k,
                forall|i: int| 0 <= i < k ==> bytes@[i] == self@[offset + i],
                old(self).wf() ==> self@.len() % 32 == 0,
            decreases n_bytes - k,
        {
            bytes.push(self.store[offset + k]);
        }
        proof {
            assert(bytes@ =~= self@.subrange(offset as int, offset + n_bytes));
        }
        Ok(bytes)
    }

    /// Reads the 32-byte big-endian word at `offset`, growing first.
    pub fn get_word(&mut self, offset: usize) -> (r: Result<Word, ExecutionError>)
        requires
            offset + 63 <= usize::MAX,
        ensures
            final(self)@.len() == grown_len(old(self)@.len(), offset as nat, 32),
            forall|i: int|
                0 <= i < final(self)@.len() ==> final(self)@[i] == (if i < old(self)@.len() {
                    old(self)@[i]
                } else {
                    0u8
                }),
            r == Ok::<Word, ExecutionError>(
                word_of_be(final(self)@.subrange(offset as int, offset + 32)),
            ),
            old(self).wf() ==> final(self).wf(),
    {
        let bytes = self.get_bytes(offset, 32)?;
        Ok(word_from_be_bytes(&bytes))
    }
}

} // verus!
