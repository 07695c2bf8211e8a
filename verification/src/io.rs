//! In-memory block-device model. The wipe engine and the verifier are proved
//! against this model; real devices are driven by a thin unverified shell
//! that reuses the same pass and analysis functions.

use vstd::prelude::*;
use crate::patterns::{fill_repeat, repeat_byte};
use crate::rng::fill_random;

verus! {

/// The contents of `s` with `b` written at offset `off`.
pub open spec fn overwritten(s: Seq<u8>, off: int, b: Seq<u8>) -> Seq<u8> {
    Seq::new(s.len(), |i: int| if off <= i < off + b.len() { b[i - off] } else { s[i] })
}

/// A byte-addressed device held in memory.
pub struct MemDevice {
    pub data: Vec<u8>,
}

impl MemDevice {
    /// A device of `size` bytes, every byte `fill`.
    pub fn new(size: usize, fill: u8) -> (r: Self)
        ensures
            r.data@.len() == size,
            forall|i: int| 0 <= i < size ==> r.data@[i] == fill,
    {
        let mut data: Vec<u8> = Vec::new();
        let mut i: usize = 0;
        while i < size
            invariant
                0 <= i <= size,
                data@.len() == i,
                forall|k: int| 0 <= k < i ==> data@[k] == fill,
            decreases size - i,
        {
            data.push(fill);
            i += 1;
        }
        MemDevice { data }
    }

    /// Device size in bytes.
    pub fn size(&self) -> (r: usize)
        ensures
            r == self.data@.len(),
    {
        self.data.len()
    }

    /// Copy of `len` bytes starting at `offset`.
    pub fn read_at(&self, offset: usize, len: usize) -> (r: Vec<u8>)
        requires
            offset + len <= self.data@.len(),
        ensures
            r@ == self.data@.subrange(offset as int, offset + len),
    {
        let _total: usize = self.data.len();
        crate::bytes::subvec(&self.data, offset, offset + len)
    }

    /// Write the whole buffer at `offset`.
    pub fn write_at(&mut self, offset: usize, buf: &Vec<u8>)
        requires
            offset + buf@.len() <= old(self).data@.len(),
        ensures
            final(self).data@ =~= overwritten(old(self).data@, offset as int, buf@),
    {
        let mut i: usize = 0;
        let n = buf.len();
        let total: usize = self.data.len();
        while i < n
            invariant
                0 <= i <= n,
                n == buf@.len(),
                total == self.data@.len(),
                offset + n <= self.data@.len(),
                self.data@.len() == old(self).data@.len(),
                forall|k: int| 0 <= k < i ==> self.data@[offset + k] == buf@[k],
                forall|k: int| 0 <= k < self.data@.len()
                    && !(offset <= k < offset + i) ==> self.data@[k] == old(self).data@[k],
            decreases n - i,
        {
            self.data.set(offset + i, buf[i]);
            i += 1;
        }
    }

    /// One full sequential pass writing `pattern[i % len]` to byte `i`,
    /// in strictly increasing offset order from offset 0. Returns the
    /// number of bytes written: the whole device.
    pub fn pattern_pass(&mut self, pattern: &Vec<u8>) -> (written: usize)
        requires
            pattern@.len() > 0,
        ensures
            final(self).data@.len() == old(self).data@.len(),
            written == old(self).data@.len(),
            forall|i: int| 0 <= i < final(self).data@.len()
                ==> final(self).data@[i] == repeat_byte(pattern@, i),
    {
        let n = self.data.len();
        fill_repeat(&mut self.data, pattern);
        n
    }

    /// Zero out `len` bytes starting at `offset`; everything else keeps
    /// its value.
    pub fn zero_region(&mut self, offset: usize, len: usize)
        requires
            offset + len <= old(self).data@.len(),
        ensures
            final(self).data@.len() == old(self).data@.len(),
            forall|i: int| offset <= i < offset + len ==> final(self).data@[i] == 0,
            forall|i: int| 0 <= i < final(self).data@.len() && !(offset <= i < offset + len)
                ==> final(self).data@[i] == old(self).data@[i],
    {
        let mut i: usize = 0;
        let total: usize = self.data.len();
        while i < len
            invariant
                0 <= i <= len,
                offset + len <= total,
                total == self.data@.len(),
                self.data@.len() == old(self).data@.len(),
                forall|k: int| offset <= k < offset + i ==> self.data@[k] == 0,
                forall|k: int| 0 <= k < self.data@.len() && !(offset <= k < offset + i)
                    ==> self.data@[k] == old(self).data@[k],
            decreases len - i,
        {
            self.data.set(offset + i, 0);
            i += 1;
        }
    }

    /// One full sequential pass of cryptographically random bytes, from
    /// offset 0. Returns the number of bytes written: the whole device.
    pub fn random_pass(&mut self) -> (written: usize)
        ensures
            final(self).data@.len() == old(self).data@.len(),
            written == old(self).data@.len(),
    {
        let n = self.data.len();
        fill_random(&mut self.data);
        n
    }
}

} // verus!
