//! An in-memory seekable byte stream: the resource the entry codec reads from
//! and writes to. It models a random-access byte store with an explicit
//! cursor, so the codec runs unmodified over a buffer that a caller later
//! flushes to whatever medium it owns.

use vstd::prelude::*;
use crate::err::FormatError;

verus! {

/// The bytes of `data` with `b` laid over them from `pos` on, growing the
/// sequence when `b` runs past the end.
pub open spec fn overwrite(data: Seq<u8>, pos: int, b: Seq<u8>) -> Seq<u8>
    recommends
        0 <= pos <= data.len(),
{
    data.take(pos) + b + if pos + b.len() <= data.len() {
        data.skip(pos + b.len())
    } else {
        Seq::<u8>::empty()
    }
}

/// Two adjacent overwrites lay down the concatenation of their buffers.
pub proof fn lemma_overwrite_concat(data: Seq<u8>, pos: int, a: Seq<u8>, b: Seq<u8>)
    requires
        0 <= pos <= data.len(),
    ensures
        overwrite(overwrite(data, pos, a), pos + a.len(), b) == overwrite(data, pos, a + b),
{
    let d1 = overwrite(data, pos, a);
    assert(d1.take(pos + a.len()) =~= data.take(pos) + a);
    assert(overwrite(d1, pos + a.len(), b) =~= overwrite(data, pos, a + b));
}

/// An overwrite starting at the end of the data is a plain append: writing
/// with the cursor at the stream's length appends the buffer.
pub proof fn lemma_overwrite_append(data: Seq<u8>, b: Seq<u8>)
    ensures
        overwrite(data, data.len() as int, b) == data + b,
{
    assert(overwrite(data, data.len() as int, b) =~= data + b);
}

/// A seekable in-memory byte stream.
pub struct Stream {
    /// The stream's bytes.
    pub data: Vec<u8>,
    /// The cursor: the byte position where the next read or write begins.
    pub pos: u64,
}

impl Stream {
    /// An empty stream with the cursor at the start.
    pub fn new() -> (r: Stream)
        ensures
            r.data@ == Seq::<u8>::empty(),
            r.pos == 0,
    {
        Stream { data: Vec::new(), pos: 0 }
    }

    /// A stream holding `data`, with the cursor at the start.
    pub fn from_vec(data: Vec<u8>) -> (r: Stream)
        ensures
            r.data@ == data@,
            r.pos == 0,
    {
        Stream { data, pos: 0 }
    }

    /// The current cursor position.
    pub fn position(&self) -> (r: u64)
        ensures
            r == self.pos,
    {
        self.pos
    }

    /// The stream's current length in bytes.
    pub fn len(&self) -> (r: usize)
        ensures
            r == self.data@.len(),
    {
        self.data.len()
    }

    /// Move the cursor to an absolute position.
    pub fn seek(&mut self, pos: u64)
        ensures
            final(self).data@ == old(self).data@,
            final(self).pos == pos,
    {
        self.pos = pos;
    }

    /// Write all of `buf` at the cursor, overwriting what is there and
    /// growing the stream as needed; the cursor ends just past the write.
    pub fn write_all(&mut self, buf: &Vec<u8>)
        requires
            old(self).pos <= old(self).data@.len(),
            old(self).pos + buf@.len() <= usize::MAX,
        ensures
            final(self).data@ == overwrite(old(self).data@, old(self).pos as int, buf@),
            final(self).pos == old(self).pos + buf@.len(),
    {
        let p = self.pos as usize;
        let mut i: usize = 0;
        while i < buf.len()
            invariant
                i <= buf@.len(),
                p == old(self).pos,
                p + buf@.len() <= usize::MAX,
                p <= old(self).data@.len(),
                self.pos == old(self).pos,
                self.data@ == overwrite(old(self).data@, p as int, buf@.take(i as int)),
                self.data@.len() == if p + i <= old(self).data@.len() {
                    old(self).data@.len() as int
                } else {
                    p + i
                },
            decreases buf@.len() - i,
        {
            let idx = p + i;
            if idx < self.data.len() {
                self.data.set(idx, buf[i]);
            } else {
                self.data.push(buf[i]);
            }
            proof {
                assert(self.data@ =~= overwrite(old(self).data@, p as int, buf@.take(i as int + 1)));
            }
            i = i + 1;
        }
        proof {
            assert(buf@.take(buf@.len() as int) =~= buf@);
        }
        self.pos = self.pos + buf.len() as u64;
    }

    /// Read exactly `n` bytes at the cursor. Fails with `Truncated`, leaving
    /// the stream unchanged, when fewer than `n` bytes remain.
    pub fn read_exact(&mut self, n: usize) -> (r: Result<Vec<u8>, FormatError>)
        ensures
            final(self).data@ == old(self).data@,
            old(self).pos + n <= old(self).data@.len() ==> (r matches Ok(v)
                && v@ == old(self).data@.subrange(old(self).pos as int, old(self).pos + n)
                && final(self).pos == old(self).pos + n),
            old(self).pos + n > old(self).data@.len() ==> (r matches Err(e)
                && e == FormatError::Truncated
                && final(self).pos == old(self).pos),
    {
        let len64 = self.data.len() as u64;
        if self.pos > len64 || (n as u64) > len64 - self.pos {
            return Err(FormatError::Truncated);
        }
        let start = self.pos as usize;
        let dlen = self.data.len();
        proof {
            assert(start + n <= dlen <= usize::MAX);
        }
        let mut v: Vec<u8> = Vec::new();
        let mut i: usize = 0;
        while i < n
            invariant
                i <= n,
                start + n <= usize::MAX,
                start + n <= self.data@.len(),
                start == old(self).pos,
                self.data@ == old(self).data@,
                self.pos == old(self).pos,
                v@ == self.data@.subrange(start as int, start as int + i as int),
            decreases n - i,
        {
            v.push(self.data[start + i]);
            proof {
                assert(v@ =~= self.data@.subrange(start as int, start as int + i as int + 1));
            }
            i = i + 1;
        }
        self.pos = self.pos + n as u64;
        Ok(v)
    }

    /// Read at most `n` bytes at the cursor: fewer when the stream ends
    /// first, and none when the cursor is at or past the end.
    pub fn read_up_to(&mut self, n: usize) -> (r: Vec<u8>)
        ensures
            final(self).data@ == old(self).data@,
            old(self).pos >= old(self).data@.len() ==> r@ == Seq::<u8>::empty()
                && final(self).pos == old(self).pos,
            old(self).pos < old(self).data@.len() ==> {
                let avail = if n <= old(self).data@.len() - old(self).pos {
                    n as int
                } else {
                    old(self).data@.len() - old(self).pos
                };
                r@ == old(self).data@.subrange(old(self).pos as int, old(self).pos + avail)
                    && final(self).pos == old(self).pos + avail
            },
    {
        let len = self.data.len();
        if self.pos >= len as u64 {
            return Vec::new();
        }
        let start = self.pos as usize;
        let avail = if n <= len - start {
            n
        } else {
            len - start
        };
        match self.read_exact(avail) {
            Ok(v) => v,
            Err(_) => Vec::new(),
        }
    }
}

} // verus!
