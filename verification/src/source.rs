use vstd::prelude::*;
use crate::errors::Error;

verus! {

/// The little-endian 16-bit value held at `d[i .. i + 2]`.
pub open spec fn le16(d: Seq<u8>, i: int) -> int {
    d[i] + 0x100 * d[i + 1]
}

/// The big-endian 16-bit value held at `d[i .. i + 2]`.
pub open spec fn be16(d: Seq<u8>, i: int) -> int {
    d[i + 1] + 0x100 * d[i]
}

/// The little-endian 32-bit value held at `d[i .. i + 4]`.
pub open spec fn le32(d: Seq<u8>, i: int) -> int {
    d[i] + 0x100 * d[i + 1] + 0x10000 * d[i + 2] + 0x1000000 * d[i + 3]
}

/// The big-endian 32-bit value held at `d[i .. i + 4]`.
pub open spec fn be32(d: Seq<u8>, i: int) -> int {
    d[i + 3] + 0x100 * d[i + 2] + 0x10000 * d[i + 1] + 0x1000000 * d[i]
}

/// A byte source over a fully buffered input: a cursor over a byte string,
/// with a flag saying whether the consumer may move the cursor backwards.
///
/// Every read either returns exactly the bytes under the cursor and moves
/// it, or fails with `ShortRead` and leaves the cursor where it was.
pub struct BufSource {
    data: Vec<u8>,
    pos: usize,
    seekable: bool,
}

impl BufSource {
    /// The whole byte string behind the source.
    pub closed spec fn bytes(&self) -> Seq<u8> {
        self.data@
    }

    /// The cursor: how many bytes have been consumed.
    pub closed spec fn position(&self) -> int {
        self.pos as int
    }

    /// Whether the source allows backward movement.
    pub closed spec fn seekable_spec(&self) -> bool {
        self.seekable
    }

    /// The cursor never passes the end of the byte string, and the byte
    /// string fits in the address space.
    pub open spec fn wf(&self) -> bool {
        0 <= self.position() <= self.bytes().len() && self.bytes().len() <= usize::MAX
    }

    /// How many bytes remain under and after the cursor.
    pub open spec fn remaining_spec(&self) -> int {
        self.bytes().len() - self.position()
    }

    pub fn new(data: Vec<u8>, seekable: bool) -> (r: BufSource)
        ensures
            r.wf(),
            r.bytes() == data@,
            r.position() == 0,
            r.seekable_spec() == seekable,
    {
        proof {
            vstd::std_specs::vec::axiom_spec_len(&data);
        }
        BufSource { data, pos: 0, seekable }
    }

    /// Whether the source allows backward movement.
    pub fn is_seekable(&self) -> (r: bool)
        ensures
            r == self.seekable_spec(),
    {
        self.seekable
    }

    /// The current cursor position, in bytes from the start.
    pub fn pos(&self) -> (r: u64)
        ensures
            r == self.position(),
    {
        self.pos as u64
    }

    /// The total length of the byte string.
    pub fn total_len(&self) -> (r: u64)
        ensures
            r == self.bytes().len(),
    {
        self.data.len() as u64
    }

    /// How many bytes remain under and after the cursor.
    pub fn remaining(&self) -> (r: u64)
        requires
            self.wf(),
        ensures
            r == self.remaining_spec(),
    {
        (self.data.len() - self.pos) as u64
    }

    pub fn read_u8(&mut self) -> (r: Result<u8, Error>)
        requires
            old(self).wf(),
        ensures
            final(self).wf(),
            final(self).bytes() == old(self).bytes(),
            final(self).seekable_spec() == old(self).seekable_spec(),
            old(self).remaining_spec() >= 1 ==> r == Ok::<u8, Error>(
                old(self).bytes()[old(self).position()],
            ) && final(self).position() == old(self).position() + 1,
            old(self).remaining_spec() < 1 ==> r == Err::<u8, Error>(Error::ShortRead) && final(self).position() == old(self).position(),
    {
        if self.pos < self.data.len() {
            let b = self.data[self.pos];
            self.pos = self.pos + 1;
            Ok(b)
        } else {
            Err(Error::ShortRead)
        }
    }

    /// Reads a little-endian unsigned 16-bit value.
    pub fn read_u16(&mut self) -> (r: Result<u16, Error>)
        requires
            old(self).wf(),
        ensures
            final(self).wf(),
            final(self).bytes() == old(self).bytes(),
            final(self).seekable_spec() == old(self).seekable_spec(),
            old(self).remaining_spec() >= 2 ==> (r matches Ok(v) && v == le16(old(self).bytes(), old(self).position()) && final(self).position() == old(self).position() + 2),
            old(self).remaining_spec() < 2 ==> r == Err::<u16, Error>(Error::ShortRead) && final(self).position() == old(self).position(),
    {
        if self.data.len() - self.pos >= 2 {
            let b0 = self.data[self.pos];
            let b1 = self.data[self.pos + 1];
            self.pos = self.pos + 2;
            Ok(b0 as u16 + 0x100 * (b1 as u16))
        } else {
            Err(Error::ShortRead)
        }
    }

    /// Reads a big-endian unsigned 16-bit value.
    pub fn read_be_u16(&mut self) -> (r: Result<u16, Error>)
        requires
            old(self).wf(),
        ensures
            final(self).wf(),
            final(self).bytes() == old(self).bytes(),
            final(self).seekable_spec() == old(self).seekable_spec(),
            old(self).remaining_spec() >= 2 ==> (r matches Ok(v) && v == be16(old(self).bytes(), old(self).position()) && final(self).position() == old(self).position() + 2),
            old(self).remaining_spec() < 2 ==> r == Err::<u16, Error>(Error::ShortRead) && final(self).position() == old(self).position(),
    {
        if self.data.len() - self.pos >= 2 {
            let b0 = self.data[self.pos];
            let b1 = self.data[self.pos + 1];
            self.pos = self.pos + 2;
            Ok(b1 as u16 + 0x100 * (b0 as u16))
        } else {
            Err(Error::ShortRead)
        }
    }

    /// Reads a little-endian unsigned 32-bit value.
    pub fn read_u32(&mut self) -> (r: Result<u32, Error>)
        requires
            old(self).wf(),
        ensures
            final(self).wf(),
            final(self).bytes() == old(self).bytes(),
            final(self).seekable_spec() == old(self).seekable_spec(),
            old(self).remaining_spec() >= 4 ==> (r matches Ok(v) && v == le32(old(self).bytes(), old(self).position()) && final(self).position() == old(self).position() + 4),
            old(self).remaining_spec() < 4 ==> r == Err::<u32, Error>(Error::ShortRead) && final(self).position() == old(self).position(),
    {
        if self.data.len() - self.pos >= 4 {
            let b0 = self.data[self.pos];
            let b1 = self.data[self.pos + 1];
            let b2 = self.data[self.pos + 2];
            let b3 = self.data[self.pos + 3];
            self.pos = self.pos + 4;
            Ok(b0 as u32 + 0x100 * (b1 as u32) + 0x10000 * (b2 as u32) + 0x1000000 * (b3 as u32))
        } else {
            Err(Error::ShortRead)
        }
    }

    /// Reads a big-endian unsigned 32-bit value.
    pub fn read_be_u32(&mut self) -> (r: Result<u32, Error>)
        requires
            old(self).wf(),
        ensures
            final(self).wf(),
            final(self).bytes() == old(self).bytes(),
            final(self).seekable_spec() == old(self).seekable_spec(),
            old(self).remaining_spec() >= 4 ==> (r matches Ok(v) && v == be32(old(self).bytes(), old(self).position()) && final(self).position() == old(self).position() + 4),
            old(self).remaining_spec() < 4 ==> r == Err::<u32, Error>(Error::ShortRead) && final(self).position() == old(self).position(),
    {
        if self.data.len() - self.pos >= 4 {
            let b0 = self.data[self.pos];
            let b1 = self.data[self.pos + 1];
            let b2 = self.data[self.pos + 2];
            let b3 = self.data[self.pos + 3];
            self.pos = self.pos + 4;
            Ok(b3 as u32 + 0x100 * (b2 as u32) + 0x10000 * (b1 as u32) + 0x1000000 * (b0 as u32))
        } else {
            Err(Error::ShortRead)
        }
    }

    /// Reads four raw bytes, the size of a chunk tag.
    pub fn read_quad_bytes(&mut self) -> (r: Result<[u8; 4], Error>)
        requires
            old(self).wf(),
        ensures
            final(self).wf(),
            final(self).bytes() == old(self).bytes(),
            final(self).seekable_spec() == old(self).seekable_spec(),
            old(self).remaining_spec() >= 4 ==> (r matches Ok(v) && v@ == old(self).bytes().subrange(old(self).position(), old(self).position() + 4) && final(self).position() == old(self).position() + 4),
            old(self).remaining_spec() < 4 ==> r == Err::<[u8; 4], Error>(Error::ShortRead)
                && final(self).position() == old(self).position(),
    {
        if self.data.len() - self.pos >= 4 {
            let b0 = self.data[self.pos];
            let b1 = self.data[self.pos + 1];
            let b2 = self.data[self.pos + 2];
            let b3 = self.data[self.pos + 3];
            self.pos = self.pos + 4;
            let q = [b0, b1, b2, b3];
            proof {
                assert(q@ =~= old(self).bytes().subrange(
                    old(self).position(),
                    old(self).position() + 4,
                ));
            }
            Ok(q)
        } else {
            Err(Error::ShortRead)
        }
    }

    /// Reads exactly `n` raw bytes.
    pub fn read_bytes(&mut self, n: usize) -> (r: Result<Vec<u8>, Error>)
        requires
            old(self).wf(),
        ensures
            final(self).wf(),
            final(self).bytes() == old(self).bytes(),
            final(self).seekable_spec() == old(self).seekable_spec(),
            old(self).remaining_spec() >= n ==> r is Ok && r->Ok_0@.len() == n && r->Ok_0@ == old(self).bytes().subrange(old(self).position(), old(self).position() + n) && final(self).position() == old(self).position() + n,
            old(self).remaining_spec() < n ==> r == Err::<Vec<u8>, Error>(Error::ShortRead)
                && final(self).position() == old(self).position(),
    {
        if self.data.len() - self.pos >= n {
            let mut v: Vec<u8> = Vec::new();
            let mut i: usize = 0;
            while i < n
                invariant
                    i <= n,
                    self.pos + n <= self.data.len(),
                    v@ == self.data@.subrange(self.pos as int, self.pos + i),
                decreases n - i,
            {
                v.push(self.data[self.pos + i]);
                proof {
                    assert(v@ =~= self.data@.subrange(self.pos as int, self.pos + i + 1));
                }
                i = i + 1;
            }
            self.pos = self.pos + n;
            Ok(v)
        } else {
            Err(Error::ShortRead)
        }
    }

    /// Discards the next `n` bytes by moving the cursor forward over them.
    pub fn ignore_bytes(&mut self, n: u64) -> (r: Result<(), Error>)
        requires
            old(self).wf(),
        ensures
            final(self).wf(),
            final(self).bytes() == old(self).bytes(),
            final(self).seekable_spec() == old(self).seekable_spec(),
            old(self).remaining_spec() >= n ==> r == Ok::<(), Error>(()) && final(self).position()
                == old(self).position() + n,
            old(self).remaining_spec() < n ==> r == Err::<(), Error>(Error::ShortRead) && final(self).position() == old(self).position(),
    {
        if (self.data.len() - self.pos) as u64 >= n {
            self.pos = self.pos + n as usize;
            Ok(())
        } else {
            Err(Error::ShortRead)
        }
    }

    /// Moves the cursor to the absolute offset `p`, clamped to the end of
    /// the byte string. Fails on a source that is not seekable, leaving the
    /// cursor unchanged.
    pub fn seek_to(&mut self, p: u64) -> (r: Result<(), Error>)
        requires
            old(self).wf(),
        ensures
            final(self).wf(),
            final(self).bytes() == old(self).bytes(),
            final(self).seekable_spec() == old(self).seekable_spec(),
            old(self).seekable_spec() ==> r == Ok::<(), Error>(()) && final(self).position() == (
            if p <= old(self).bytes().len() {
                p as int
            } else {
                old(self).bytes().len() as int
            }),
            !old(self).seekable_spec() ==> r == Err::<(), Error>(
                Error::Seek(crate::errors::SeekErrorKind::ForwardOnly),
            ) && final(self).position() == old(self).position(),
    {
        if self.seekable {
            if p <= self.data.len() as u64 {
                self.pos = p as usize;
            } else {
                self.pos = self.data.len();
            }
            Ok(())
        } else {
            Err(Error::Seek(crate::errors::SeekErrorKind::ForwardOnly))
        }
    }

    /// Moves the cursor forward to the absolute offset `p`, clamped to the
    /// end of the byte string; a `p` at or behind the cursor leaves it
    /// unchanged. Never fails: forward movement only discards bytes.
    pub fn skip_to(&mut self, p: u64)
        requires
            old(self).wf(),
        ensures
            final(self).wf(),
            final(self).bytes() == old(self).bytes(),
            final(self).seekable_spec() == old(self).seekable_spec(),
            final(self).position() == (if p as int <= old(self).position() {
                old(self).position()
            } else if p <= old(self).bytes().len() {
                p as int
            } else {
                old(self).bytes().len() as int
            }),
    {
        if p > self.pos as u64 {
            if p <= self.data.len() as u64 {
                self.pos = p as usize;
            } else {
                self.pos = self.data.len();
            }
        }
    }
}

} // verus!
