//! In-memory byte source and sink.
//!
//! The readers in this library operate over an archive held in memory: a
//! `ByteSource` is a byte buffer with a cursor, offering the read and seek
//! operations the parsers need, and a `ByteSink` collects the bytes a copy
//! operation produces. Real I/O (files, sockets) stays outside the library;
//! callers load the archive bytes first and hand them in.

use vstd::prelude::*;

use crate::error::ZipError;

verus! {

/// Little-endian value of the two bytes of `s` starting at `i`.
pub open spec fn le16(s: Seq<u8>, i: int) -> int {
    s[i] as int + 0x100 * (s[i + 1] as int)
}

/// Little-endian value of the four bytes of `s` starting at `i`.
pub open spec fn le32(s: Seq<u8>, i: int) -> int {
    le16(s, i) + 0x10000 * le16(s, i + 2)
}

/// Copies `v[start..end]` into a fresh vector.
pub(crate) fn copy_range(v: &Vec<u8>, start: usize, end: usize) -> (r: Vec<u8>)
    requires
        start <= end <= v@.len(),
    ensures
        r@ == v@.subrange(start as int, end as int),
{
    let mut out: Vec<u8> = Vec::new();
    let mut i: usize = start;
    proof {
        assert(out@ =~= v@.subrange(start as int, start as int));
    }
    while i < end
        invariant
            start <= i <= end <= v@.len(),
            out@ == v@.subrange(start as int, i as int),
        decreases end - i,
    {
        out.push(v[i]);
        i = i + 1;
        proof {
            assert(out@ =~= v@.subrange(start as int, i as int));
        }
    }
    out
}

/// A seekable byte source: the archive's bytes and a read position.
pub struct ByteSource {
    pub data: Vec<u8>,
    pub pos: usize,
}

impl ByteSource {
    /// The position never runs past the end of the data.
    pub open spec fn wf(self) -> bool {
        self.pos <= self.data@.len()
    }

    /// All bytes the source holds.
    pub open spec fn bytes(self) -> Seq<u8> {
        self.data@
    }

    /// The current read position.
    pub open spec fn position(self) -> int {
        self.pos as int
    }

    /// The bytes from the current position to the end.
    pub open spec fn remaining(self) -> Seq<u8> {
        self.data@.skip(self.pos as int)
    }

    /// Wraps a byte buffer as a source positioned at its start.
    pub fn new(data: Vec<u8>) -> (r: ByteSource)
        ensures
            r.wf(),
            r.bytes() == data@,
            r.position() == 0,
    {
        ByteSource { data, pos: 0 }
    }

    /// Number of bytes the source holds in all.
    pub fn len(&self) -> (r: usize)
        ensures
            r == self.bytes().len(),
    {
        self.data.len()
    }

    /// The current read position.
    pub fn position_exec(&self) -> (r: usize)
        ensures
            r == self.position(),
    {
        self.pos
    }

    /// Number of bytes left after the current position.
    pub fn remaining_len(&self) -> (r: usize)
        requires
            self.wf(),
        ensures
            r == self.remaining().len(),
    {
        self.data.len() - self.pos
    }

    /// Returns the wrapped buffer, giving the bytes back to the caller.
    pub fn into_vec(self) -> (r: Vec<u8>)
        ensures
            r@ == self.bytes(),
    {
        self.data
    }

    /// Moves the read position to `p`; fails without moving when `p` lies
    /// beyond the end of the data.
    pub fn seek(&mut self, p: usize) -> (r: Result<(), ZipError>)
        requires
            old(self).wf(),
        ensures
            final(self).wf(),
            final(self).bytes() == old(self).bytes(),
            p <= old(self).bytes().len() ==> r is Ok && final(self).position() == p,
            p > old(self).bytes().len() ==> r == Err::<(), ZipError>(ZipError::UnexpectedEOF)
                && *final(self) == *old(self),
    {
        if p <= self.data.len() {
            self.pos = p;
            Ok(())
        } else {
            Err(ZipError::UnexpectedEOF)
        }
    }

    /// Reads the next `n` bytes, advancing the position; fails without moving
    /// when fewer than `n` bytes remain.
    pub fn read_bytes(&mut self, n: usize) -> (r: Result<Vec<u8>, ZipError>)
        requires
            old(self).wf(),
        ensures
            final(self).wf(),
            final(self).bytes() == old(self).bytes(),
            n <= old(self).remaining().len() ==> (r matches Ok(v)
                && v@ == old(self).bytes().subrange(
                    old(self).position(),
                    old(self).position() + n,
                )
                && final(self).position() == old(self).position() + n),
            n > old(self).remaining().len() ==> r == Err::<Vec<u8>, ZipError>(
                ZipError::UnexpectedEOF,
            ) && *final(self) == *old(self),
    {
        if n <= self.data.len() - self.pos {
            let out = copy_range(&self.data, self.pos, self.pos + n);
            self.pos = self.pos + n;
            Ok(out)
        } else {
            Err(ZipError::UnexpectedEOF)
        }
    }

    /// Advances the position by `n` bytes; fails without moving when fewer
    /// than `n` bytes remain.
    pub fn skip_bytes(&mut self, n: usize) -> (r: Result<(), ZipError>)
        requires
            old(self).wf(),
        ensures
            final(self).wf(),
            final(self).bytes() == old(self).bytes(),
            n <= old(self).remaining().len() ==> r is Ok
                && final(self).position() == old(self).position() + n,
            n > old(self).remaining().len() ==> r == Err::<(), ZipError>(ZipError::UnexpectedEOF)
                && *final(self) == *old(self),
    {
        if n <= self.data.len() - self.pos {
            self.pos = self.pos + n;
            Ok(())
        } else {
            Err(ZipError::UnexpectedEOF)
        }
    }

    /// Reads a little-endian 16-bit value, advancing the position by two;
    /// fails without moving when fewer than two bytes remain.
    pub fn read_u16(&mut self) -> (r: Result<u16, ZipError>)
        requires
            old(self).wf(),
        ensures
            final(self).wf(),
            final(self).bytes() == old(self).bytes(),
            old(self).remaining().len() >= 2 ==> (r matches Ok(v)
                && v as int == le16(old(self).bytes(), old(self).position())
                && final(self).position() == old(self).position() + 2),
            old(self).remaining().len() < 2 ==> r == Err::<u16, ZipError>(ZipError::UnexpectedEOF)
                && *final(self) == *old(self),
    {
        if self.data.len() - self.pos >= 2 {
            let b0 = self.data[self.pos];
            let b1 = self.data[self.pos + 1];
            self.pos = self.pos + 2;
            Ok(b0 as u16 + 0x100 * (b1 as u16))
        } else {
            Err(ZipError::UnexpectedEOF)
        }
    }

    /// Reads a little-endian 32-bit value, advancing the position by four;
    /// fails without moving when fewer than four bytes remain.
    pub fn read_u32(&mut self) -> (r: Result<u32, ZipError>)
        requires
            old(self).wf(),
        ensures
            final(self).wf(),
            final(self).bytes() == old(self).bytes(),
            old(self).remaining().len() >= 4 ==> (r matches Ok(v)
                && v as int == le32(old(self).bytes(), old(self).position())
                && final(self).position() == old(self).position() + 4),
            old(self).remaining().len() < 4 ==> r == Err::<u32, ZipError>(ZipError::UnexpectedEOF)
                && *final(self) == *old(self),
    {
        if self.data.len() - self.pos >= 4 {
            let b0 = self.data[self.pos];
            let b1 = self.data[self.pos + 1];
            let b2 = self.data[self.pos + 2];
            let b3 = self.data[self.pos + 3];
            self.pos = self.pos + 4;
            Ok(b0 as u32 + 0x100 * (b1 as u32) + 0x10000 * (b2 as u32) + 0x1000000 * (b3 as u32))
        } else {
            Err(ZipError::UnexpectedEOF)
        }
    }
}

/// A byte sink that collects everything written to it, in order.
pub struct ByteSink {
    pub data: Vec<u8>,
}

impl ByteSink {
    /// All bytes written so far, in write order.
    pub open spec fn written(self) -> Seq<u8> {
        self.data@
    }

    /// An empty sink.
    pub fn new() -> (r: ByteSink)
        ensures
            r.written() == Seq::<u8>::empty(),
    {
        ByteSink { data: Vec::new() }
    }

    /// Appends all of `bytes` to the sink.
    pub fn write_all(&mut self, bytes: &Vec<u8>)
        ensures
            final(self).written() == old(self).written() + bytes@,
    {
        let mut i: usize = 0;
        proof {
            assert(old(self).written() + bytes@.take(0) =~= old(self).written());
        }
        while i < bytes.len()
            invariant
                i <= bytes@.len(),
                self.written() == old(self).written() + bytes@.take(i as int),
            decreases bytes@.len() - i,
        {
            self.data.push(bytes[i]);
            i = i + 1;
            proof {
                assert(old(self).written() + bytes@.take(i as int) =~= self.written());
            }
        }
        proof {
            assert(old(self).written() + bytes@.take(bytes@.len() as int) =~= old(self).written()
                + bytes@);
        }
    }

    /// Hands the collected bytes back.
    pub fn into_vec(self) -> (r: Vec<u8>)
        ensures
            r@ == self.written(),
    {
        self.data
    }
}

} // verus!
