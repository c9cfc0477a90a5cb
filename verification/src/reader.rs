//! The CRC-verifying entry read path.
//!
//! A `ZipEntryReader` turns one entry's decoded bytes into a verifiable
//! stream: every byte it hands out is fed to a CRC32 accumulator first, a
//! zero-byte read under normal termination marks the reader fully consumed,
//! and the drain operations end with a checksum comparison against the
//! entry's recorded value.

use vstd::prelude::*;

use crate::codec::CompressionReader;
use crate::crc::{crc32_of, Crc32};
use crate::entry::ZipEntry;
use crate::error::ZipError;
use crate::io::ByteSink;
use crate::text::{string_from_utf8, utf8_chars_of};

verus! {

/// Reads one entry's content, accumulating a checksum over every byte
/// produced.
pub struct ZipEntryReader {
    pub entry: ZipEntry,
    pub reader: CompressionReader,
    pub hasher: Crc32,
    pub consumed: bool,
    /// Whether this reader came from a forward-only source, where releasing
    /// it with unread bytes desynchronizes all later parsing.
    pub stream: bool,
}

impl ZipEntryReader {
    /// The checksum accumulator has absorbed exactly the bytes handed out.
    pub open spec fn wf(self) -> bool {
        &&& self.reader.wf()
        &&& self.hasher.accumulated() == self.reader.produced()
    }

    /// The decoded bytes already handed to the caller.
    pub open spec fn produced(self) -> Seq<u8> {
        self.reader.produced()
    }

    /// The decoded bytes not yet handed to the caller.
    pub open spec fn remaining(self) -> Seq<u8> {
        self.reader.remaining()
    }

    /// The entry's whole decoded content, read or not.
    pub open spec fn content(self) -> Seq<u8> {
        self.produced() + self.remaining()
    }

    /// No read of this reader can fail any more (the payload is stored or
    /// already decoded).
    pub open spec fn infallible(self) -> bool {
        self.reader.infallible()
    }

    /// Reads succeed: the payload is already decoded, or its compressed
    /// range decodes.
    pub open spec fn can_read(self) -> bool {
        self.reader.can_read()
    }

    /// Builds a reader over a decoder that has produced nothing yet.
    pub fn from_raw(entry: ZipEntry, reader: CompressionReader, stream: bool) -> (r: Self)
        requires
            reader.wf(),
            reader.produced() == Seq::<u8>::empty(),
        ensures
            r.wf(),
            r.entry == entry,
            r.reader == reader,
            r.consumed == false,
            r.stream == stream,
            r.remaining() == reader.remaining(),
    {
        ZipEntryReader { entry, reader, hasher: Crc32::new(), consumed: false, stream }
    }

    /// The entry this reader serves.
    pub fn entry(&self) -> (r: &ZipEntry)
        ensures
            r == &self.entry,
    {
        &self.entry
    }

    /// Whether a read has observed the decoded stream's end.
    pub fn consumed(&self) -> (r: bool)
        ensures
            r == self.consumed,
    {
        self.consumed
    }

    /// Produces up to `limit` decoded bytes, feeding each into the checksum
    /// accumulator; an empty result marks the stream's logical end and sets
    /// the consumed flag. A failed read changes nothing, so it never falsely
    /// claims consumption.
    pub fn read(&mut self, limit: usize) -> (r: Result<Vec<u8>, ZipError>)
        requires
            old(self).wf(),
        ensures
            final(self).wf(),
            final(self).entry == old(self).entry,
            final(self).stream == old(self).stream,
            old(self).infallible() ==> r is Ok,
            (r is Ok) <==> old(self).can_read(),
            r matches Ok(v) ==> {
                &&& v@.len() == if limit as int <= old(self).remaining().len() {
                    limit as int
                } else {
                    old(self).remaining().len() as int
                }
                &&& v@ == old(self).remaining().take(v@.len() as int)
                &&& final(self).produced() == old(self).produced() + v@
                &&& final(self).remaining() == old(self).remaining().skip(v@.len() as int)
                &&& final(self).consumed == (old(self).consumed || v@.len() == 0)
                &&& final(self).infallible()
            },
            r matches Err(e) ==> e == ZipError::UpstreamReadError && *final(self) == *old(self),
    {
        let chunk = match self.reader.read(limit) {
            Ok(c) => c,
            Err(e) => {
                return Err(e);
            },
        };
        self.hasher.update(&chunk);
        if chunk.len() == 0 {
            self.consumed = true;
        }
        Ok(chunk)
    }

    /// Compares the accumulated checksum against the entry's recorded one and
    /// resets the accumulator — one comparison per accumulation.
    pub fn compare_crc(&mut self) -> (r: bool)
        ensures
            r == (old(self).entry.crc32 == crc32_of(old(self).hasher.accumulated())),
            final(self).hasher.accumulated() == Seq::<u8>::empty(),
            final(self).entry == old(self).entry,
            final(self).reader == old(self).reader,
            final(self).consumed == old(self).consumed,
            final(self).stream == old(self).stream,
    {
        let digest = self.hasher.digest();
        self.hasher.reset();
        self.entry.crc32 == digest
    }

    /// Reads until the stream's end, returning everything left in one buffer.
    fn drain(&mut self) -> (r: Result<Vec<u8>, ZipError>)
        requires
            old(self).wf(),
        ensures
            final(self).wf(),
            final(self).entry == old(self).entry,
            final(self).stream == old(self).stream,
            old(self).infallible() ==> r is Ok,
            (r is Ok) <==> old(self).can_read(),
            r matches Ok(v) ==> {
                &&& v@ == old(self).remaining()
                &&& final(self).produced() == old(self).produced() + v@
                &&& final(self).remaining() == Seq::<u8>::empty()
                &&& final(self).consumed
            },
            r matches Err(e) ==> e == ZipError::UpstreamReadError && *final(self) == *old(self),
    {
        let cap: usize = if self.entry.uncompressed_size <= (usize::MAX as u64) {
            self.entry.uncompressed_size as usize
        } else {
            0
        };
        let mut out: Vec<u8> = Vec::with_capacity(cap);
        let mut finished = false;
        proof {
            assert(out@ =~= old(self).remaining().take(0));
            assert(old(self).produced() + out@ =~= self.produced());
            assert(old(self).remaining().skip(0) =~= self.remaining());
        }
        while !finished
            invariant
                self.wf(),
                self.entry == old(self).entry,
                self.stream == old(self).stream,
                out@.len() <= old(self).remaining().len(),
                out@ == old(self).remaining().take(out@.len() as int),
                self.produced() == old(self).produced() + out@,
                self.remaining() == old(self).remaining().skip(out@.len() as int),
                self.infallible() || (out@.len() == 0 && *self == *old(self)),
                *self == *old(self) || old(self).can_read(),
                finished ==> self.remaining().len() == 0 && self.consumed && old(self).can_read(),
            decreases
                old(self).remaining().len() - out@.len() + (if finished {
                    0int
                } else {
                    1int
                }),
        {
            let mut chunk = match self.read(65536) {
                Ok(c) => c,
                Err(e) => {
                    return Err(e);
                },
            };
            if chunk.len() == 0 {
                finished = true;
            } else {
                proof {
                    assert(old(self).remaining().take(out@.len() as int) + old(
                        self,
                    ).remaining().skip(out@.len() as int).take(chunk@.len() as int)
                        =~= old(self).remaining().take(out@.len() + chunk@.len() as int));
                    assert(old(self).remaining().skip(out@.len() as int).skip(
                        chunk@.len() as int,
                    ) =~= old(self).remaining().skip(out@.len() + chunk@.len() as int));
                    assert((old(self).produced() + out@) + chunk@ =~= old(self).produced() + (out@
                        + chunk@));
                }
                out.append(&mut chunk);
            }
        }
        proof {
            assert(out@ =~= old(self).remaining());
        }
        Ok(out)
    }

    /// Reads all remaining bytes until the stream's end and then checks the
    /// checksum; succeeds with the bytes exactly when the recorded checksum
    /// equals the one computed over the entry's whole produced content.
    pub fn read_to_end_crc(self) -> (r: Result<Vec<u8>, ZipError>)
        requires
            self.wf(),
        ensures
            (r is Ok) <==> (self.can_read() && crc32_of(self.content()) == self.entry.crc32),
            r matches Ok(v) ==> v@ == self.remaining(),
            (r == Err::<Vec<u8>, ZipError>(ZipError::UpstreamReadError)) <==> !self.can_read(),
            (r == Err::<Vec<u8>, ZipError>(ZipError::CRC32CheckError)) <==> (self.can_read()
                && crc32_of(self.content()) != self.entry.crc32),
    {
        let mut this = self;
        let out = match this.drain() {
            Ok(v) => v,
            Err(e) => {
                return Err(e);
            },
        };
        if this.compare_crc() {
            Ok(out)
        } else {
            Err(ZipError::CRC32CheckError)
        }
    }

    /// Reads all remaining bytes as UTF-8 text and then checks the checksum;
    /// succeeds exactly when the bytes form valid UTF-8 and the checksum over
    /// the entry's whole produced content matches the recorded one.
    pub fn read_to_string_crc(self) -> (r: Result<String, ZipError>)
        requires
            self.wf(),
        ensures
            (r is Ok) <==> (self.can_read() && utf8_chars_of(self.remaining()) is Some
                && crc32_of(self.content()) == self.entry.crc32),
            r matches Ok(s) ==> utf8_chars_of(self.remaining()) == Some(s@),
            (r == Err::<String, ZipError>(ZipError::UpstreamReadError)) <==> !self.can_read(),
            (r == Err::<String, ZipError>(ZipError::StringNotUtf8)) <==> (self.can_read()
                && utf8_chars_of(self.remaining()) is None),
            (r == Err::<String, ZipError>(ZipError::CRC32CheckError)) <==> (self.can_read()
                && utf8_chars_of(self.remaining()) is Some && crc32_of(self.content())
                != self.entry.crc32),
    {
        let mut this = self;
        let out = match this.drain() {
            Ok(v) => v,
            Err(e) => {
                return Err(e);
            },
        };
        let text = match string_from_utf8(out) {
            Ok(s) => s,
            Err(e) => {
                return Err(e);
            },
        };
        if this.compare_crc() {
            Ok(text)
        } else {
            Err(ZipError::CRC32CheckError)
        }
    }

    /// Copies all remaining bytes into the sink in chunks of the caller's
    /// chosen size, then checks the checksum. The bytes delivered and the
    /// verdict do not depend on the chunk size; bytes already written stay in
    /// the sink even when the checksum check fails.
    #[verifier::loop_isolation(false)]
    pub fn copy_to_end_crc(self, writer: &mut ByteSink, buffer: usize) -> (r: Result<
        (),
        ZipError,
    >)
        requires
            self.wf(),
            buffer >= 1,
        ensures
            (r is Ok) <==> (self.can_read() && crc32_of(self.content()) == self.entry.crc32),
            (r == Err::<(), ZipError>(ZipError::UpstreamReadError)) <==> !self.can_read(),
            (r == Err::<(), ZipError>(ZipError::CRC32CheckError)) <==> (self.can_read()
                && crc32_of(self.content()) != self.entry.crc32),
            self.can_read() ==> final(writer).written() == old(writer).written()
                + self.remaining(),
            !self.can_read() ==> final(writer).written() == old(writer).written(),
    {
        let mut this = self;
        let ghost orig = this;
        let ghost mut copied: Seq<u8> = Seq::empty();
        let mut finished = false;
        proof {
            assert(copied =~= orig.remaining().take(0));
            assert(orig.produced() + copied =~= this.produced());
            assert(orig.remaining().skip(0) =~= this.remaining());
            assert(old(writer).written() + copied =~= writer.written());
        }
        while !finished
            invariant
                this.wf(),
                this.entry == orig.entry,
                buffer >= 1,
                copied.len() <= orig.remaining().len(),
                copied == orig.remaining().take(copied.len() as int),
                this.produced() == orig.produced() + copied,
                this.remaining() == orig.remaining().skip(copied.len() as int),
                this.infallible() || (copied.len() == 0 && this == orig),
                this == orig || orig.can_read(),
                writer.written() == old(writer).written() + copied,
                finished ==> this.remaining().len() == 0 && orig.can_read(),
            decreases
                orig.remaining().len() - copied.len() + (if finished {
                    0int
                } else {
                    1int
                }),
        {
            let chunk = match this.read(buffer) {
                Ok(c) => c,
                Err(e) => {
                    proof {
                        assert(!this.infallible());
                        assert(this == orig);
                        assert(copied.len() == 0);
                        assert(writer.written() =~= old(writer).written());
                    }
                    return Err(e);
                },
            };
            if chunk.len() == 0 {
                finished = true;
            } else {
                writer.write_all(&chunk);
                proof {
                    assert(orig.remaining().take(copied.len() as int) + orig.remaining().skip(
                        copied.len() as int,
                    ).take(chunk@.len() as int) =~= orig.remaining().take(
                        copied.len() + chunk@.len() as int,
                    ));
                    assert(orig.remaining().skip(copied.len() as int).skip(chunk@.len() as int)
                        =~= orig.remaining().skip(copied.len() + chunk@.len() as int));
                    assert((orig.produced() + copied) + chunk@ =~= orig.produced() + (copied
                        + chunk@));
                    assert((old(writer).written() + copied) + chunk@ =~= old(writer).written() + (
                    copied + chunk@));
                    copied = copied + chunk@;
                }
            }
        }
        proof {
            assert(copied =~= orig.remaining());
        }
        if this.compare_crc() {
            Ok(())
        } else {
            Err(ZipError::CRC32CheckError)
        }
    }
}

} // verus!
