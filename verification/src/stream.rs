//! The sequential reader over a non-seekable, forward-only source.
//!
//! A forward-only source can never be repositioned, so entries must be
//! opened and fully resolved strictly in on-disk order. The reader encodes
//! that as two disjoint states that each own the source outright: `Ready`
//! (positioned exactly at the next local file header, or at the central
//! directory meaning no entries remain) and `Reading` (streaming one entry's
//! payload). Every transition consumes the old state and moves the source
//! into the new one, and the states hide their fields, so no operation of a
//! later entry is reachable until the current entry is resolved by `done` or
//! `skip`.
//!
//! Metadata limitation: only the local header is reachable without seeking,
//! so checksum, sizes and attributes read as defaulted/zero whenever the
//! writer deferred them to a trailing data descriptor; callers must treat
//! them as provisional until the entry is fully consumed.

use vstd::prelude::*;

use crate::codec::{decoded_of, CompressionReader};
use crate::entry::ZipEntry;
use crate::error::ZipError;
use crate::io::ByteSource;
use crate::io::le16;
use crate::io::le32;
use crate::parse::{central_directory_at, lfh, lfh_matches, lfh_total_len, lfh_well_formed};
use crate::reader::ZipEntryReader;

verus! {

/// The source stands exactly at the next local file header, or at the
/// central directory.
pub struct Ready(ByteSource);

/// One entry's payload is being streamed; the source, already advanced past
/// that payload, waits for the entry to be resolved.
pub struct Reading(ZipEntryReader, ZipEntry, ByteSource);

/// A ZIP reader over a non-seekable source, in state `S`.
pub struct ZipFileReader<S>(S);

/// The payload byte range that starts at `hend` and carries `csize` bytes,
/// truncated at the source's end as a bounded read would be.
pub open spec fn payload_range(s: Seq<u8>, hend: int, csize: int) -> Seq<u8> {
    if hend + csize <= s.len() {
        s.subrange(hend, hend + csize)
    } else {
        s.subrange(hend, s.len() as int)
    }
}

/// Where the entry whose local file header stands at `p` ends: after the
/// header and its bounded payload of `csize` bytes.
pub open spec fn entry_end(s: Seq<u8>, p: int, csize: int) -> int {
    p + lfh_total_len(s, p) + payload_range(s, p + lfh_total_len(s, p), csize).len()
}

/// The local file headers from `p` to `end` carry exactly the names
/// `names`, in on-disk order, each header followed by its bounded payload.
pub open spec fn names_walk(s: Seq<u8>, p: int, names: Seq<Seq<char>>, end: int) -> bool
    decreases names.len(),
{
    if names.len() == 0 {
        end == p
    } else {
        &&& crate::text::utf8_chars_of(s.subrange(p + 30, p + 30 + le16(s, p + 26))) == Some(
            names[0],
        )
        &&& names_walk(s, entry_end(s, p, le32(s, p + 18)), names.subrange(1, names.len() as int), end)
    }
}

/// The names are exactly those of the consecutive local file headers from
/// `p` up to the central directory.
pub open spec fn names_walk_complete(s: Seq<u8>, p: int, names: Seq<Seq<char>>) -> bool {
    exists|end: int| #[trigger] names_walk(s, p, names, end) && central_directory_at(s, end)
}

/// Walking one more header extends the walk by that header's name.
proof fn lemma_names_walk_push(s: Seq<u8>, p: int, names: Seq<Seq<char>>, end: int, nm: Seq<char>)
    requires
        names_walk(s, p, names, end),
        crate::text::utf8_chars_of(s.subrange(end + 30, end + 30 + le16(s, end + 26))) == Some(nm),
    ensures
        names_walk(s, p, names.push(nm), entry_end(s, end, le32(s, end + 18))),
    decreases names.len(),
{
    if names.len() == 0 {
        assert(end == p);
        assert(names.push(nm)[0] == nm);
        assert(names.push(nm).subrange(1, 1) =~= Seq::<Seq<char>>::empty());
        assert(names_walk(
            s,
            entry_end(s, p, le32(s, p + 18)),
            names.push(nm).subrange(1, 1),
            entry_end(s, end, le32(s, end + 18)),
        ));
    } else {
        assert(names.push(nm)[0] == names[0]);
        assert(names.push(nm).subrange(1, names.len() as int + 1) =~= names.subrange(
            1,
            names.len() as int,
        ).push(nm));
        lemma_names_walk_push(s, entry_end(s, p, le32(s, p + 18)), names.subrange(1, names.len() as int), end, nm);
        assert(names_walk(s, p, names.push(nm), entry_end(s, end, le32(s, end + 18))));
    }
}

/// Drains an archive sequentially, returning every entry's name in on-disk
/// order: each name comes from one local file header, each header follows
/// the previous entry's bounded payload, and the walk ends at the central
/// directory.
#[verifier::loop_isolation(false)]
pub fn list_names(source: ByteSource) -> (r: Result<Vec<String>, ZipError>)
    requires
        source.wf(),
    ensures
        r matches Ok(ns) ==> names_walk_complete(
            source.bytes(),
            source.position(),
            ns.deep_view(),
        ),
{
    let ghost s = source.bytes();
    let ghost p0 = source.position();
    let mut names: Vec<String> = Vec::new();
    let mut ready = ZipFileReader::new(source);
    proof {
        assert(names.deep_view() =~= Seq::<Seq<char>>::empty());
        assert(names_walk(s, p0, names.deep_view(), p0));
    }
    loop
        invariant
            ready.source().wf(),
            ready.source().bytes() == s,
            names_walk(s, p0, names.deep_view(), ready.source().position()),
        decreases s.len() - ready.source().position(),
    {
        let ghost p = ready.source().position();
        let ghost dv = names.deep_view();
        let z = match ready.next_entry() {
            Ok(Some(z)) => z,
            Ok(None) => {
                proof {
                    assert(central_directory_at(s, p));
                    assert(names_walk(s, p0, names.deep_view(), p));
                    assert(names_walk_complete(s, p0, names.deep_view()));
                }
                return Ok(names);
            },
            Err(e) => {
                return Err(e);
            },
        };
        let name = z.entry().filename().clone();
        proof {
            lemma_names_walk_push(s, p0, dv, p, name@);
        }
        names.push(name);
        proof {
            assert(names.deep_view() =~= dv.push(name@));
        }
        ready = match z.skip() {
            Ok(rd) => rd,
            Err(e) => {
                return Err(e);
            },
        };
    }
}

impl ZipFileReader<Ready> {
    /// The wrapped source.
    pub closed spec fn source(self) -> ByteSource {
        self.0.0
    }

    /// Wraps a forward-only source, assumed positioned at the first local
    /// file header.
    pub fn new(reader: ByteSource) -> (r: Self)
        requires
            reader.wf(),
        ensures
            r.source() == reader,
    {
        ZipFileReader(Ready(reader))
    }

    /// Opens the next entry for reading if the central directory has not yet
    /// been reached: parses one local file header at the current position
    /// and bounds the entry's payload by its recorded compressed size.
    pub fn next_entry(self) -> (r: Result<Option<ZipFileReader<Reading>>, ZipError>)
        requires
            self.source().wf(),
        ensures
            r matches Ok(o) ==> o matches Some(z) ==> {
                let s = self.source().bytes();
                let p = self.source().position();
                let hend = p + lfh_total_len(s, p);
                &&& lfh_matches(s, p, z.metadata())
                &&& z.metadata().wf()
                &&& z.current().wf()
                &&& z.current().stream
                &&& !z.current().consumed
                &&& z.current().entry.equiv(z.metadata())
                &&& z.current().produced() == Seq::<u8>::empty()
                &&& z.current().remaining() == decoded_of(
                    z.metadata().compression,
                    payload_range(s, hend, z.metadata().compressed_size as int),
                )
                &&& z.rest().wf()
                &&& z.rest().bytes() == s
                &&& z.rest().position() == hend + payload_range(
                    s,
                    hend,
                    z.metadata().compressed_size as int,
                ).len()
            },
            r == Ok::<Option<ZipFileReader<Reading>>, ZipError>(None) ==> central_directory_at(
                self.source().bytes(),
                self.source().position(),
            ),
            central_directory_at(self.source().bytes(), self.source().position()) ==> (r matches
            Ok(o) && o is None),
            lfh_well_formed(self.source().bytes(), self.source().position()) ==> (r matches Ok(o)
                && o is Some),
            r matches Err(e) ==> (e is UnexpectedEOF || e is UnexpectedHeaderError
                || e is UnsupportedCompressionError || e is StringNotUtf8
                || e is StoredSizeMismatchError),
    {
        let ZipFileReader(Ready(mut src)) = self;
        let entry = match lfh(&mut src) {
            Ok(Some(e)) => e,
            Ok(None) => {
                return Ok(None);
            },
            Err(e) => {
                return Err(e);
            },
        };
        let avail = src.remaining_len();
        let n: usize = if entry.compressed_size <= avail as u64 {
            entry.compressed_size as usize
        } else {
            avail
        };
        let payload = match src.read_bytes(n) {
            Ok(v) => v,
            Err(e) => {
                return Err(e);
            },
        };
        let decoder = CompressionReader::from_reader(&entry.compression, payload);
        let reader = ZipEntryReader::from_raw(entry.clone(), decoder, true);
        Ok(Some(ZipFileReader(Reading(reader, entry, src))))
    }
}

impl ZipFileReader<Reading> {
    /// The reader streaming the current entry's payload.
    pub closed spec fn current(self) -> ZipEntryReader {
        self.0.0
    }

    /// The current entry's metadata.
    pub closed spec fn metadata(self) -> ZipEntry {
        self.0.1
    }

    /// The source, already positioned past the current entry's payload.
    pub closed spec fn rest(self) -> ByteSource {
        self.0.2
    }

    /// The current entry's metadata, as the local header recorded it.
    pub fn entry(&self) -> (r: &ZipEntry)
        ensures
            *r == self.metadata(),
    {
        &self.0.1
    }

    /// The entry reader currently streaming the payload.
    pub fn reader(&mut self) -> (r: &mut ZipEntryReader)
        ensures
            *r == old(self).current(),
            final(self).current() == *final(r),
            final(self).metadata() == old(self).metadata(),
            final(self).rest() == old(self).rest(),
    {
        &mut self.0.0
    }

    /// Returns to the Ready state, requiring the entry to be fully consumed
    /// already: one unread trailing byte is a consistency error, never
    /// silently discarded. This call drains nothing on the caller's behalf.
    pub fn done(self) -> (r: Result<ZipFileReader<Ready>, ZipError>)
        requires
            self.current().wf(),
        ensures
            (r is Ok) <==> (self.current().can_read() && self.current().remaining().len() == 0),
            r matches Ok(z) ==> z.source() == self.rest(),
            (r == Err::<ZipFileReader<Ready>, ZipError>(ZipError::ConsistencyError)) <==> (
            self.current().can_read() && self.current().remaining().len() > 0),
            (r == Err::<ZipFileReader<Ready>, ZipError>(ZipError::UpstreamReadError)) <==> !self.current().can_read(),
    {
        let ZipFileReader(reading) = self;
        let Reading(mut zr, _entry, rest) = reading;
        let v = match zr.read(1) {
            Ok(v) => v,
            Err(e) => {
                return Err(e);
            },
        };
        if v.len() != 0 {
            return Err(ZipError::ConsistencyError);
        }
        Ok(ZipFileReader(Ready(rest)))
    }

    /// Drains any unread payload bytes in bounded chunks and returns to the
    /// Ready state; the source position is untouched, so the next header
    /// parse is unaffected by how much of this entry was read.
    #[verifier::loop_isolation(false)]
    pub fn skip(self) -> (r: Result<ZipFileReader<Ready>, ZipError>)
        requires
            self.current().wf(),
        ensures
            (r is Ok) <==> self.current().can_read(),
            r matches Ok(z) ==> z.source() == self.rest(),
            (r == Err::<ZipFileReader<Ready>, ZipError>(ZipError::UpstreamReadError)) <==> !self.current().can_read(),
    {
        let ZipFileReader(reading) = self;
        let Reading(mut zr, _entry, rest) = reading;
        let ghost orig = zr;
        let mut finished = false;
        while !finished
            invariant
                zr.wf(),
                zr.infallible() || zr == orig,
                zr == orig || orig.can_read(),
                finished ==> zr.remaining().len() == 0 && orig.can_read(),
            decreases
                zr.remaining().len() + (if finished {
                    0int
                } else {
                    1int
                }),
        {
            let v = match zr.read(2048) {
                Ok(v) => v,
                Err(e) => {
                    return Err(e);
                },
            };
            if v.len() == 0 {
                finished = true;
            }
        }
        Ok(ZipFileReader(Ready(rest)))
    }
}

} // verus!
