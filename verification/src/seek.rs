//! The random-access reader over a seekable source.
//!
//! The archive metadata is parsed once from the central directory; entries
//! may then be requested by index, in any order and repeatedly. Each request
//! reseeks the shared source to the entry's recorded header offset, skips
//! the local header (whose exact length a minimal read at that offset
//! determines), and bounds the payload by the recorded compressed size.

use vstd::prelude::*;

use crate::codec::{decoded_of, CompressionReader};
use crate::entry::ZipEntry;
use crate::error::ZipError;
use crate::file::ZipFile;
use crate::io::{le32, ByteSource};
use crate::parse::{archive_well_formed, lfh_matches, lfh_total_len, parses_to, LFH_SIGNATURE};
use crate::reader::ZipEntryReader;
use crate::stream::payload_range;

verus! {

/// Where the payload of entry `e` begins within archive `s`: after the
/// local file header at the entry's recorded offset.
pub open spec fn data_start(s: Seq<u8>, e: ZipEntry) -> int {
    e.offset + lfh_total_len(s, e.offset as int)
}

/// The stored payload bytes of entry `e` within archive `s`, truncated at
/// the archive's end.
pub open spec fn entry_data(s: Seq<u8>, e: ZipEntry) -> Seq<u8> {
    payload_range(s, data_start(s, e), e.compressed_size as int)
}

/// The decoded content entry `e` of archive `s` serves: a function of the
/// archive bytes and the entry's metadata alone.
pub open spec fn entry_content(s: Seq<u8>, e: ZipEntry) -> Seq<u8> {
    decoded_of(e.compression, entry_data(s, e))
}

/// The header at entry `e`'s offset is reachable and carries the local
/// file header signature.
pub open spec fn entry_header_ok(s: Seq<u8>, e: ZipEntry) -> bool {
    &&& e.offset + 30 <= s.len()
    &&& le32(s, e.offset as int) == LFH_SIGNATURE
    &&& data_start(s, e) <= s.len()
}

/// A ZIP reader over a seekable source.
pub struct ZipFileReader {
    pub reader: ByteSource,
    pub file: ZipFile,
}

impl ZipFileReader {
    /// The source is consistent and the metadata's entries are.
    pub open spec fn wf(self) -> bool {
        &&& self.reader.wf()
        &&& self.file.wf()
    }

    /// Parses the archive's metadata once from the source's central
    /// directory and keeps both together.
    pub fn new(reader: ByteSource) -> (r: Result<ZipFileReader, ZipError>)
        requires
            reader.wf(),
        ensures
            r matches Ok(z) ==> {
                &&& z.wf()
                &&& z.reader.bytes() == reader.bytes()
                &&& parses_to(reader.bytes(), z.file)
            },
            archive_well_formed(reader.bytes()) ==> r is Ok,
            r matches Err(e) ==> (e is UnableToLocateEOCDR || e is UnexpectedEOF
                || e is FeatureNotSupported || e is UnexpectedHeaderError
                || e is UnsupportedCompressionError || e is StringNotUtf8
                || e is StoredSizeMismatchError),
    {
        let mut rd = reader;
        let file = match crate::parse::file(&mut rd) {
            Ok(f) => f,
            Err(e) => {
                return Err(e);
            },
        };
        Ok(ZipFileReader { reader: rd, file })
    }

    /// Pairs a source with metadata already parsed from it, skipping the
    /// parse; that the two correspond is the caller's responsibility and is
    /// not verified.
    pub fn from_parts(reader: ByteSource, file: ZipFile) -> (r: ZipFileReader)
        ensures
            r.reader == reader,
            r.file == file,
    {
        ZipFileReader { reader, file }
    }

    /// This archive's metadata.
    pub fn file(&self) -> (r: &ZipFile)
        ensures
            r == &self.file,
    {
        &self.file
    }

    /// A mutable reference to the shared source.
    pub fn inner_mut(&mut self) -> (r: &mut ByteSource)
        ensures
            *r == old(self).reader,
            final(self).reader == *final(r),
            final(self).file == old(self).file,
    {
        &mut self.reader
    }

    /// Unwraps the reader, returning the underlying source.
    pub fn into_inner(self) -> (r: ByteSource)
        ensures
            r == self.reader,
    {
        self.reader
    }

    /// Returns a reader for the entry at `index`, reseeking the shared
    /// source to that entry's payload; any valid index may be requested, in
    /// any order and repeatedly, and the content served depends only on the
    /// archive bytes and that entry's metadata.
    pub fn entry(&mut self, index: usize) -> (r: Result<ZipEntryReader, ZipError>)
        requires
            old(self).wf(),
        ensures
            final(self).wf(),
            final(self).file == old(self).file,
            final(self).reader.bytes() == old(self).reader.bytes(),
            (index >= old(self).file.entries@.len()) <==> r == Err::<ZipEntryReader, ZipError>(
                ZipError::EntryIndexOutOfBounds,
            ),
            index >= old(self).file.entries@.len() ==> *final(self) == *old(self),
            r matches Ok(er) ==> {
                let s = old(self).reader.bytes();
                let e = old(self).file.entries@[index as int];
                &&& index < old(self).file.entries@.len()
                &&& er.entry.equiv(e)
                &&& er.wf()
                &&& !er.stream
                &&& !er.consumed
                &&& er.produced() == Seq::<u8>::empty()
                &&& er.remaining() == entry_content(s, e)
                &&& entry_header_ok(s, e)
            },
            index < old(self).file.entries@.len() && entry_header_ok(
                old(self).reader.bytes(),
                old(self).file.entries@[index as int],
            ) ==> r is Ok,
            r matches Err(e) ==> (e == ZipError::EntryIndexOutOfBounds || e
                == ZipError::UnexpectedEOF || e matches ZipError::UnexpectedHeaderError(_, _)),
    {
        if index >= self.file.entries.len() {
            return Err(ZipError::EntryIndexOutOfBounds);
        }
        let entry = self.file.entries[index].clone();
        let n = self.reader.len();
        if entry.offset > n as u64 {
            return Err(ZipError::UnexpectedEOF);
        }
        let off = entry.offset as usize;
        match self.reader.seek(off) {
            Ok(v) => v,
            Err(e) => {
                return Err(e);
            },
        };
        let sig = match self.reader.read_u32() {
            Ok(v) => v,
            Err(e) => {
                return Err(e);
            },
        };
        if sig != LFH_SIGNATURE {
            return Err(ZipError::UnexpectedHeaderError(sig, LFH_SIGNATURE));
        }
        match self.reader.skip_bytes(22) {
            Ok(v) => v,
            Err(e) => {
                return Err(e);
            },
        };
        let name_len = match self.reader.read_u16() {
            Ok(v) => v,
            Err(e) => {
                return Err(e);
            },
        };
        let extra_len = match self.reader.read_u16() {
            Ok(v) => v,
            Err(e) => {
                return Err(e);
            },
        };
        match self.reader.skip_bytes(name_len as usize + extra_len as usize) {
            Ok(v) => v,
            Err(e) => {
                return Err(e);
            },
        };
        let avail = self.reader.remaining_len();
        let take: usize = if entry.compressed_size <= avail as u64 {
            entry.compressed_size as usize
        } else {
            avail
        };
        let payload = match self.reader.read_bytes(take) {
            Ok(v) => v,
            Err(e) => {
                return Err(e);
            },
        };
        let decoder = CompressionReader::from_reader(&entry.compression, payload);
        Ok(ZipEntryReader::from_raw(entry, decoder, false))
    }

    /// Like `entry`, but takes ownership of the whole reader, for when only
    /// this one entry will ever be served from it.
    pub fn into_entry(self, index: usize) -> (r: Result<ZipEntryReader, ZipError>)
        requires
            self.wf(),
        ensures
            (index >= self.file.entries@.len()) <==> r == Err::<ZipEntryReader, ZipError>(
                ZipError::EntryIndexOutOfBounds,
            ),
            r matches Ok(er) ==> {
                let s = self.reader.bytes();
                let e = self.file.entries@[index as int];
                &&& index < self.file.entries@.len()
                &&& er.entry.equiv(e)
                &&& er.wf()
                &&& !er.stream
                &&& !er.consumed
                &&& er.produced() == Seq::<u8>::empty()
                &&& er.remaining() == entry_content(s, e)
                &&& entry_header_ok(s, e)
            },
            index < self.file.entries@.len() && entry_header_ok(
                self.reader.bytes(),
                self.file.entries@[index as int],
            ) ==> r is Ok,
            r matches Err(e) ==> (e == ZipError::EntryIndexOutOfBounds || e
                == ZipError::UnexpectedEOF || e matches ZipError::UnexpectedHeaderError(_, _)),
    {
        let mut this = self;
        this.entry(index)
    }

    /// Random access is order-independent: the content an entry reader
    /// serves is a function of the archive bytes and the entry's metadata
    /// alone, and requesting entries repeatedly or in any order never
    /// changes the archive bytes, so `entry(i)` after any sequence of other
    /// requests yields the same content as `entry(i)` alone.
    pub proof fn lemma_entry_content_order_independent(s: Seq<u8>, e1: ZipEntry, e2: ZipEntry)
        requires
            e1.equiv(e2),
        ensures
            entry_content(s, e1) == entry_content(s, e2),
    {
    }

    /// Random access agrees with a single ordered streaming pass: when the
    /// central directory's entry `e` agrees with the local file header
    /// parsed at its offset on compression kind and compressed size, the
    /// content `entry` serves equals the content a sequential reader serves
    /// for that header.
    pub proof fn lemma_entry_content_matches_stream(s: Seq<u8>, e: ZipEntry, parsed: ZipEntry)
        requires
            lfh_matches(s, e.offset as int, parsed),
            parsed.compression == e.compression,
            parsed.compressed_size == e.compressed_size,
        ensures
            entry_content(s, e) == decoded_of(
                parsed.compression,
                payload_range(
                    s,
                    e.offset + lfh_total_len(s, e.offset as int),
                    parsed.compressed_size as int,
                ),
            ),
    {
    }
}

} // verus!
