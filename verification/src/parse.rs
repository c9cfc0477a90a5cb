//! The binary-format collaborator: turns raw archive bytes into structured
//! metadata.
//!
//! Two operations exist, mirroring the two access modes: `file` parses the
//! full central directory by locating the end-of-central-directory record
//! from the archive's end, and `lfh` parses a single local file header at
//! the current forward position. Both are verified against the byte layout
//! spelled out by the spec functions below.

use vstd::prelude::*;

use crate::compression::Compression;
use crate::entry::ZipEntry;
use crate::error::ZipError;
use crate::file::ZipFile;
use crate::io::{le16, le32, ByteSource};
use crate::text::{string_from_utf8, utf8_chars_of};

verus! {

pub const LFH_SIGNATURE: u32 = 0x04034B50;

pub const CDFH_SIGNATURE: u32 = 0x02014B50;

pub const EOCD_SIGNATURE: u32 = 0x06054B50;

/// The compression kind a header's numeric id names.
pub open spec fn compression_of_id(id: int) -> Option<Compression> {
    if id == 0 {
        Some(Compression::Stored)
    } else if id == 8 {
        Some(Compression::Deflate)
    } else if id == 12 {
        Some(Compression::Bz)
    } else if id == 14 {
        Some(Compression::Lzma)
    } else if id == 93 {
        Some(Compression::Zstd)
    } else if id == 95 {
        Some(Compression::Xz)
    } else {
        None
    }
}

/// Maps a header's compression id to its kind; ids outside the supported set
/// are rejected.
pub fn compression_from_id(id: u16) -> (r: Result<Compression, ZipError>)
    ensures
        r matches Ok(c) ==> compression_of_id(id as int) == Some(c),
        r is Err ==> compression_of_id(id as int) is None && r == Err::<Compression, ZipError>(
            ZipError::UnsupportedCompressionError(id),
        ),
{
    match id {
        0u16 => Ok(Compression::Stored),
        8u16 => Ok(Compression::Deflate),
        12u16 => Ok(Compression::Bz),
        14u16 => Ok(Compression::Lzma),
        93u16 => Ok(Compression::Zstd),
        95u16 => Ok(Compression::Xz),
        _ => Err(ZipError::UnsupportedCompressionError(id)),
    }
}

/// Length in bytes of the local file header at `p`: the fixed part plus the
/// file name and the extra field.
pub open spec fn lfh_total_len(s: Seq<u8>, p: int) -> int {
    30 + le16(s, p + 26) + le16(s, p + 28)
}

/// The entry metadata the local file header at `p` describes.
pub open spec fn lfh_matches(s: Seq<u8>, p: int, e: ZipEntry) -> bool {
    &&& compression_of_id(le16(s, p + 8)) == Some(e.compression)
    &&& e.crc32 as int == le32(s, p + 14)
    &&& e.compressed_size as int == le32(s, p + 18)
    &&& e.uncompressed_size as int == le32(s, p + 22)
    &&& utf8_chars_of(s.subrange(p + 30, p + 30 + le16(s, p + 26))) == Some(e.filename@)
    &&& e.offset as int == p
    &&& e.internal_attributes == 0
    &&& e.external_attributes == 0
}

/// The conditions under which a local file header at `p` parses cleanly.
pub open spec fn lfh_well_formed(s: Seq<u8>, p: int) -> bool {
    &&& p + 30 <= s.len()
    &&& le32(s, p) == LFH_SIGNATURE
    &&& compression_of_id(le16(s, p + 8)) is Some
    &&& p + lfh_total_len(s, p) <= s.len()
    &&& utf8_chars_of(s.subrange(p + 30, p + 30 + le16(s, p + 26))) is Some
    &&& (compression_of_id(le16(s, p + 8)) == Some(Compression::Stored) ==> le32(s, p + 18)
        == le32(s, p + 22))
}

/// A central-directory or end-of-central-directory signature stands at `p`:
/// the stream's entries are over.
pub open spec fn central_directory_at(s: Seq<u8>, p: int) -> bool {
    &&& p + 4 <= s.len()
    &&& (le32(s, p) == CDFH_SIGNATURE || le32(s, p) == EOCD_SIGNATURE)
}

/// Parses one local file header at the current position, leaving the source
/// at the start of the entry's payload; yields nothing when the central
/// directory has been reached instead.
pub fn lfh(source: &mut ByteSource) -> (r: Result<Option<ZipEntry>, ZipError>)
    requires
        old(source).wf(),
    ensures
        final(source).wf(),
        final(source).bytes() == old(source).bytes(),
        r matches Ok(o) ==> o matches Some(e) ==> {
            let s = old(source).bytes();
            let p = old(source).position();
            &&& p + 30 <= s.len()
            &&& le32(s, p) == LFH_SIGNATURE
            &&& lfh_matches(s, p, e)
            &&& e.wf()
            &&& p + lfh_total_len(s, p) <= s.len()
            &&& final(source).position() == p + lfh_total_len(s, p)
        },
        r == Ok::<Option<ZipEntry>, ZipError>(None) ==> central_directory_at(
            old(source).bytes(),
            old(source).position(),
        ),
        central_directory_at(old(source).bytes(), old(source).position()) ==> r == Ok::<
            Option<ZipEntry>,
            ZipError,
        >(None),
        lfh_well_formed(old(source).bytes(), old(source).position()) ==> (r matches Ok(o)
            && o is Some),
        r matches Err(e) ==> (e is UnexpectedEOF || e is UnexpectedHeaderError
            || e is UnsupportedCompressionError || e is StringNotUtf8
            || e is StoredSizeMismatchError),
{
    let start = source.position_exec();
    let sig = match source.read_u32() {
        Ok(v) => v,
        Err(e) => {
            return Err(e);
        },
    };
    if sig == CDFH_SIGNATURE || sig == EOCD_SIGNATURE {
        return Ok(None);
    }
    if sig != LFH_SIGNATURE {
        return Err(ZipError::UnexpectedHeaderError(sig, LFH_SIGNATURE));
    }
    let _version = match source.read_u16() {
        Ok(v) => v,
        Err(e) => {
            return Err(e);
        },
    };
    let _flags = match source.read_u16() {
        Ok(v) => v,
        Err(e) => {
            return Err(e);
        },
    };
    let method = match source.read_u16() {
        Ok(v) => v,
        Err(e) => {
            return Err(e);
        },
    };
    let _time = match source.read_u16() {
        Ok(v) => v,
        Err(e) => {
            return Err(e);
        },
    };
    let _date = match source.read_u16() {
        Ok(v) => v,
        Err(e) => {
            return Err(e);
        },
    };
    let crc = match source.read_u32() {
        Ok(v) => v,
        Err(e) => {
            return Err(e);
        },
    };
    let csize = match source.read_u32() {
        Ok(v) => v,
        Err(e) => {
            return Err(e);
        },
    };
    let usize_ = match source.read_u32() {
        Ok(v) => v,
        Err(e) => {
            return Err(e);
        },
    };
    let name_len = match source.read_u16() {
        Ok(v) => v,
        Err(e) => {
            return Err(e);
        },
    };
    let extra_len = match source.read_u16() {
        Ok(v) => v,
        Err(e) => {
            return Err(e);
        },
    };
    let compression = match compression_from_id(method) {
        Ok(c) => c,
        Err(e) => {
            return Err(e);
        },
    };
    if compression == Compression::Stored && csize != usize_ {
        return Err(ZipError::StoredSizeMismatchError(csize, usize_));
    }
    let name_bytes = match source.read_bytes(name_len as usize) {
        Ok(v) => v,
        Err(e) => {
            return Err(e);
        },
    };
    let filename = match string_from_utf8(name_bytes) {
        Ok(v) => v,
        Err(e) => {
            return Err(e);
        },
    };
    match source.skip_bytes(extra_len as usize) {
        Ok(v) => v,
        Err(e) => {
            return Err(e);
        },
    };
    Ok(
        Some(
            ZipEntry {
                filename,
                compression,
                crc32: crc,
                compressed_size: csize as u64,
                uncompressed_size: usize_ as u64,
                offset: start as u64,
                internal_attributes: 0,
                external_attributes: 0,
            },
        ),
    )
}

/// The entry metadata the central-directory record at `q` describes.
pub open spec fn cdfh_matches(s: Seq<u8>, q: int, e: ZipEntry) -> bool {
    &&& q + 46 <= s.len()
    &&& le32(s, q) == CDFH_SIGNATURE
    &&& compression_of_id(le16(s, q + 10)) == Some(e.compression)
    &&& e.crc32 as int == le32(s, q + 16)
    &&& e.compressed_size as int == le32(s, q + 20)
    &&& e.uncompressed_size as int == le32(s, q + 24)
    &&& utf8_chars_of(s.subrange(q + 46, q + 46 + le16(s, q + 28))) == Some(e.filename@)
    &&& e.internal_attributes as int == le16(s, q + 36)
    &&& e.external_attributes as int == le32(s, q + 38)
    &&& e.offset as int == le32(s, q + 42)
}

/// Where the next central-directory record begins: after this record's fixed
/// part, file name, extra field and comment.
pub open spec fn cdfh_next(s: Seq<u8>, q: int) -> int {
    q + 46 + le16(s, q + 28) + le16(s, q + 30) + le16(s, q + 32)
}

/// The conditions under which a central-directory record at `q` parses
/// cleanly: reachable, supported compression, UTF-8 name, no zip64 sentinel
/// values, and agreeing sizes when stored.
pub open spec fn cdfh_well_formed(s: Seq<u8>, q: int) -> bool {
    &&& q + 46 <= s.len()
    &&& le32(s, q) == CDFH_SIGNATURE
    &&& cdfh_next(s, q) <= s.len()
    &&& compression_of_id(le16(s, q + 10)) is Some
    &&& le32(s, q + 20) != 0xFFFFFFFF
    &&& le32(s, q + 24) != 0xFFFFFFFF
    &&& le32(s, q + 42) != 0xFFFFFFFF
    &&& utf8_chars_of(s.subrange(q + 46, q + 46 + le16(s, q + 28))) is Some
    &&& (compression_of_id(le16(s, q + 10)) == Some(Compression::Stored) ==> le32(s, q + 20)
        == le32(s, q + 24))
}

/// `count` consecutive central-directory records from `q` parse cleanly.
pub open spec fn cd_well_formed(s: Seq<u8>, q: int, count: int) -> bool
    decreases count,
{
    if count <= 0 {
        true
    } else {
        cdfh_well_formed(s, q) && cd_well_formed(s, cdfh_next(s, q), count - 1)
    }
}

/// The records from `q` to `end` describe exactly the entries `es`, in
/// on-disk order.
pub open spec fn cd_chain(s: Seq<u8>, q: int, es: Seq<ZipEntry>, end: int) -> bool
    decreases es.len(),
{
    if es.len() == 0 {
        end == q
    } else {
        cdfh_matches(s, q, es[0]) && cd_chain(s, cdfh_next(s, q), es.subrange(1, es.len() as int), end)
    }
}

/// Appending one more record to a chain extends it by that record.
proof fn lemma_cd_chain_push(s: Seq<u8>, q: int, es: Seq<ZipEntry>, end: int, e: ZipEntry)
    requires
        cd_chain(s, q, es, end),
        cdfh_matches(s, end, e),
    ensures
        cd_chain(s, q, es.push(e), cdfh_next(s, end)),
    decreases es.len(),
{
    if es.len() == 0 {
        assert(end == q);
        assert(es.push(e)[0] == e);
        assert(es.push(e).subrange(1, 1) =~= Seq::<ZipEntry>::empty());
        assert(cd_chain(s, cdfh_next(s, q), es.push(e).subrange(1, 1), cdfh_next(s, end)));
    } else {
        assert(es.push(e)[0] == es[0]);
        assert(es.push(e).subrange(1, es.len() as int + 1) =~= es.subrange(
            1,
            es.len() as int,
        ).push(e));
        lemma_cd_chain_push(s, cdfh_next(s, q), es.subrange(1, es.len() as int), end, e);
        assert(cd_chain(s, q, es.push(e), cdfh_next(s, end)));
    }
}

/// An end-of-central-directory record stands at `i`.
pub open spec fn eocd_at(s: Seq<u8>, i: int) -> bool {
    &&& 0 <= i
    &&& i + 22 <= s.len()
    &&& le32(s, i) == EOCD_SIGNATURE
}

/// The record at `i` is the one found scanning backward from the archive's
/// end: no later position holds the signature.
pub open spec fn eocd_found_at(s: Seq<u8>, i: int) -> bool {
    &&& eocd_at(s, i)
    &&& forall|j: int| i < j && j + 22 <= s.len() ==> le32(s, j) != EOCD_SIGNATURE
}

/// The end-of-central-directory record at `i` is the one the backward scan
/// finds, lies within the scan window, carries no zip64 sentinel values, its
/// comment is reachable UTF-8, and the central directory it points at parses
/// cleanly.
pub open spec fn eocd_ok(s: Seq<u8>, i: int) -> bool {
    &&& eocd_found_at(s, i)
    &&& i + 22 + 0xFFFF >= s.len()
    &&& le16(s, i + 10) != 0xFFFF
    &&& le32(s, i + 12) != 0xFFFFFFFF
    &&& le32(s, i + 16) != 0xFFFFFFFF
    &&& i + 22 + le16(s, i + 20) <= s.len()
    &&& utf8_chars_of(s.subrange(i + 22, i + 22 + le16(s, i + 20))) is Some
    &&& le32(s, i + 16) <= s.len()
    &&& cd_well_formed(s, le32(s, i + 16), le16(s, i + 10))
}

/// The archive's bytes are well formed for parsing: an end-of-central-
/// directory record is found scanning back from the end and everything it
/// points at parses cleanly. Under this predicate `file` succeeds.
pub open spec fn archive_well_formed(s: Seq<u8>) -> bool {
    &&& s.len() >= 22
    &&& exists|i: int| #[trigger] eocd_ok(s, i)
}

/// The archive metadata `f` is what the central directory of `s` describes:
/// the entry count and comment of the end-of-central-directory record found
/// from the archive's end, and one entry per central-directory record.
pub open spec fn parses_to(s: Seq<u8>, f: ZipFile) -> bool {
    exists|i: int, end: int|
        {
            &&& #[trigger] eocd_found_at(s, i)
            &&& f.entries@.len() == le16(s, i + 10)
            &&& #[trigger] cd_chain(s, le32(s, i + 16), f.entries@, end)
            &&& utf8_chars_of(s.subrange(i + 22, i + 22 + le16(s, i + 20))) == Some(f.comment@)
            &&& !f.zip64
        }
}

/// Little-endian 32-bit value at `i` of the raw buffer.
fn u32_at(data: &Vec<u8>, i: usize) -> (r: u32)
    requires
        i + 4 <= data@.len(),
        i + 4 <= usize::MAX,
    ensures
        r as int == le32(data@, i as int),
{
    let b0 = data[i];
    let b1 = data[i + 1];
    let b2 = data[i + 2];
    let b3 = data[i + 3];
    b0 as u32 + 0x100 * (b1 as u32) + 0x10000 * (b2 as u32) + 0x1000000 * (b3 as u32)
}

/// Parses the full central directory from the archive's end into structured
/// metadata. Fails when no end-of-central-directory record exists, when the
/// archive needs zip64 fields, or when a record is malformed.

/// Parses one central-directory record at the current position, leaving the
/// source at the start of the next record.
fn cdfh(source: &mut ByteSource) -> (r: Result<ZipEntry, ZipError>)
    requires
        old(source).wf(),
    ensures
        final(source).wf(),
        final(source).bytes() == old(source).bytes(),
        r matches Ok(e) ==> {
            let s = old(source).bytes();
            let q = old(source).position();
            &&& q + 46 <= s.len()
            &&& cdfh_matches(s, q, e)
            &&& e.wf()
            &&& cdfh_next(s, q) <= s.len()
            &&& final(source).position() == cdfh_next(s, q)
        },
        cdfh_well_formed(old(source).bytes(), old(source).position()) ==> r is Ok,
        r matches Err(e) ==> (e is UnexpectedEOF || e is UnexpectedHeaderError
            || e is FeatureNotSupported || e is UnsupportedCompressionError
            || e is StringNotUtf8 || e is StoredSizeMismatchError),
{
    let sig = match source.read_u32() {
        Ok(v) => v,
        Err(e) => {
            return Err(e);
        },
    };
    if sig != CDFH_SIGNATURE {
        return Err(ZipError::UnexpectedHeaderError(sig, CDFH_SIGNATURE));
    }
    match source.skip_bytes(6) {
        Ok(v) => v,
        Err(e) => {
            return Err(e);
        },
    };
    let method = match source.read_u16() {
        Ok(v) => v,
        Err(e) => {
            return Err(e);
        },
    };
    match source.skip_bytes(4) {
        Ok(v) => v,
        Err(e) => {
            return Err(e);
        },
    };
    let crc = match source.read_u32() {
        Ok(v) => v,
        Err(e) => {
            return Err(e);
        },
    };
    let csize = match source.read_u32() {
        Ok(v) => v,
        Err(e) => {
            return Err(e);
        },
    };
    let usize_ = match source.read_u32() {
        Ok(v) => v,
        Err(e) => {
            return Err(e);
        },
    };
    let name_len = match source.read_u16() {
        Ok(v) => v,
        Err(e) => {
            return Err(e);
        },
    };
    let extra_len = match source.read_u16() {
        Ok(v) => v,
        Err(e) => {
            return Err(e);
        },
    };
    let cmt_len = match source.read_u16() {
        Ok(v) => v,
        Err(e) => {
            return Err(e);
        },
    };
    match source.skip_bytes(2) {
        Ok(v) => v,
        Err(e) => {
            return Err(e);
        },
    };
    let iattr = match source.read_u16() {
        Ok(v) => v,
        Err(e) => {
            return Err(e);
        },
    };
    let eattr = match source.read_u32() {
        Ok(v) => v,
        Err(e) => {
            return Err(e);
        },
    };
    let lho = match source.read_u32() {
        Ok(v) => v,
        Err(e) => {
            return Err(e);
        },
    };
    if csize == 0xFFFFFFFF || usize_ == 0xFFFFFFFF || lho == 0xFFFFFFFF {
        return Err(ZipError::FeatureNotSupported);
    }
    let compression = match compression_from_id(method) {
        Ok(c) => c,
        Err(e) => {
            return Err(e);
        },
    };
    if compression == Compression::Stored && csize != usize_ {
        return Err(ZipError::StoredSizeMismatchError(csize, usize_));
    }
    let name_bytes = match source.read_bytes(name_len as usize) {
        Ok(v) => v,
        Err(e) => {
            return Err(e);
        },
    };
    let filename = match string_from_utf8(name_bytes) {
        Ok(v) => v,
        Err(e) => {
            return Err(e);
        },
    };
    match source.skip_bytes(extra_len as usize + cmt_len as usize) {
        Ok(v) => v,
        Err(e) => {
            return Err(e);
        },
    };
    let entry = ZipEntry {
        filename,
        compression,
        crc32: crc,
        compressed_size: csize as u64,
        uncompressed_size: usize_ as u64,
        offset: lho as u64,
        internal_attributes: iattr,
        external_attributes: eattr,
    };
    Ok(entry)
}

#[verifier::loop_isolation(false)]
#[verifier::rlimit(100)]
pub fn file(source: &mut ByteSource) -> (r: Result<ZipFile, ZipError>)
    requires
        old(source).wf(),
    ensures
        final(source).wf(),
        final(source).bytes() == old(source).bytes(),
        r matches Ok(f) ==> parses_to(old(source).bytes(), f) && f.wf(),
        archive_well_formed(old(source).bytes()) ==> r is Ok,
        r matches Err(e) ==> (e is UnableToLocateEOCDR || e is UnexpectedEOF
            || e is FeatureNotSupported || e is UnexpectedHeaderError
            || e is UnsupportedCompressionError || e is StringNotUtf8
            || e is StoredSizeMismatchError),
{
    let ghost s = source.bytes();
    let n = source.len();
    if n < 22 {
        return Err(ZipError::UnableToLocateEOCDR);
    }
    let lower: usize = if n - 22 > 65535 {
        n - 22 - 65535
    } else {
        0
    };
    let mut i: usize = n - 22;
    while u32_at(&source.data, i) != EOCD_SIGNATURE
        invariant
            source.wf(),
            source.bytes() == s,
            n == s.len(),
            22 <= n,
            lower <= i <= n - 22,
            forall|j: int| i < j && j + 22 <= s.len() ==> le32(s, j) != EOCD_SIGNATURE,
        decreases i,
    {
        if i == lower {
            proof {
                if archive_well_formed(s) {
                    let i0 = choose|j: int| #[trigger] eocd_ok(s, j);
                    assert(eocd_found_at(s, i0));
                    if i0 > i as int {
                        assert(le32(s, i0) != EOCD_SIGNATURE);
                    }
                    assert(false);
                }
            }
            return Err(ZipError::UnableToLocateEOCDR);
        }
        i = i - 1;
    }
    let ghost eocd = i as int;
    proof {
        assert(eocd_found_at(s, eocd));
        if archive_well_formed(s) {
            let i0 = choose|j: int| #[trigger] eocd_ok(s, j);
            assert(eocd_found_at(s, i0));
            if i0 < eocd {
                assert(le32(s, eocd) != EOCD_SIGNATURE);
            }
            if i0 > eocd {
                assert(le32(s, i0) != EOCD_SIGNATURE);
            }
            assert(i0 == eocd);
            assert(eocd_ok(s, eocd));
        }
    }
    match source.seek(i + 10) {
        Ok(v) => v,
        Err(e) => {
            return Err(e);
        },
    };
    let total = match source.read_u16() {
        Ok(v) => v,
        Err(e) => {
            return Err(e);
        },
    };
    let cd_size = match source.read_u32() {
        Ok(v) => v,
        Err(e) => {
            return Err(e);
        },
    };
    let cd_off = match source.read_u32() {
        Ok(v) => v,
        Err(e) => {
            return Err(e);
        },
    };
    let comment_len = match source.read_u16() {
        Ok(v) => v,
        Err(e) => {
            return Err(e);
        },
    };
    if total == 0xFFFF || cd_size == 0xFFFFFFFF || cd_off == 0xFFFFFFFF {
        return Err(ZipError::FeatureNotSupported);
    }
    let comment_bytes = match source.read_bytes(comment_len as usize) {
        Ok(v) => v,
        Err(e) => {
            return Err(e);
        },
    };
    let comment = match string_from_utf8(comment_bytes) {
        Ok(v) => v,
        Err(e) => {
            return Err(e);
        },
    };
    if cd_off as u64 > n as u64 {
        return Err(ZipError::UnexpectedEOF);
    }
    match source.seek(cd_off as usize) {
        Ok(v) => v,
        Err(e) => {
            return Err(e);
        },
    };
    let ghost cd0 = cd_off as int;
    let mut entries: Vec<ZipEntry> = Vec::new();
    let mut k: usize = 0;
    proof {
        assert(cd_chain(s, cd0, entries@, source.position()));
        if archive_well_formed(s) {
            assert(cd_well_formed(s, cd0, total as int));
        }
    }
    while k < total as usize
        invariant
            source.wf(),
            source.bytes() == s,
            entries@.len() == k,
            k <= total as usize,
            cd_chain(s, cd0, entries@, source.position()),
            archive_well_formed(s) ==> cd_well_formed(s, source.position(), total as int - k),
            forall|m: int| 0 <= m < entries@.len() ==> (#[trigger] entries@[m]).wf(),
        decreases total as int - k,
    {
        let ghost q = source.position();
        proof {
            if archive_well_formed(s) {
                assert(cd_well_formed(s, q, total as int - k));
                assert(cdfh_well_formed(s, q));
            }
        }
        let entry = match cdfh(source) {
            Ok(e) => e,
            Err(e) => {
                return Err(e);
            },
        };
        proof {
            lemma_cd_chain_push(s, cd0, entries@, q, entry);
        }
        entries.push(entry);
        k = k + 1;
    }
    let f = ZipFile { entries, zip64: false, comment };
    proof {
        assert(eocd_found_at(s, eocd) && cd_chain(s, le32(s, eocd + 16), f.entries@, source.position()));
        assert(parses_to(s, f));
    }
    Ok(f)
}

} // verus!
