//! Metadata of one archive entry.

use vstd::prelude::*;

use crate::compression::Compression;

verus! {

/// What an entry's headers record about it.
///
/// In streaming mode the checksum and the sizes read as zero whenever the
/// writer deferred them to a trailing data descriptor; callers must treat
/// them as provisional until the entry has been fully consumed.
pub struct ZipEntry {
    pub filename: String,
    pub compression: Compression,
    pub crc32: u32,
    pub compressed_size: u64,
    pub uncompressed_size: u64,
    /// Byte offset of the entry's local file header within the source.
    pub offset: u64,
    pub internal_attributes: u16,
    pub external_attributes: u32,
}

impl ZipEntry {
    /// A stored payload is not transformed, so its two sizes agree.
    pub open spec fn wf(self) -> bool {
        self.compression is Stored ==> self.compressed_size == self.uncompressed_size
    }

    /// Both entries carry the same metadata.
    pub open spec fn equiv(self, other: ZipEntry) -> bool {
        &&& self.filename@ == other.filename@
        &&& self.compression == other.compression
        &&& self.crc32 == other.crc32
        &&& self.compressed_size == other.compressed_size
        &&& self.uncompressed_size == other.uncompressed_size
        &&& self.offset == other.offset
        &&& self.internal_attributes == other.internal_attributes
        &&& self.external_attributes == other.external_attributes
    }

    /// The entry's file name.
    pub fn filename(&self) -> (r: &String)
        ensures
            r == &self.filename,
    {
        &self.filename
    }

    /// The compression kind of the entry's payload.
    pub fn compression(&self) -> (r: Compression)
        ensures
            r == self.compression,
    {
        self.compression
    }

    /// The checksum the writer recorded for the entry.
    pub fn crc32(&self) -> (r: u32)
        ensures
            r == self.crc32,
    {
        self.crc32
    }

    /// The entry's payload size as stored in the archive.
    pub fn compressed_size(&self) -> (r: u64)
        ensures
            r == self.compressed_size,
    {
        self.compressed_size
    }

    /// The entry's payload size after decoding.
    pub fn uncompressed_size(&self) -> (r: u64)
        ensures
            r == self.uncompressed_size,
    {
        self.uncompressed_size
    }

    /// Byte offset of the entry's local file header within the source.
    pub fn offset(&self) -> (r: u64)
        ensures
            r == self.offset,
    {
        self.offset
    }
}

impl Clone for ZipEntry {
    /// A clone carries the same metadata.
    fn clone(&self) -> (r: Self)
        ensures
            r.equiv(*self),
    {
        ZipEntry {
            filename: self.filename.clone(),
            compression: self.compression,
            crc32: self.crc32,
            compressed_size: self.compressed_size,
            uncompressed_size: self.uncompressed_size,
            offset: self.offset,
            internal_attributes: self.internal_attributes,
            external_attributes: self.external_attributes,
        }
    }
}

} // verus!
