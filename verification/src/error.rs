//! The error taxonomy shared by parsing, entry access and verification.

use vstd::prelude::*;

verus! {

/// Everything that can go wrong while reading an archive.
#[derive(Clone, Copy, Debug, PartialEq, Eq, Structural)]
pub enum ZipError {
    /// A structure's signature did not match the expected one (found, expected).
    UnexpectedHeaderError(u32, u32),
    /// No end-of-central-directory record could be located.
    UnableToLocateEOCDR,
    /// The source ended before a complete structure could be read.
    UnexpectedEOF,
    /// The archive uses a feature this reader does not decode (e.g. zip64).
    FeatureNotSupported,
    /// An entry names a compression kind id outside the supported set.
    UnsupportedCompressionError(u16),
    /// A stored entry's header records two different sizes.
    StoredSizeMismatchError(u32, u32),
    /// An entry index beyond the archive's entry count was requested.
    EntryIndexOutOfBounds,
    /// The CRC32 computed over the produced bytes differs from the stored one.
    CRC32CheckError,
    /// `done` was called while unread payload bytes remained.
    ConsistencyError,
    /// The compressed payload could not be decoded by its backend.
    UpstreamReadError,
    /// Bytes that were required to form UTF-8 text did not.
    StringNotUtf8,
}

} // verus!
