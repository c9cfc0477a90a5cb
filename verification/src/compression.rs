//! The compression kinds a ZIP entry's payload may be stored with.

use vstd::prelude::*;

verus! {

/// Compression kind of one entry, as recorded in its headers.
#[derive(Clone, Copy, Debug, PartialEq, Eq, Structural)]
pub enum Compression {
    Stored,
    Deflate,
    Bz,
    Lzma,
    Zstd,
    Xz,
}

} // verus!
