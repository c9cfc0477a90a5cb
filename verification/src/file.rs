//! Archive-level metadata and its builder.

use vstd::prelude::*;

use crate::entry::ZipEntry;

verus! {

/// An archive's parsed metadata: its entries in on-disk order, the zip64
/// flag, and the archive comment (empty when not recoverable, e.g. in
/// streaming mode). Immutable once constructed.
pub struct ZipFile {
    pub entries: Vec<ZipEntry>,
    pub zip64: bool,
    pub comment: String,
}

impl ZipFile {
    /// Every entry's metadata is internally consistent.
    pub open spec fn wf(self) -> bool {
        forall|k: int| 0 <= k < self.entries@.len() ==> (#[trigger] self.entries@[k]).wf()
    }

    /// The archive's entries, in on-disk order.
    pub fn entries(&self) -> (r: &Vec<ZipEntry>)
        ensures
            r == &self.entries,
    {
        &self.entries
    }

    /// The archive's comment.
    pub fn comment(&self) -> (r: &String)
        ensures
            r == &self.comment,
    {
        &self.comment
    }

    /// Whether the archive uses zip64 extensions.
    pub fn zip64(&self) -> (r: bool)
        ensures
            r == self.zip64,
    {
        self.zip64
    }
}

/// A builder for [`ZipFile`] values constructed outside of parsing.
pub struct ZipFileBuilder(pub ZipFile);

impl ZipFileBuilder {
    /// Starts from an archive with no entries, no comment and no zip64 flag.
    pub fn new() -> (r: Self)
        ensures
            r.0.entries@ == Seq::<ZipEntry>::empty(),
            !r.0.zip64,
            r.0.comment@ == Seq::<char>::empty(),
    {
        ZipFileBuilder(ZipFile { entries: Vec::new(), zip64: false, comment: String::new() })
    }

    /// Sets the archive's comment.
    pub fn comment(self, comment: String) -> (r: Self)
        ensures
            r.0.comment == comment,
            r.0.entries == self.0.entries,
            r.0.zip64 == self.0.zip64,
    {
        ZipFileBuilder(ZipFile { comment, ..self.0 })
    }

    /// Sets the archive's zip64 flag.
    pub fn zip64(self, value: bool) -> (r: Self)
        ensures
            r.0.zip64 == value,
            r.0.entries == self.0.entries,
            r.0.comment == self.0.comment,
    {
        ZipFileBuilder(ZipFile { zip64: value, ..self.0 })
    }

    /// Consumes this builder and returns the final [`ZipFile`].
    pub fn build(self) -> (r: ZipFile)
        ensures
            r == self.0,
    {
        self.0
    }
}

impl Default for ZipFileBuilder {
    /// The empty builder `new` starts from.
    fn default() -> (r: Self)
        ensures
            r.0.entries@ == Seq::<ZipEntry>::empty(),
            !r.0.zip64,
            r.0.comment@ == Seq::<char>::empty(),
    {
        ZipFileBuilder::new()
    }
}

impl From<ZipFile> for ZipFileBuilder {
    /// Reopens existing metadata for further building.
    fn from(file: ZipFile) -> (r: Self) {
        ZipFileBuilder(file)
    }
}

impl vstd::std_specs::convert::FromSpecImpl<ZipFile> for ZipFileBuilder {
    open spec fn obeys_from_spec() -> bool {
        true
    }

    open spec fn from_spec(file: ZipFile) -> Self {
        ZipFileBuilder(file)
    }
}

} // verus!
