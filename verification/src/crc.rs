//! The running CRC32 accumulator of the entry read path.
//!
//! The checksum itself is computed by the `crc32fast` crate; the library only
//! names its result: `crc32_of(bytes)` stands for the CRC32 (IEEE) of a byte
//! sequence, and every contract over checksums speaks of that name. The
//! accumulator pairs the outside hasher with the ghost sequence of bytes fed
//! so far, and only this module's methods touch the pair.

use vstd::prelude::*;

verus! {

#[verifier::external_type_specification]
#[verifier::external_body]
pub struct ExHasher(crc32fast::Hasher);

/// The CRC32 (IEEE) checksum of a byte sequence, as `crc32fast` computes it.
pub uninterp spec fn crc32_of(bytes: Seq<u8>) -> u32;

/// A CRC32 accumulator over the bytes fed to it so far.
pub struct Crc32 {
    inner: crc32fast::Hasher,
    fed: Ghost<Seq<u8>>,
}

impl Crc32 {
    /// The bytes fed to the accumulator since it was created or reset.
    pub closed spec fn accumulated(self) -> Seq<u8> {
        self.fed@
    }

    /// Relies on crc32fast::Hasher::new: a fresh hasher has absorbed nothing.
    #[verifier::external_body]
    fn hasher_new() -> (r: crc32fast::Hasher) {
        crc32fast::Hasher::new()
    }

    /// A fresh accumulator with nothing absorbed yet.
    pub(crate) fn new() -> (r: Crc32)
        ensures
            r.accumulated() == Seq::<u8>::empty(),
    {
        Crc32 { inner: Self::hasher_new(), fed: Ghost(Seq::empty()) }
    }

    /// Relies on crc32fast::Hasher::update: absorbs the given bytes after
    /// everything absorbed before.
    #[verifier::external_body]
    pub(crate) fn update(&mut self, data: &Vec<u8>)
        ensures
            final(self).accumulated() == old(self).accumulated() + data@,
    {
        self.inner.update(data.as_slice());
    }

    /// Relies on crc32fast::Hasher::finalize: returns the CRC32 (IEEE) of all
    /// absorbed bytes, a function of those bytes alone; with nothing absorbed
    /// it returns zero (the hasher starts from the zero initial state).
    #[verifier::external_body]
    pub(crate) fn digest(&self) -> (r: u32)
        ensures
            r == crc32_of(self.accumulated()),
            self.accumulated().len() == 0 ==> r == 0,
    {
        self.inner.clone().finalize()
    }

    /// Relies on crc32fast::Hasher::reset: puts the hasher back in the state
    /// of a fresh one.
    #[verifier::external_body]
    pub(crate) fn reset(&mut self)
        ensures
            final(self).accumulated() == Seq::<u8>::empty(),
    {
        self.inner.reset();
    }
}

} // verus!
