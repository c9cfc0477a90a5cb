//! Compression dispatch: one decoder over a length-bounded compressed range.
//!
//! Five compression backends come from outside crates and are reached through
//! trusted wrappers; each backend's output is named by a spec function of the
//! compressed bytes alone. Stored entries involve no backend:
//! their payload is served byte-identical, and that is proved. Decoding is
//! deferred to the first read, so constructing a reader never fails; a
//! structurally invalid payload surfaces as an error from `read`.

use vstd::prelude::*;

use crate::compression::Compression;
use crate::error::ZipError;
use crate::io::copy_range;

verus! {

/// What inflating a raw deflate stream yields, or nothing when the stream is
/// structurally invalid.
pub uninterp spec fn inflate_of(s: Seq<u8>) -> Option<Seq<u8>>;

/// What decompressing a bzip2 stream yields, or nothing when the stream is
/// structurally invalid.
pub uninterp spec fn bunzip_of(s: Seq<u8>) -> Option<Seq<u8>>;

/// What decompressing an LZMA stream yields, or nothing when the stream is
/// structurally invalid.
pub uninterp spec fn unlzma_of(s: Seq<u8>) -> Option<Seq<u8>>;

/// What decompressing a zstd stream yields, or nothing when the stream is
/// structurally invalid.
pub uninterp spec fn unzstd_of(s: Seq<u8>) -> Option<Seq<u8>>;

/// What decompressing an xz stream yields, or nothing when the stream is
/// structurally invalid.
pub uninterp spec fn unxz_of(s: Seq<u8>) -> Option<Seq<u8>>;

/// What decoding a compressed byte range yields, by compression kind, or
/// nothing when the backend rejects the bytes. A stored range decodes to
/// itself, always.
pub open spec fn decoded_opt(c: Compression, s: Seq<u8>) -> Option<Seq<u8>> {
    match c {
        Compression::Stored => Some(s),
        Compression::Deflate => inflate_of(s),
        Compression::Bz => bunzip_of(s),
        Compression::Lzma => unlzma_of(s),
        Compression::Zstd => unzstd_of(s),
        Compression::Xz => unxz_of(s),
    }
}

/// Whether the compressed byte range decodes at all.
pub open spec fn decodable(c: Compression, s: Seq<u8>) -> bool {
    decoded_opt(c, s) is Some
}

/// The decoded form of a compressed byte range, by compression kind.
pub open spec fn decoded_of(c: Compression, s: Seq<u8>) -> Seq<u8> {
    match decoded_opt(c, s) {
        Some(v) => v,
        None => Seq::empty(),
    }
}

/// Relies on flate2::read::DeflateDecoder: inflates a raw deflate stream, a
/// function of the compressed bytes alone; errors when the stream is
/// structurally invalid.
#[verifier::external_body]
fn decode_deflate(data: &Vec<u8>) -> (r: Result<Vec<u8>, ZipError>)
    ensures
        r matches Ok(v) ==> inflate_of(data@) == Some(v@),
        r matches Err(e) ==> e == ZipError::UpstreamReadError,
        inflate_of(data@) is Some ==> r is Ok,
        inflate_of(data@) is None ==> r is Err,
{
    let mut dec = flate2::read::DeflateDecoder::new(data.as_slice());
    let mut out = Vec::new();
    match std::io::Read::read_to_end(&mut dec, &mut out) {
        Ok(_) => Ok(out),
        Err(_) => Err(ZipError::UpstreamReadError),
    }
}

/// Relies on bzip2::read::BzDecoder: decompresses a bzip2 stream, a function
/// of the compressed bytes alone; errors when the stream is structurally
/// invalid.
#[verifier::external_body]
fn decode_bz(data: &Vec<u8>) -> (r: Result<Vec<u8>, ZipError>)
    ensures
        r matches Ok(v) ==> bunzip_of(data@) == Some(v@),
        r matches Err(e) ==> e == ZipError::UpstreamReadError,
        bunzip_of(data@) is Some ==> r is Ok,
        bunzip_of(data@) is None ==> r is Err,
{
    let mut dec = bzip2::read::BzDecoder::new(data.as_slice());
    let mut out = Vec::new();
    match std::io::Read::read_to_end(&mut dec, &mut out) {
        Ok(_) => Ok(out),
        Err(_) => Err(ZipError::UpstreamReadError),
    }
}

/// Relies on liblzma::read::XzDecoder with an LZMA-alone stream from
/// liblzma::stream::Stream::new_lzma_decoder: decompresses an LZMA stream, a
/// function of the compressed bytes alone; errors when the stream is
/// structurally invalid.
#[verifier::external_body]
fn decode_lzma(data: &Vec<u8>) -> (r: Result<Vec<u8>, ZipError>)
    ensures
        r matches Ok(v) ==> unlzma_of(data@) == Some(v@),
        r matches Err(e) ==> e == ZipError::UpstreamReadError,
        unlzma_of(data@) is Some ==> r is Ok,
        unlzma_of(data@) is None ==> r is Err,
{
    let stream = match liblzma::stream::Stream::new_lzma_decoder(u64::MAX) {
        Ok(s) => s,
        Err(_) => return Err(ZipError::UpstreamReadError),
    };
    let mut dec = liblzma::read::XzDecoder::new_stream(data.as_slice(), stream);
    let mut out = Vec::new();
    match std::io::Read::read_to_end(&mut dec, &mut out) {
        Ok(_) => Ok(out),
        Err(_) => Err(ZipError::UpstreamReadError),
    }
}

/// Relies on zstd::stream::decode_all: decompresses a zstd stream, a function
/// of the compressed bytes alone; errors when the stream is structurally
/// invalid.
#[verifier::external_body]
fn decode_zstd(data: &Vec<u8>) -> (r: Result<Vec<u8>, ZipError>)
    ensures
        r matches Ok(v) ==> unzstd_of(data@) == Some(v@),
        r matches Err(e) ==> e == ZipError::UpstreamReadError,
        unzstd_of(data@) is Some ==> r is Ok,
        unzstd_of(data@) is None ==> r is Err,
{
    match zstd::stream::decode_all(data.as_slice()) {
        Ok(out) => Ok(out),
        Err(_) => Err(ZipError::UpstreamReadError),
    }
}

/// Relies on liblzma::read::XzDecoder: decompresses an xz stream, a function
/// of the compressed bytes alone; errors when the stream is structurally
/// invalid.
#[verifier::external_body]
fn decode_xz(data: &Vec<u8>) -> (r: Result<Vec<u8>, ZipError>)
    ensures
        r matches Ok(v) ==> unxz_of(data@) == Some(v@),
        r matches Err(e) ==> e == ZipError::UpstreamReadError,
        unxz_of(data@) is Some ==> r is Ok,
        unxz_of(data@) is None ==> r is Err,
{
    let mut dec = liblzma::read::XzDecoder::new(data.as_slice());
    let mut out = Vec::new();
    match std::io::Read::read_to_end(&mut dec, &mut out) {
        Ok(_) => Ok(out),
        Err(_) => Err(ZipError::UpstreamReadError),
    }
}

/// A reader that decodes one entry's compressed byte range on demand.
///
/// The compressed range is kept; `output` is filled by the first read and
/// `pos` marks how much of the decoded stream callers have taken.
pub struct CompressionReader {
    pub compression: Compression,
    pub compressed: Vec<u8>,
    pub output: Option<Vec<u8>>,
    pub pos: usize,
}

impl CompressionReader {
    /// The whole decoded stream this reader serves.
    pub open spec fn stream(self) -> Seq<u8> {
        decoded_of(self.compression, self.compressed@)
    }

    /// The decoded bytes already handed to callers.
    pub open spec fn produced(self) -> Seq<u8> {
        self.stream().take(self.pos as int)
    }

    /// The decoded bytes not yet handed to callers.
    pub open spec fn remaining(self) -> Seq<u8> {
        self.stream().skip(self.pos as int)
    }

    /// Before the first read nothing was served; after it, the buffered
    /// output is exactly the decoded stream and `pos` indexes into it.
    pub open spec fn wf(self) -> bool {
        match self.output {
            Option::None => self.pos == 0,
            Option::Some(out) => out@ == self.stream() && self.pos <= out@.len(),
        }
    }

    /// Reads never fail once the stream is decoded, and a stored payload
    /// needs no backend at all.
    pub open spec fn infallible(self) -> bool {
        self.output is Some || self.compression is Stored
    }

    /// Reads succeed: the stream is already decoded, or its compressed
    /// range decodes.
    pub open spec fn can_read(self) -> bool {
        self.output is Some || decodable(self.compression, self.compressed@)
    }

    /// Wraps a compressed byte range, already bounded to one entry's
    /// compressed size, for the given compression kind.
    pub fn from_reader(compression: &Compression, reader: Vec<u8>) -> (r: CompressionReader)
        ensures
            r.wf(),
            r.compression == *compression,
            r.compressed@ == reader@,
            r.pos == 0,
            r.produced() == Seq::<u8>::empty(),
            r.remaining() == decoded_of(*compression, reader@),
    {
        let r = CompressionReader { compression: *compression, compressed: reader, output: None, pos: 0 };
        proof {
            assert(r.produced() =~= Seq::<u8>::empty());
            assert(r.remaining() =~= r.stream());
        }
        r
    }

    /// Runs the backend for this reader's compression kind over the whole
    /// compressed range.
    fn decode_all(&self) -> (r: Result<Vec<u8>, ZipError>)
        ensures
            r matches Ok(v) ==> v@ == self.stream(),
            r matches Err(e) ==> e == ZipError::UpstreamReadError,
            (r is Ok) <==> decodable(self.compression, self.compressed@),
    {
        match self.compression {
            Compression::Stored => {
                let v = copy_range(&self.compressed, 0, self.compressed.len());
                proof {
                    assert(v@ =~= self.compressed@);
                }
                Ok(v)
            },
            Compression::Deflate => decode_deflate(&self.compressed),
            Compression::Bz => decode_bz(&self.compressed),
            Compression::Lzma => decode_lzma(&self.compressed),
            Compression::Zstd => decode_zstd(&self.compressed),
            Compression::Xz => decode_xz(&self.compressed),
        }
    }

    /// Produces up to `limit` decoded bytes, exactly `limit` while the stream
    /// lasts; an empty result marks the decoded stream's logical end. The
    /// first call decodes; a backend failure leaves the reader unchanged.
    pub fn read(&mut self, limit: usize) -> (r: Result<Vec<u8>, ZipError>)
        requires
            old(self).wf(),
        ensures
            final(self).wf(),
            final(self).compression == old(self).compression,
            final(self).compressed@ == old(self).compressed@,
            old(self).infallible() ==> r is Ok,
            (r is Ok) <==> old(self).can_read(),
            r matches Ok(v) ==> {
                &&& v@.len() == if limit as int <= old(self).remaining().len() {
                    limit as int
                } else {
                    old(self).remaining().len() as int
                }
                &&& v@ == old(self).remaining().take(v@.len() as int)
                &&& final(self).produced() == old(self).produced() + v@
                &&& final(self).remaining() == old(self).remaining().skip(v@.len() as int)
                &&& final(self).infallible()
            },
            r matches Err(e) ==> e == ZipError::UpstreamReadError && *final(self) == *old(self),
    {
        if self.output.is_none() {
            let out = match self.decode_all() {
                Ok(v) => v,
                Err(e) => {
                    return Err(e);
                },
            };
            self.output = Some(out);
        }
        let n: usize;
        let chunk: Vec<u8>;
        match &self.output {
            Option::Some(out) => {
                let avail = out.len() - self.pos;
                n = if limit <= avail {
                    limit
                } else {
                    avail
                };
                chunk = copy_range(out, self.pos, self.pos + n);
            },
            Option::None => {
                proof {
                    assert(false);
                }
                n = 0;
                chunk = Vec::new();
            },
        }
        self.pos = self.pos + n;
        proof {
            assert(chunk@ =~= old(self).remaining().take(n as int));
            assert(self.produced() =~= old(self).produced() + chunk@);
            assert(self.remaining() =~= old(self).remaining().skip(n as int));
        }
        Ok(chunk)
    }
}

} // verus!
