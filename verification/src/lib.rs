//! Read access to ZIP archives held in memory.
//!
//! The library models an archive as a byte sequence and offers two access
//! modes: random access through archive metadata parsed from the central
//! directory, and strict forward-only sequential access driven by local file
//! headers. Entry payloads flow through a compression decoder and a
//! CRC32-verifying entry reader.

pub mod codec;
pub mod compression;
pub mod crc;
pub mod entry;
pub mod error;
pub mod file;
pub mod io;
pub mod parse;
pub mod reader;
pub mod seek;
pub mod stream;
pub mod text;

pub use compression::Compression;
pub use error::ZipError;
