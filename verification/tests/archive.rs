use std::io::Read;

use zip_read::codec::CompressionReader;
use zip_read::compression::Compression;
use zip_read::error::ZipError;
use zip_read::file::ZipFileBuilder;
use zip_read::io::{ByteSink, ByteSource};
use zip_read::reader::ZipEntryReader;


fn expect_err<T>(r: Result<T, ZipError>) -> ZipError {
    match r {
        Ok(_) => panic!("expected an error"),
        Err(e) => e,
    }
}

fn push_u16(out: &mut Vec<u8>, v: u16) {
    out.push((v & 0xFF) as u8);
    out.push((v >> 8) as u8);
}

fn push_u32(out: &mut Vec<u8>, v: u32) {
    out.push((v & 0xFF) as u8);
    out.push(((v >> 8) & 0xFF) as u8);
    out.push(((v >> 16) & 0xFF) as u8);
    out.push(((v >> 24) & 0xFF) as u8);
}

struct FixtureEntry {
    name: &'static str,
    method: u16,
    crc: u32,
    data: Vec<u8>,
    uncompressed_size: u32,
}

fn lfh_bytes(e: &FixtureEntry) -> Vec<u8> {
    let mut out = Vec::new();
    push_u32(&mut out, 0x04034B50);
    push_u16(&mut out, 20); // version needed
    push_u16(&mut out, 0); // flags
    push_u16(&mut out, e.method);
    push_u16(&mut out, 0); // time
    push_u16(&mut out, 0); // date
    push_u32(&mut out, e.crc);
    push_u32(&mut out, e.data.len() as u32);
    push_u32(&mut out, e.uncompressed_size);
    push_u16(&mut out, e.name.len() as u16);
    push_u16(&mut out, 0); // extra len
    out.extend_from_slice(e.name.as_bytes());
    out
}

fn build_zip(entries: &[FixtureEntry], comment: &str) -> Vec<u8> {
    let mut out = Vec::new();
    let mut offsets = Vec::new();
    for e in entries {
        offsets.push(out.len() as u32);
        let header = lfh_bytes(e);
        out.extend_from_slice(&header);
        out.extend_from_slice(&e.data);
    }
    let cd_off = out.len() as u32;
    for (k, e) in entries.iter().enumerate() {
        push_u32(&mut out, 0x02014B50);
        push_u16(&mut out, 20); // version made by
        push_u16(&mut out, 20); // version needed
        push_u16(&mut out, 0); // flags
        push_u16(&mut out, e.method);
        push_u16(&mut out, 0); // time
        push_u16(&mut out, 0); // date
        push_u32(&mut out, e.crc);
        push_u32(&mut out, e.data.len() as u32);
        push_u32(&mut out, e.uncompressed_size);
        push_u16(&mut out, e.name.len() as u16);
        push_u16(&mut out, 0); // extra len
        push_u16(&mut out, 0); // comment len
        push_u16(&mut out, 0); // disk
        push_u16(&mut out, 0); // internal attrs
        push_u32(&mut out, 0); // external attrs
        push_u32(&mut out, offsets[k]);
        out.extend_from_slice(e.name.as_bytes());
    }
    let cd_size = out.len() as u32 - cd_off;
    push_u32(&mut out, 0x06054B50);
    push_u16(&mut out, 0); // disk
    push_u16(&mut out, 0); // cd disk
    push_u16(&mut out, entries.len() as u16);
    push_u16(&mut out, entries.len() as u16);
    push_u32(&mut out, cd_size);
    push_u32(&mut out, cd_off);
    push_u16(&mut out, comment.len() as u16);
    out.extend_from_slice(comment.as_bytes());
    out
}

fn stored(name: &'static str, payload: &[u8]) -> FixtureEntry {
    FixtureEntry {
        name,
        method: 0,
        crc: crc32fast::hash(payload),
        data: payload.to_vec(),
        uncompressed_size: payload.len() as u32,
    }
}

fn deflated(name: &'static str, payload: &[u8]) -> FixtureEntry {
    let mut enc = flate2::read::DeflateEncoder::new(payload, flate2::Compression::default());
    let mut data = Vec::new();
    enc.read_to_end(&mut data).unwrap();
    FixtureEntry {
        name,
        method: 8,
        crc: crc32fast::hash(payload),
        data,
        uncompressed_size: payload.len() as u32,
    }
}

#[test]
fn builder_defaults_comment_zip64_build() {
    let file = ZipFileBuilder::new().comment(String::from("hello")).zip64(true).build();
    assert_eq!(file.comment(), "hello");
    assert!(file.zip64());
    assert_eq!(file.entries().len(), 0);
    let rebuilt = ZipFileBuilder::from(file).zip64(false).build();
    assert_eq!(rebuilt.comment(), "hello");
    assert!(!rebuilt.zip64());
    let default_file = ZipFileBuilder::default().build();
    assert_eq!(default_file.comment(), "");
    assert!(!default_file.zip64());
}

#[test]
fn stored_round_trip_seek() {
    let zip = build_zip(
        &[stored("a.txt", b"first payload"), stored("b.txt", b"second")],
        "archive comment",
    );
    let mut reader = zip_read::seek::ZipFileReader::new(ByteSource::new(zip)).unwrap();
    assert_eq!(reader.file().entries().len(), 2);
    assert_eq!(reader.file().comment(), "archive comment");
    assert_eq!(reader.file().entries()[0].filename(), "a.txt");
    assert_eq!(reader.file().entries()[1].filename(), "b.txt");
    let first = reader.entry(0).unwrap().read_to_end_crc().unwrap();
    assert_eq!(first, b"first payload");
    let second = reader.entry(1).unwrap().read_to_end_crc().unwrap();
    assert_eq!(second, b"second");
}

#[test]
fn entry_any_order_and_repeats() {
    let zip = build_zip(
        &[stored("a", b"alpha"), deflated("b", b"beta beta beta"), stored("c", b"gamma")],
        "",
    );
    let mut reader = zip_read::seek::ZipFileReader::new(ByteSource::new(zip.clone())).unwrap();
    let ordered: Vec<Vec<u8>> =
        (0..3).map(|i| reader.entry(i).unwrap().read_to_end_crc().unwrap()).collect();
    let mut again = zip_read::seek::ZipFileReader::new(ByteSource::new(zip)).unwrap();
    let c = again.entry(2).unwrap().read_to_end_crc().unwrap();
    let b1 = again.entry(1).unwrap().read_to_end_crc().unwrap();
    let a = again.entry(0).unwrap().read_to_end_crc().unwrap();
    let b2 = again.entry(1).unwrap().read_to_end_crc().unwrap();
    assert_eq!(a, ordered[0]);
    assert_eq!(b1, ordered[1]);
    assert_eq!(b2, ordered[1]);
    assert_eq!(c, ordered[2]);
}

#[test]
fn deflate_round_trip() {
    let payload = b"compressible compressible compressible data".repeat(20);
    let zip = build_zip(&[deflated("d.bin", &payload)], "");
    let mut reader = zip_read::seek::ZipFileReader::new(ByteSource::new(zip)).unwrap();
    let out = reader.entry(0).unwrap().read_to_end_crc().unwrap();
    assert_eq!(out, payload);
}

#[test]
fn bzip2_round_trip() {
    let payload = b"bz payload bz payload bz payload".repeat(10);
    let mut enc = bzip2::read::BzEncoder::new(&payload[..], bzip2::Compression::best());
    let mut data = Vec::new();
    enc.read_to_end(&mut data).unwrap();
    let entry = FixtureEntry {
        name: "f.bz2",
        method: 12,
        crc: crc32fast::hash(&payload),
        data,
        uncompressed_size: payload.len() as u32,
    };
    let zip = build_zip(&[entry], "");
    let mut reader = zip_read::seek::ZipFileReader::new(ByteSource::new(zip)).unwrap();
    let out = reader.entry(0).unwrap().read_to_end_crc().unwrap();
    assert_eq!(out, payload);
}

#[test]
fn zstd_round_trip() {
    let payload = b"zstd payload zstd payload".repeat(12);
    let data = zstd::stream::encode_all(&payload[..], 0).unwrap();
    let entry = FixtureEntry {
        name: "f.zst",
        method: 93,
        crc: crc32fast::hash(&payload),
        data,
        uncompressed_size: payload.len() as u32,
    };
    let zip = build_zip(&[entry], "");
    let mut reader = zip_read::seek::ZipFileReader::new(ByteSource::new(zip)).unwrap();
    let out = reader.entry(0).unwrap().read_to_end_crc().unwrap();
    assert_eq!(out, payload);
}

#[test]
fn xz_round_trip() {
    let payload = b"xz payload xz payload xz".repeat(9);
    let mut enc = liblzma::read::XzEncoder::new(&payload[..], 6);
    let mut data = Vec::new();
    enc.read_to_end(&mut data).unwrap();
    let entry = FixtureEntry {
        name: "f.xz",
        method: 95,
        crc: crc32fast::hash(&payload),
        data,
        uncompressed_size: payload.len() as u32,
    };
    let zip = build_zip(&[entry], "");
    let mut reader = zip_read::seek::ZipFileReader::new(ByteSource::new(zip)).unwrap();
    let out = reader.entry(0).unwrap().read_to_end_crc().unwrap();
    assert_eq!(out, payload);
}

#[test]
fn lzma_round_trip() {
    let payload = b"lzma payload lzma payload".repeat(8);
    let options = liblzma::stream::LzmaOptions::new_preset(6).unwrap();
    let stream = liblzma::stream::Stream::new_lzma_encoder(&options).unwrap();
    let mut enc = liblzma::read::XzEncoder::new_stream(&payload[..], stream);
    let mut data = Vec::new();
    enc.read_to_end(&mut data).unwrap();
    let entry = FixtureEntry {
        name: "f.lzma",
        method: 14,
        crc: crc32fast::hash(&payload),
        data,
        uncompressed_size: payload.len() as u32,
    };
    let zip = build_zip(&[entry], "");
    let mut reader = zip_read::seek::ZipFileReader::new(ByteSource::new(zip)).unwrap();
    let out = reader.entry(0).unwrap().read_to_end_crc().unwrap();
    assert_eq!(out, payload);
}

#[test]
fn crc_mismatch_detected() {
    let mut entry = stored("bad", b"payload bytes");
    entry.crc = entry.crc.wrapping_add(1);
    let zip = build_zip(&[entry], "");
    let mut reader = zip_read::seek::ZipFileReader::new(ByteSource::new(zip)).unwrap();
    let err = expect_err(reader.entry(0).unwrap().read_to_end_crc());
    assert_eq!(err, ZipError::CRC32CheckError);
}

#[test]
fn entry_index_out_of_bounds() {
    let zip = build_zip(&[stored("only", b"x")], "");
    let mut reader = zip_read::seek::ZipFileReader::new(ByteSource::new(zip)).unwrap();
    let err = expect_err(reader.entry(1));
    assert_eq!(err, ZipError::EntryIndexOutOfBounds);
}

#[test]
fn empty_entry_crc_is_zero() {
    let entry = stored("empty", b"");
    assert_eq!(entry.crc, 0x00000000);
    let zip = build_zip(&[entry], "");
    let mut reader = zip_read::seek::ZipFileReader::new(ByteSource::new(zip)).unwrap();
    let out = reader.entry(0).unwrap().read_to_end_crc().unwrap();
    assert!(out.is_empty());
}

#[test]
fn stored_kind_is_byte_identical() {
    let payload = b"identity bytes";
    let decoder = CompressionReader::from_reader(&Compression::Stored, payload.to_vec());
    let entry = zip_read::entry::ZipEntry {
        filename: String::from("id"),
        compression: Compression::Stored,
        crc32: crc32fast::hash(payload),
        compressed_size: payload.len() as u64,
        uncompressed_size: payload.len() as u64,
        offset: 0,
        internal_attributes: 0,
        external_attributes: 0,
    };
    let er = ZipEntryReader::from_raw(entry, decoder, false);
    assert_eq!(er.read_to_end_crc().unwrap(), payload);
}

#[test]
fn stream_sequential_pass() {
    let zip = build_zip(&[stored("one", b"payload one"), deflated("two", b"payload two")], "");
    let reader = zip_read::stream::ZipFileReader::new(ByteSource::new(zip));
    let first = reader.next_entry().unwrap().unwrap();
    assert_eq!(first.entry().filename(), "one");
    let (content, mut reading) = {
        let mut reading = first;
        let mut out = Vec::new();
        loop {
            let chunk = reading.reader().read(7).unwrap();
            if chunk.is_empty() {
                break;
            }
            out.extend_from_slice(&chunk);
        }
        (out, reading)
    };
    assert_eq!(content, b"payload one");
    assert!(reading.reader().consumed());
    let ready = reading.done().unwrap();
    let second = ready.next_entry().unwrap().unwrap();
    assert_eq!(second.entry().filename(), "two");
    let ready = second.skip().unwrap();
    assert!(ready.next_entry().unwrap().is_none());
}

#[test]
fn stream_skip_then_next_unaffected() {
    let zip = build_zip(
        &[stored("first", b"0123456789"), stored("second", b"abcdef")],
        "",
    );
    let reader = zip_read::stream::ZipFileReader::new(ByteSource::new(zip));
    let reading = reader.next_entry().unwrap().unwrap();
    let ready = reading.skip().unwrap();
    let second = ready.next_entry().unwrap().unwrap();
    assert_eq!(second.entry().filename(), "second");
    assert_eq!(second.entry().uncompressed_size(), 6);
    assert_eq!(second.entry().crc32(), crc32fast::hash(b"abcdef"));
    let mut reading = second;
    let chunk = reading.reader().read(100).unwrap();
    assert_eq!(chunk, b"abcdef");
}

#[test]
fn done_with_unread_bytes_is_consistency_error() {
    let zip = build_zip(&[stored("ten", b"0123456789")], "");
    let reader = zip_read::stream::ZipFileReader::new(ByteSource::new(zip));
    let mut reading = reader.next_entry().unwrap().unwrap();
    let chunk = reading.reader().read(5).unwrap();
    assert_eq!(chunk, b"01234");
    let err = expect_err(reading.done());
    assert_eq!(err, ZipError::ConsistencyError);
    assert_ne!(err, ZipError::CRC32CheckError);
}

#[test]
fn done_after_full_read_succeeds() {
    let zip = build_zip(&[stored("ten", b"0123456789")], "");
    let reader = zip_read::stream::ZipFileReader::new(ByteSource::new(zip));
    let mut reading = reader.next_entry().unwrap().unwrap();
    loop {
        if reading.reader().read(4).unwrap().is_empty() {
            break;
        }
    }
    assert!(reading.done().is_ok());
}

#[test]
fn copy_verified_buffer_sizes_agree() {
    let payload = b"copy me with any buffer size".repeat(30);
    let zip = build_zip(&[deflated("c", &payload)], "");
    let mut outputs = Vec::new();
    for buffer in [1usize, 64, 65536] {
        let mut reader = zip_read::seek::ZipFileReader::new(ByteSource::new(zip.clone())).unwrap();
        let er = reader.entry(0).unwrap();
        let mut sink = ByteSink::new();
        er.copy_to_end_crc(&mut sink, buffer).unwrap();
        outputs.push(sink.into_vec());
    }
    assert_eq!(outputs[0], payload);
    assert_eq!(outputs[0], outputs[1]);
    assert_eq!(outputs[1], outputs[2]);
}

#[test]
fn copy_verified_reports_mismatch_after_writing() {
    let mut entry = stored("bad", b"written anyway");
    entry.crc ^= 0xFFFF;
    let zip = build_zip(&[entry], "");
    let mut reader = zip_read::seek::ZipFileReader::new(ByteSource::new(zip)).unwrap();
    let er = reader.entry(0).unwrap();
    let mut sink = ByteSink::new();
    let err = expect_err(er.copy_to_end_crc(&mut sink, 8));
    assert_eq!(err, ZipError::CRC32CheckError);
    assert_eq!(sink.into_vec(), b"written anyway");
}

#[test]
fn read_to_string_crc_text_and_invalid_utf8() {
    let zip = build_zip(&[stored("t.txt", "grüße".as_bytes())], "");
    let mut reader = zip_read::seek::ZipFileReader::new(ByteSource::new(zip)).unwrap();
    let text = reader.entry(0).unwrap().read_to_string_crc().unwrap();
    assert_eq!(text, "grüße");

    let zip = build_zip(&[stored("bin", &[0xFF, 0xFE, 0x01])], "");
    let mut reader = zip_read::seek::ZipFileReader::new(ByteSource::new(zip)).unwrap();
    let err = expect_err(reader.entry(0).unwrap().read_to_string_crc());
    assert_eq!(err, ZipError::StringNotUtf8);
}

#[test]
fn consumed_flag_and_single_use_compare() {
    let payload = b"abc";
    let zip = build_zip(&[stored("s", payload)], "");
    let mut reader = zip_read::seek::ZipFileReader::new(ByteSource::new(zip)).unwrap();
    let mut er = reader.entry(0).unwrap();
    assert!(!er.consumed());
    loop {
        if er.read(2).unwrap().is_empty() {
            break;
        }
    }
    assert!(er.consumed());
    assert!(er.compare_crc());
    // The comparison consumed the accumulator: a second one sees a fresh one.
    assert_eq!(er.compare_crc(), crc32fast::hash(payload) == 0);
}

#[test]
fn bad_local_header_signature() {
    let mut zip = build_zip(&[stored("x", b"data")], "");
    zip[0] = 0x51; // corrupt the first signature byte
    let reader = zip_read::stream::ZipFileReader::new(ByteSource::new(zip));
    let err = expect_err(reader.next_entry());
    assert!(matches!(err, ZipError::UnexpectedHeaderError(_, 0x04034B50)));
}

#[test]
fn missing_eocd_record() {
    let garbage = vec![7u8; 64];
    let err = expect_err(zip_read::seek::ZipFileReader::new(ByteSource::new(garbage)));
    assert_eq!(err, ZipError::UnableToLocateEOCDR);
}

#[test]
fn unsupported_compression_id() {
    let mut entry = stored("odd", b"data");
    entry.method = 99;
    let zip = build_zip(&[entry], "");
    let err = expect_err(zip_read::seek::ZipFileReader::new(ByteSource::new(zip)));
    assert_eq!(err, ZipError::UnsupportedCompressionError(99));
}

#[test]
fn stored_size_mismatch_rejected() {
    let mut entry = stored("odd", b"data");
    entry.uncompressed_size = 7;
    let zip = build_zip(&[entry], "");
    let err = expect_err(zip_read::seek::ZipFileReader::new(ByteSource::new(zip)));
    assert_eq!(err, ZipError::StoredSizeMismatchError(4, 7));
}

#[test]
fn zip64_markers_rejected() {
    let mut zip = build_zip(&[stored("x", b"data")], "");
    let n = zip.len();
    zip[n - 10] = 0xFF; // central directory size reads as 0xFFFFFFFF
    zip[n - 9] = 0xFF;
    zip[n - 8] = 0xFF;
    zip[n - 7] = 0xFF;
    let err = expect_err(zip_read::seek::ZipFileReader::new(ByteSource::new(zip)));
    assert_eq!(err, ZipError::FeatureNotSupported);
}

#[test]
fn non_utf8_filename_rejected() {
    let entry = stored("ab", b"data");
    let mut zip = build_zip(&[entry], "");
    zip[30] = 0xFF; // first filename byte in the local header
    let reader = zip_read::stream::ZipFileReader::new(ByteSource::new(zip));
    let err = expect_err(reader.next_entry());
    assert_eq!(err, ZipError::StringNotUtf8);
}

#[test]
fn from_parts_and_inner_access() {
    let zip = build_zip(&[stored("x", b"data")], "");
    let reader = zip_read::seek::ZipFileReader::new(ByteSource::new(zip.clone())).unwrap();
    let file = {
        let f = reader.file();
        zip_read::file::ZipFileBuilder::from(zip_read::file::ZipFile {
            entries: f.entries().clone(),
            zip64: f.zip64(),
            comment: f.comment().clone(),
        })
        .build()
    };
    let source = reader.into_inner();
    assert_eq!(source.into_vec(), zip);
    let mut reopened =
        zip_read::seek::ZipFileReader::from_parts(ByteSource::new(zip.clone()), file);
    assert_eq!(reopened.inner_mut().len(), zip.len());
}

#[test]
fn list_names_sequential() {
    let zip = build_zip(
        &[stored("first", b"aaa"), deflated("second", b"bbb"), stored("third", b"")],
        "",
    );
    let names = zip_read::stream::list_names(ByteSource::new(zip)).unwrap();
    assert_eq!(names, vec!["first", "second", "third"]);
}

#[test]
fn into_entry_consuming_variant() {
    let zip = build_zip(&[stored("x", b"consumed read")], "");
    let reader = zip_read::seek::ZipFileReader::new(ByteSource::new(zip)).unwrap();
    let out = reader.into_entry(0).unwrap().read_to_end_crc().unwrap();
    assert_eq!(out, b"consumed read");
}

#[test]
fn corrupt_deflate_stream_fails_decoding() {
    let payload = b"will be corrupted".repeat(10);
    let mut entry = deflated("z", &payload);
    for b in entry.data.iter_mut() {
        *b ^= 0xA5;
    }
    let data_len = entry.data.len() as u32;
    let zip = build_zip(&[entry], "");
    let mut reader = zip_read::seek::ZipFileReader::new(ByteSource::new(zip)).unwrap();
    assert_eq!(reader.file().entries()[0].compressed_size(), data_len as u64);
    let err = expect_err(reader.entry(0).unwrap().read_to_end_crc());
    assert_eq!(err, ZipError::UpstreamReadError);
}
