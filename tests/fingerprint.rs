use vector_core::buffer::{Variant, WhenFull};
use vector_core::fingerprint::{FailureReport, FileFingerprint, FingerprintStrategy, Fingerprinter, LineReader, ReadFailure};

#[test]
fn legacy_of_checksums_is_the_checksum() {
    assert_eq!(FileFingerprint::BytesChecksum(12).to_legacy(), 12);
    assert_eq!(FileFingerprint::FirstLineChecksum(13).to_legacy(), 13);
    assert_eq!(FileFingerprint::Unknown(14).to_legacy(), 14);
    assert_eq!(FileFingerprint::from(15u64), FileFingerprint::Unknown(15));
}

#[test]
fn legacy_of_dev_inode_is_crc_of_big_endian_bytes() {
    assert_eq!(FileFingerprint::DevInode(42, 256).to_legacy(), 3_889_081_645_355_215_125);
    assert_eq!(FileFingerprint::DevInode(1, 2).to_legacy(), 9_229_001_608_204_294_032);
}

#[test]
fn checksum_fingerprints() {
    let data = b"123456789".to_vec();
    assert_eq!(Fingerprinter::bytes_fingerprint(&data), FileFingerprint::BytesChecksum(0x6c40_df5f_0b49_7347));
    assert_eq!(Fingerprinter::first_line_fingerprint(&data), FileFingerprint::FirstLineChecksum(0x6c40_df5f_0b49_7347));
    assert_eq!(Fingerprinter::bytes_fingerprint(&vec![]), FileFingerprint::BytesChecksum(0));
}

#[test]
fn buffer_variant_when_full() {
    let m = Variant::Memory { max_events: 10, when_full: WhenFull::Block };
    let d = Variant::Disk { max_size: 100, when_full: WhenFull::DropNewest, data_dir: "/tmp".into(), name: "b".into() };
    assert_eq!(m.when_full(), WhenFull::Block);
    assert_eq!(d.when_full(), WhenFull::DropNewest);
}

fn first_line(capacity: usize, chunks: &[&[u8]]) -> (Vec<u8>, bool) {
    let mut reader = LineReader::new(capacity, b'\n');
    let mut done = false;
    for c in chunks {
        assert!(reader.room() >= c.len());
        if reader.take_chunk(&c.to_vec()) {
            done = true;
            break;
        }
    }
    (reader.into_buffer(), done)
}

#[test]
fn first_line_skips_leading_nuls_and_pads() {
    let (buf, done) = first_line(16, &[b"\x00\x00hello world\n"]);
    assert!(done);
    assert_eq!(buf, b"hello world\n\x00\x00\x00\x00".to_vec());
}

#[test]
fn first_line_stops_at_first_newline() {
    let (buf, done) = first_line(32, &[b"hello world\nthe next line\n"]);
    assert!(done);
    let mut want = b"hello world\n".to_vec();
    want.resize(32, 0);
    assert_eq!(buf, want);
}

#[test]
fn first_line_skips_leading_newlines_and_spans_chunks() {
    let mut reader = LineReader::new(12, b'\n');
    assert!(!reader.take_chunk(&b"\x00\x00\x00".to_vec()));
    assert_eq!(reader.room(), 12);
    assert!(!reader.take_chunk(&b"\n\nab".to_vec()));
    assert_eq!(reader.room(), 10);
    assert!(reader.take_chunk(&b"c\nd".to_vec()));
    let mut want = b"abc\n".to_vec();
    want.resize(12, 0);
    assert_eq!(reader.into_buffer(), want);
}

#[test]
fn first_line_fills_without_newline() {
    let (buf, done) = first_line(5, &[b"abc", b"de"]);
    assert!(!done);
    assert_eq!(buf, b"abcde".to_vec());
}

#[test]
fn failure_reports() {
    let strict = Fingerprinter {
        strategy: FingerprintStrategy::FirstLineChecksum { ignored_header_bytes: 0 },
        max_line_length: 64,
        ignore_not_found: false,
    };
    let lenient = Fingerprinter { ignore_not_found: true, ..strict.clone() };
    assert_eq!(strict.report_for(ReadFailure::UnexpectedEof, false), FailureReport::ChecksumFailed);
    assert_eq!(strict.report_for(ReadFailure::UnexpectedEof, true), FailureReport::Silent);
    assert_eq!(strict.report_for(ReadFailure::NotFound, false), FailureReport::ReadFailed);
    assert_eq!(lenient.report_for(ReadFailure::NotFound, false), FailureReport::Silent);
    assert_eq!(lenient.report_for(ReadFailure::Other, true), FailureReport::ReadFailed);
}
