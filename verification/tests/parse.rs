//! Tests of the index reader, the frame decoder, and the footer recovery
//! scanner, on synthetic recordings.

use vraw_convert::parser::{
    parse_raw_frame, read_index, strip_placement_metadata, FormatError, RecordingIndexEntry,
    VideoCaptureFormat,
};

const FRAME_MAGIC: u32 = 0xAAAAFEED;
const INDEX_FOOTER_MAGIC: u32 = 0xDCBAFEED;
const GENERIC_METADATA_MAGIC: u32 = 0xBACCDEEF;

const CODE_RGB: i32 = 0;
const CODE_H265: i32 = -4602;
const CODE_STATS: i32 = -4701;

fn frame_record(
    width: i32,
    height: i32,
    format_code: i32,
    receive_timestamp: i64,
    payload: &[u8],
    metadata_body: &[u8],
) -> Vec<u8> {
    let mut out = Vec::new();
    out.extend_from_slice(&FRAME_MAGIC.to_le_bytes());
    out.extend_from_slice(&7i32.to_le_bytes()); // id
    out.extend_from_slice(&0i32.to_le_bytes()); // padding
    out.extend_from_slice(&width.to_le_bytes());
    out.extend_from_slice(&height.to_le_bytes());
    out.extend_from_slice(&format_code.to_le_bytes());
    out.extend_from_slice(&(receive_timestamp - 10).to_le_bytes()); // capture ts
    out.extend_from_slice(&receive_timestamp.to_le_bytes());
    out.extend_from_slice(&(payload.len() as i64).to_le_bytes());
    out.extend_from_slice(payload);
    out.extend_from_slice(&GENERIC_METADATA_MAGIC.to_le_bytes());
    out.extend_from_slice(&(metadata_body.len() as u32).to_le_bytes());
    out.extend_from_slice(metadata_body);
    out.extend_from_slice(&[0u8; 8]); // unvalidated trailer
    out
}

fn payload_with_placement_footer(frame_data: &[u8], meta_len: u16) -> Vec<u8> {
    let mut p = frame_data.to_vec();
    p.extend(std::iter::repeat(0xEE).take(meta_len as usize));
    p.extend_from_slice(&meta_len.to_le_bytes());
    p.extend_from_slice(&[0x00, 0x00, 0x00, 0x56, 0x4A]);
    p
}

fn build_recording(frames: &[(Vec<u8>, i64)]) -> Vec<u8> {
    let mut out = Vec::new();
    out.extend_from_slice(&0xFEEDFEEDu32.to_le_bytes());
    out.extend_from_slice(&0u32.to_le_bytes()); // relative nsec
    out.extend_from_slice(&0u64.to_le_bytes()); // epoch seconds
    let mut entries: Vec<(i64, i64)> = Vec::new();
    for (record, receive_timestamp) in frames {
        entries.push((out.len() as i64, *receive_timestamp));
        out.extend_from_slice(record);
    }
    for (offset, receive_timestamp) in &entries {
        out.extend_from_slice(&offset.to_le_bytes());
        out.extend_from_slice(&receive_timestamp.to_le_bytes());
    }
    out.extend_from_slice(&INDEX_FOOTER_MAGIC.to_le_bytes());
    out.extend_from_slice(&(entries.len() as u32).to_le_bytes());
    out
}

// ---------------------------------------------------------------------------
// Index reader

#[test]
fn index_reader_returns_every_declared_entry() {
    let frames = vec![
        (frame_record(0, 0, CODE_STATS, 100, b"st", b"m"), 100i64),
        (frame_record(0, 0, CODE_H265, 200, b"hevc-one", b""), 200i64),
        (frame_record(0, 0, CODE_H265, 300, b"hevc-two", b"meta"), 300i64),
    ];
    let data = build_recording(&frames);
    let entries = read_index(&data).unwrap();
    assert_eq!(entries.len(), 3);
    assert_eq!(entries[0], RecordingIndexEntry { offset: 16, receive_timestamp: 100 });
    assert_eq!(entries[1].receive_timestamp, 200);
    assert_eq!(entries[2].receive_timestamp, 300);
    // Every entry is decodable as a valid frame at its declared offset.
    for e in &entries {
        assert!(parse_raw_frame(&data, e).is_ok());
    }
}

#[test]
fn index_reader_rejects_bad_footer_magic() {
    let frames = vec![(frame_record(0, 0, CODE_H265, 200, b"x", b""), 200i64)];
    let mut data = build_recording(&frames);
    let n = data.len();
    data[n - 8] ^= 0x01;
    assert_eq!(
        read_index(&data),
        Err(FormatError::MagicMismatch {
            expected: INDEX_FOOTER_MAGIC as u64,
            found: (INDEX_FOOTER_MAGIC ^ 0x01) as u64,
        })
    );
}

#[test]
fn index_reader_rejects_truncated_index() {
    let frames = vec![(frame_record(0, 0, CODE_H265, 200, b"x", b""), 200i64)];
    let mut data = build_recording(&frames);
    let n = data.len();
    // Declare far more entries than the file holds.
    data[n - 4] = 0xFF;
    data[n - 3] = 0xFF;
    assert_eq!(read_index(&data), Err(FormatError::SourceUnderrun));
}

#[test]
fn index_reader_accepts_bare_footer() {
    // A source holding nothing but a footer that declares zero entries.
    let mut data = Vec::new();
    data.extend_from_slice(&INDEX_FOOTER_MAGIC.to_le_bytes());
    data.extend_from_slice(&0u32.to_le_bytes());
    assert_eq!(read_index(&data), Ok(vec![]));
}

// ---------------------------------------------------------------------------
// Frame decoder

fn single_frame_recording(record: Vec<u8>) -> (Vec<u8>, RecordingIndexEntry) {
    let data = build_recording(&[(record, 0)]);
    let entries = read_index(&data).unwrap();
    (data, entries[0])
}

#[test]
fn frame_decoder_accepts_valid_raw_frame() {
    let (data, e) = single_frame_recording(frame_record(640, 480, CODE_RGB, 5, b"pixels", b"mm"));
    let info = parse_raw_frame(&data, &e).unwrap();
    assert_eq!(info.resolution, "640x480");
    assert_eq!(info.format, VideoCaptureFormat::Rgb);
    assert_eq!(info.timestamp, 5);
    assert_eq!(info.raw_data, b"pixels".to_vec());
}

#[test]
fn frame_decoder_rejects_any_corrupt_magic_byte() {
    for byte in 0..4usize {
        let (mut data, e) =
            single_frame_recording(frame_record(0, 0, CODE_H265, 5, b"payload", b""));
        data[16 + byte] ^= 0x40;
        let expected_found = FRAME_MAGIC ^ (0x40u32 << (8 * byte as u32));
        assert_eq!(
            parse_raw_frame(&data, &e).err(),
            Some(FormatError::MagicMismatch {
                expected: FRAME_MAGIC as u64,
                found: expected_found as u64,
            })
        );
    }
}

#[test]
fn frame_decoder_rejects_nonzero_geometry_on_coded_frame() {
    // Either a nonzero width or a nonzero height fails a coded frame.
    let (data, e) = single_frame_recording(frame_record(640, 0, CODE_H265, 5, b"p", b""));
    assert_eq!(
        parse_raw_frame(&data, &e).err(),
        Some(FormatError::GeometryMismatch { width: 640, height: 0 })
    );
    let (data, e) = single_frame_recording(frame_record(0, 480, CODE_H265, 5, b"p", b""));
    assert_eq!(
        parse_raw_frame(&data, &e).err(),
        Some(FormatError::GeometryMismatch { width: 0, height: 480 })
    );
}

#[test]
fn frame_decoder_rejects_nonpositive_geometry_on_raw_frame() {
    let (data, e) = single_frame_recording(frame_record(0, 480, CODE_RGB, 5, b"p", b""));
    assert_eq!(
        parse_raw_frame(&data, &e).err(),
        Some(FormatError::GeometryMismatch { width: 0, height: 480 })
    );
    let (data, e) = single_frame_recording(frame_record(640, -1, CODE_RGB, 5, b"p", b""));
    assert_eq!(
        parse_raw_frame(&data, &e).err(),
        Some(FormatError::GeometryMismatch { width: 640, height: -1 })
    );
}

#[test]
fn frame_decoder_ignores_geometry_of_telemetry() {
    let (data, e) = single_frame_recording(frame_record(-5, 7, CODE_STATS, 5, b"t", b""));
    let info = parse_raw_frame(&data, &e).unwrap();
    assert_eq!(info.resolution, "-5x7");
    assert_eq!(info.format, VideoCaptureFormat::Stats);
}

#[test]
fn frame_decoder_rejects_unknown_format_code() {
    let (data, e) = single_frame_recording(frame_record(640, 480, 42, 5, b"p", b""));
    let err = parse_raw_frame(&data, &e).err();
    assert_eq!(err, Some(FormatError::UnknownFormat { code: 42 }));
    // The failure names the offending code.
    assert_eq!(err.unwrap().message(), "Unknown video capture format 42");
}

#[test]
fn frame_decoder_rejects_zero_payload_size() {
    let (data, e) = single_frame_recording(frame_record(0, 0, CODE_H265, 5, b"", b""));
    assert_eq!(
        parse_raw_frame(&data, &e).err(),
        Some(FormatError::InvalidPayloadSize { size: 0 })
    );
}

#[test]
fn frame_decoder_rejects_bad_generic_metadata_magic() {
    let record = frame_record(0, 0, CODE_H265, 5, b"payload", b"");
    let gm_magic_at = 48 + 7; // header + payload
    let mut record = record;
    record[gm_magic_at] ^= 0x01;
    let (data, e) = single_frame_recording(record);
    assert_eq!(
        parse_raw_frame(&data, &e).err(),
        Some(FormatError::MagicMismatch {
            expected: GENERIC_METADATA_MAGIC as u64,
            found: (GENERIC_METADATA_MAGIC ^ 0x01) as u64,
        })
    );
}

#[test]
fn frame_decoder_rejects_offset_past_end() {
    let (data, mut e) = single_frame_recording(frame_record(0, 0, CODE_H265, 5, b"p", b""));
    e.offset = data.len() as i64;
    assert_eq!(parse_raw_frame(&data, &e).err(), Some(FormatError::SourceUnderrun));
    e.offset = -1;
    assert_eq!(parse_raw_frame(&data, &e).err(), Some(FormatError::SourceUnderrun));
}

#[test]
fn frame_decoder_strips_placement_footer() {
    let payload = payload_with_placement_footer(b"frame-bytes", 4);
    let record = frame_record(0, 0, CODE_H265, 5, &payload, b"g");
    let (data, e) = single_frame_recording(record);
    let info = parse_raw_frame(&data, &e).unwrap();
    assert_eq!(info.raw_data, b"frame-bytes".to_vec());
}

#[test]
fn frame_decoder_keeps_footer_bytes_of_telemetry() {
    // The scanner is skipped for telemetry: the payload stays whole even
    // when its tail happens to look like a placement footer.
    let payload = payload_with_placement_footer(b"frame-bytes", 4);
    let record = frame_record(0, 0, CODE_STATS, 5, &payload, b"g");
    let (data, e) = single_frame_recording(record);
    let info = parse_raw_frame(&data, &e).unwrap();
    assert_eq!(info.raw_data, payload);
}

// ---------------------------------------------------------------------------
// Footer recovery scanner

#[test]
fn scanner_strips_exact_tail_footer() {
    let payload = payload_with_placement_footer(b"data", 3);
    let out = strip_placement_metadata(&payload).unwrap();
    assert_eq!(out, b"data".to_vec());
}

#[test]
fn scanner_strips_zero_length_metadata() {
    let payload = payload_with_placement_footer(b"data", 0);
    let out = strip_placement_metadata(&payload).unwrap();
    assert_eq!(out, b"data".to_vec());
}

#[test]
fn scanner_finds_footer_within_probe_window() {
    // Ten junk bytes after the footer: the match lands on the last probe
    // position, and the strip still counts from the true tail.
    let mut payload = payload_with_placement_footer(b"data", 0);
    payload.extend_from_slice(&[9u8; 10]);
    let out = strip_placement_metadata(&payload).unwrap();
    // Stripped: metadata_size (0) + 7 footer bytes, measured from the true
    // tail, so three junk bytes survive in front of the cut.
    let mut expect = payload.clone();
    expect.truncate(payload.len() - 7);
    assert_eq!(out, expect);
}

#[test]
fn scanner_leaves_unmatched_payload_unchanged() {
    let payload = b"no footer anywhere in this payload".to_vec();
    let out = strip_placement_metadata(&payload).unwrap();
    assert_eq!(out, payload);
}

#[test]
fn scanner_misses_footer_beyond_probe_window() {
    // Eleven junk bytes after the footer: one past the probe window, so the
    // payload stands unchanged.
    let mut payload = payload_with_placement_footer(b"data", 0);
    payload.extend_from_slice(&[9u8; 11]);
    let out = strip_placement_metadata(&payload).unwrap();
    assert_eq!(out, payload);
}

#[test]
fn scanner_rejects_oversized_declared_metadata() {
    // A footer whose declared size reaches beyond the payload start.
    let mut payload = b"xy".to_vec();
    payload.extend_from_slice(&100u16.to_le_bytes());
    payload.extend_from_slice(&[0x00, 0x00, 0x00, 0x56, 0x4A]);
    assert_eq!(
        strip_placement_metadata(&payload),
        Err(FormatError::LayoutMismatch { expected: 107, found: 9 })
    );
}
