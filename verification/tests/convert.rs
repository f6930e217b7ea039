//! End-to-end conversion tests on synthetic recordings, reading the emitted
//! container back through the mp4 crate.

use std::io::Cursor;

use vraw_convert::parser::{FormatError, VideoCaptureFormat};
use vraw_convert::processing::convert_vraw;
use vraw_convert::ConvertError;

const FRAME_MAGIC: u32 = 0xAAAAFEED;
const INDEX_FOOTER_MAGIC: u32 = 0xDCBAFEED;
const GENERIC_METADATA_MAGIC: u32 = 0xBACCDEEF;

const CODE_RGB: i32 = 0;
const CODE_H265: i32 = -4602;
const CODE_MJPEG: i32 = -4603;
const CODE_STATS: i32 = -4701;

fn frame_record(
    width: i32,
    height: i32,
    format_code: i32,
    receive_timestamp: i64,
    payload: &[u8],
    metadata_body: &[u8],
) -> Vec<u8> {
    let mut out = Vec::new();
    out.extend_from_slice(&FRAME_MAGIC.to_le_bytes());
    out.extend_from_slice(&7i32.to_le_bytes()); // id
    out.extend_from_slice(&0i32.to_le_bytes()); // padding
    out.extend_from_slice(&width.to_le_bytes());
    out.extend_from_slice(&height.to_le_bytes());
    out.extend_from_slice(&format_code.to_le_bytes());
    out.extend_from_slice(&(receive_timestamp - 10).to_le_bytes()); // capture ts
    out.extend_from_slice(&receive_timestamp.to_le_bytes());
    out.extend_from_slice(&(payload.len() as i64).to_le_bytes());
    out.extend_from_slice(payload);
    out.extend_from_slice(&GENERIC_METADATA_MAGIC.to_le_bytes());
    out.extend_from_slice(&(metadata_body.len() as u32).to_le_bytes());
    out.extend_from_slice(metadata_body);
    out.extend_from_slice(&[0u8; 8]); // unvalidated trailer
    out
}

fn build_recording(frames: &[(Vec<u8>, i64)]) -> Vec<u8> {
    let mut out = Vec::new();
    out.extend_from_slice(&0xFEEDFEEDu32.to_le_bytes());
    out.extend_from_slice(&0u32.to_le_bytes()); // relative nsec
    out.extend_from_slice(&0u64.to_le_bytes()); // epoch seconds
    let mut entries: Vec<(i64, i64)> = Vec::new();
    for (record, receive_timestamp) in frames {
        entries.push((out.len() as i64, *receive_timestamp));
        out.extend_from_slice(record);
    }
    for (offset, receive_timestamp) in &entries {
        out.extend_from_slice(&offset.to_le_bytes());
        out.extend_from_slice(&receive_timestamp.to_le_bytes());
    }
    out.extend_from_slice(&INDEX_FOOTER_MAGIC.to_le_bytes());
    out.extend_from_slice(&(entries.len() as u32).to_le_bytes());
    out
}

fn hevc_frame(receive_timestamp: i64, payload: &[u8]) -> (Vec<u8>, i64) {
    (frame_record(0, 0, CODE_H265, receive_timestamp, payload, b""), receive_timestamp)
}

fn stats_frame(receive_timestamp: i64) -> (Vec<u8>, i64) {
    (frame_record(0, 0, CODE_STATS, receive_timestamp, b"telemetry", b""), receive_timestamp)
}

const MS: i64 = 1_000_000; // nanoseconds per millisecond

#[test]
fn hevc_conversion_writes_one_track_and_one_sample_per_later_frame() {
    // One telemetry frame, then four HEVC frames: the first HEVC frame seeds
    // the track and the timestamp baseline, the other three become samples.
    let frames = vec![
        stats_frame(5),
        hevc_frame(1000 * MS, b"seed-frame"),
        hevc_frame(1040 * MS, b"sample-one"),
        hevc_frame(1080 * MS, b"sample-two!"),
        hevc_frame(1120 * MS, b"sample-three"),
    ];
    let data = build_recording(&frames);
    let (format, bytes) = convert_vraw(&data).unwrap();
    assert_eq!(format, VideoCaptureFormat::H265);

    let size = bytes.len() as u64;
    let mut reader = mp4::Mp4Reader::read_header(Cursor::new(bytes), size).unwrap();
    assert_eq!(reader.tracks().len(), 1);
    assert_eq!(reader.sample_count(1).unwrap(), 3);

    let s1 = reader.read_sample(1, 1).unwrap().unwrap();
    assert_eq!(&s1.bytes[..], b"sample-one");
    assert_eq!(s1.duration, 40);
    let s2 = reader.read_sample(1, 2).unwrap().unwrap();
    assert_eq!(&s2.bytes[..], b"sample-two!");
    let s3 = reader.read_sample(1, 3).unwrap().unwrap();
    assert_eq!(&s3.bytes[..], b"sample-three");
}

#[test]
fn hevc_conversion_stops_at_first_undecodable_frame() {
    // A corrupt frame mid-recording is the usable end of the stream: the
    // conversion still succeeds, with only the samples written before it.
    let mut corrupt = frame_record(0, 0, CODE_H265, 3000 * MS, b"broken", b"");
    corrupt[0] ^= 0xFF;
    let frames = vec![
        hevc_frame(1000 * MS, b"seed-frame"),
        hevc_frame(2000 * MS, b"sample-one"),
        (corrupt, 3000 * MS),
        hevc_frame(4000 * MS, b"never-written"),
    ];
    let data = build_recording(&frames);
    let (format, bytes) = convert_vraw(&data).unwrap();
    assert_eq!(format, VideoCaptureFormat::H265);

    let size = bytes.len() as u64;
    let reader = mp4::Mp4Reader::read_header(Cursor::new(bytes), size).unwrap();
    assert_eq!(reader.tracks().len(), 1);
    assert_eq!(reader.sample_count(1).unwrap(), 1);
}

#[test]
fn hevc_durations_round_to_nearest_millisecond() {
    // Deltas of 1.5 ms and 1.4 ms round to 2 ms and 1 ms.
    let frames = vec![
        hevc_frame(1000 * MS, b"seed-frame"),
        hevc_frame(1000 * MS + 1_500_000, b"sample-one"),
        hevc_frame(1000 * MS + 1_500_000 + 1_400_000, b"sample-two"),
    ];
    let data = build_recording(&frames);
    let (_, bytes) = convert_vraw(&data).unwrap();
    let size = bytes.len() as u64;
    let mut reader = mp4::Mp4Reader::read_header(Cursor::new(bytes), size).unwrap();
    let s1 = reader.read_sample(1, 1).unwrap().unwrap();
    assert_eq!(s1.duration, 2);
    let s2 = reader.read_sample(1, 2).unwrap().unwrap();
    assert_eq!(s2.duration, 1);
}

#[test]
fn telemetry_only_recording_has_no_video_frame() {
    let frames = vec![stats_frame(1), stats_frame(2), stats_frame(3)];
    let data = build_recording(&frames);
    assert_eq!(convert_vraw(&data), Err(ConvertError::NoVideoFrame));
}

#[test]
fn empty_index_has_no_video_frame() {
    let data = build_recording(&[]);
    assert_eq!(convert_vraw(&data), Err(ConvertError::NoVideoFrame));
}

#[test]
fn mjpeg_conversion_concatenates_payloads() {
    let frames = vec![
        (frame_record(0, 0, CODE_MJPEG, 100, b"jpeg-one", b"m"), 100i64),
        (frame_record(0, 0, CODE_MJPEG, 200, b"jpeg-two", b""), 200i64),
    ];
    let data = build_recording(&frames);
    let (format, bytes) = convert_vraw(&data).unwrap();
    assert_eq!(format, VideoCaptureFormat::Mjpeg);
    assert_eq!(bytes, b"jpeg-onejpeg-two".to_vec());
}

#[test]
fn mjpeg_conversion_passes_other_formats_through() {
    // The MJPEG path appends every decodable frame's payload, telemetry
    // included: the pass-through is deliberate.
    let frames = vec![
        (frame_record(0, 0, CODE_MJPEG, 100, b"jpeg-one", b""), 100i64),
        (frame_record(0, 0, CODE_STATS, 150, b"telemetry", b""), 150i64),
        (frame_record(0, 0, CODE_MJPEG, 200, b"jpeg-two", b""), 200i64),
    ];
    let data = build_recording(&frames);
    let (format, bytes) = convert_vraw(&data).unwrap();
    assert_eq!(format, VideoCaptureFormat::Mjpeg);
    assert_eq!(bytes, b"jpeg-onetelemetryjpeg-two".to_vec());
}

#[test]
fn mjpeg_conversion_fails_on_undecodable_frame() {
    let first = frame_record(0, 0, CODE_MJPEG, 100, b"jpeg-one", b"");
    let corrupt_offset = 16 + first.len() as i64;
    let mut corrupt = frame_record(0, 0, CODE_MJPEG, 200, b"broken", b"");
    corrupt[0] ^= 0xFF;
    let frames = vec![(first, 100i64), (corrupt, 200i64)];
    let data = build_recording(&frames);
    assert_eq!(
        convert_vraw(&data),
        Err(ConvertError::FrameRead {
            offset: corrupt_offset,
            error: FormatError::MagicMismatch {
                expected: FRAME_MAGIC as u64,
                found: (FRAME_MAGIC ^ 0xFF) as u64,
            },
        })
    );
}

#[test]
fn unsupported_dominant_format_fails() {
    let frames = vec![
        stats_frame(5),
        (frame_record(640, 480, CODE_RGB, 100, b"pixels", b""), 100i64),
    ];
    let data = build_recording(&frames);
    assert_eq!(convert_vraw(&data), Err(ConvertError::UnsupportedFormat));
}

#[test]
fn dominant_scan_passes_over_undecodable_entries() {
    // An entry that does not decode is skipped while classifying; the HEVC
    // path then fails hard on it while seeding, as a frame it must read.
    let mut corrupt = frame_record(0, 0, CODE_H265, 100, b"broken", b"");
    corrupt[0] ^= 0xFF;
    let frames = vec![(corrupt, 100i64), hevc_frame(200 * MS, b"seed-frame")];
    let data = build_recording(&frames);
    assert_eq!(
        convert_vraw(&data),
        Err(ConvertError::FrameRead {
            offset: 16,
            error: FormatError::MagicMismatch {
                expected: FRAME_MAGIC as u64,
                found: (FRAME_MAGIC ^ 0xFF) as u64,
            },
        })
    );
}

#[test]
fn short_input_fails_as_index_read() {
    let data = vec![1u8, 2, 3];
    assert_eq!(
        convert_vraw(&data),
        Err(ConvertError::IndexRead(FormatError::SourceUnderrun))
    );
    let mut data = build_recording(&[stats_frame(1)]);
    let n = data.len();
    data[n - 8] ^= 0x01;
    assert_eq!(
        convert_vraw(&data),
        Err(ConvertError::IndexRead(FormatError::MagicMismatch {
            expected: INDEX_FOOTER_MAGIC as u64,
            found: (INDEX_FOOTER_MAGIC ^ 0x01) as u64,
        }))
    );
}

#[test]
fn conversion_strips_placement_metadata_from_samples() {
    // The placement footer declares 4 bytes of metadata; the sample written
    // to the container carries only the true frame bytes.
    let mut payload = b"frame-bytes".to_vec();
    payload.extend_from_slice(&[0xEE; 4]);
    payload.extend_from_slice(&4u16.to_le_bytes());
    payload.extend_from_slice(&[0x00, 0x00, 0x00, 0x56, 0x4A]);
    let frames = vec![
        hevc_frame(1000 * MS, b"seed-frame"),
        (frame_record(0, 0, CODE_H265, 2000 * MS, &payload, b""), 2000 * MS),
    ];
    let data = build_recording(&frames);
    let (_, bytes) = convert_vraw(&data).unwrap();
    let size = bytes.len() as u64;
    let mut reader = mp4::Mp4Reader::read_header(Cursor::new(bytes), size).unwrap();
    assert_eq!(reader.sample_count(1).unwrap(), 1);
    let s1 = reader.read_sample(1, 1).unwrap().unwrap();
    assert_eq!(&s1.bytes[..], b"frame-bytes");
}

#[test]
fn error_messages_name_the_failing_step_and_context() {
    assert_eq!(
        ConvertError::NoVideoFrame.message(),
        "vraw_convert: unable to find a video frame"
    );
    assert_eq!(
        FormatError::MagicMismatch { expected: 10, found: 7 }.message(),
        "magic does not match: expected 10, found 7"
    );
    assert_eq!(
        FormatError::UnknownFormat { code: -9 }.message(),
        "Unknown video capture format -9"
    );
    assert_eq!(
        ConvertError::FrameRead { offset: 16, error: FormatError::SourceUnderrun }.message(),
        "vraw_convert: unable to read frame at offset 16: source ended before the record was complete"
    );
}
