//! Binary field codec and frame decoding for the vraw recording container.
//!
//! Every record of the container is a fixed little-endian layout. The spec
//! functions in this module describe each layout as a function of the raw
//! byte sequence, and the executable decoders are proved to return exactly
//! the described values (or the described error) on every input.

use vstd::bytes::{spec_u16_from_le_bytes, spec_u32_from_le_bytes, spec_u64_from_le_bytes};
use vstd::bytes::{u16_from_le_bytes, u32_from_le_bytes, u64_from_le_bytes};
use vstd::prelude::*;
use vstd::slice::slice_subrange;

use crate::textfmt::{spec_idec, spec_udec};
use vstd::string::StringExecFns;

verus! {

/// Magic of the 8-byte generic-metadata header that follows every payload.
pub const GENERIC_METADATA_HEADER_MAGIC: u32 = 0xBACCDEEF;
/// Magic of the 48-byte frame header.
pub const RECORDING_FRAME_MAGIC: u32 = 0xAAAAFEED;
/// Magic of the 8-byte index footer at the very end of the file.
pub const RECORDING_INDEX_FOOTER_MAGIC: u32 = 0xDCBAFEED;

/// The five fixed magic bytes that close a placement-metadata footer.
pub const VIDEO_PLACEMENT_METADATA_MAGIC_1: u8 = 0x00;
pub const VIDEO_PLACEMENT_METADATA_MAGIC_2: u8 = 0x00;
pub const VIDEO_PLACEMENT_METADATA_MAGIC_3: u8 = 0x00;
pub const VIDEO_PLACEMENT_METADATA_MAGIC_4: u8 = 0x56;
pub const VIDEO_PLACEMENT_METADATA_MAGIC_5: u8 = 0x4A;

/// How a single decode can fail, with the context needed to reproduce it.
///
/// `LayoutMismatch` is a layout that does not fit the bytes that exist (a
/// slice of the wrong length handed to a fixed-layout decoder, or a declared
/// size reaching past the data), with the byte counts; `MagicMismatch`
/// carries the expected and the found magic; `SourceUnderrun` is a read or
/// seek that would run past the end of the source; the remaining variants
/// are the per-frame validation failures, each with the offending values.
#[derive(Clone, Copy, Debug, PartialEq, Eq, Structural)]
pub enum FormatError {
    LayoutMismatch { expected: u64, found: u64 },
    MagicMismatch { expected: u64, found: u64 },
    SourceUnderrun,
    InvalidPayloadSize { size: i64 },
    UnknownFormat { code: i32 },
    GeometryMismatch { width: i32, height: i32 },
}

/// The text `FormatError::message` renders for each failure.
pub open spec fn spec_format_error_message(e: FormatError) -> Seq<char> {
    match e {
        FormatError::LayoutMismatch { expected, found } => "layout does not fit: expected "@
            + spec_udec(expected as int) + " bytes, found "@ + spec_udec(found as int),
        FormatError::MagicMismatch { expected, found } => "magic does not match: expected "@
            + spec_udec(expected as int) + ", found "@ + spec_udec(found as int),
        FormatError::SourceUnderrun => "source ended before the record was complete"@,
        FormatError::InvalidPayloadSize { size } => "frame size not parsed correctly: "@
            + spec_idec(size as int),
        FormatError::UnknownFormat { code } => "Unknown video capture format "@ + spec_idec(
            code as int,
        ),
        FormatError::GeometryMismatch { width, height } => (
        "frame width and height not parsed correctly: "@ + spec_idec(width as int) + seq!['x']
            + spec_idec(height as int)),
    }
}

impl FormatError {
    /// A human-readable description of the failure, naming the offending
    /// values.
    pub fn message(&self) -> (r: String)
        ensures
            r@ == spec_format_error_message(*self),
    {
        let mut s = String::new();
        match *self {
            FormatError::LayoutMismatch { expected, found } => {
                s.append("layout does not fit: expected ");
                crate::textfmt::push_udec(&mut s, expected);
                s.append(" bytes, found ");
                crate::textfmt::push_udec(&mut s, found);
            },
            FormatError::MagicMismatch { expected, found } => {
                s.append("magic does not match: expected ");
                crate::textfmt::push_udec(&mut s, expected);
                s.append(", found ");
                crate::textfmt::push_udec(&mut s, found);
            },
            FormatError::SourceUnderrun => {
                s.append("source ended before the record was complete");
            },
            FormatError::InvalidPayloadSize { size } => {
                s.append("frame size not parsed correctly: ");
                crate::textfmt::push_idec64(&mut s, size);
            },
            FormatError::UnknownFormat { code } => {
                s.append("Unknown video capture format ");
                crate::textfmt::push_idec32(&mut s, code);
            },
            FormatError::GeometryMismatch { width, height } => {
                s.append("frame width and height not parsed correctly: ");
                crate::textfmt::push_idec32(&mut s, width);
                crate::textfmt::string_push(&mut s, 'x');
                crate::textfmt::push_idec32(&mut s, height);
            },
        }
        proof {
            assert(s@ =~= spec_format_error_message(*self));
        }
        s
    }
}

// ---------------------------------------------------------------------------
// Little-endian field readers

/// The unsigned 16-bit little-endian value at `off`.
pub open spec fn le16(s: Seq<u8>, off: int) -> u16
    recommends
        0 <= off,
        off + 2 <= s.len(),
{
    spec_u16_from_le_bytes(s.subrange(off, off + 2))
}

/// The unsigned 32-bit little-endian value at `off`.
pub open spec fn le32(s: Seq<u8>, off: int) -> u32
    recommends
        0 <= off,
        off + 4 <= s.len(),
{
    spec_u32_from_le_bytes(s.subrange(off, off + 4))
}

/// The unsigned 64-bit little-endian value at `off`.
pub open spec fn le64(s: Seq<u8>, off: int) -> u64
    recommends
        0 <= off,
        off + 8 <= s.len(),
{
    spec_u64_from_le_bytes(s.subrange(off, off + 8))
}

/// Reinterpretation of an unsigned 32-bit value as two's-complement signed.
pub open spec fn i32_of_u32(u: u32) -> i32 {
    if u < 0x8000_0000 {
        u as i32
    } else {
        (u - 0x1_0000_0000) as i32
    }
}

/// Reinterpretation of an unsigned 64-bit value as two's-complement signed.
pub open spec fn i64_of_u64(u: u64) -> i64 {
    if u < 0x8000_0000_0000_0000 {
        u as i64
    } else {
        (u - 0x1_0000_0000_0000_0000) as i64
    }
}

/// The signed 32-bit little-endian value at `off`.
pub open spec fn le_i32(s: Seq<u8>, off: int) -> i32 {
    i32_of_u32(le32(s, off))
}

/// The signed 64-bit little-endian value at `off`.
pub open spec fn le_i64(s: Seq<u8>, off: int) -> i64 {
    i64_of_u64(le64(s, off))
}

fn exec_i32_of_u32(u: u32) -> (r: i32)
    ensures
        r == i32_of_u32(u),
{
    if u < 0x8000_0000 {
        u as i32
    } else {
        let d: u32 = u32::MAX - u;
        -(d as i32) - 1
    }
}

fn exec_i64_of_u64(u: u64) -> (r: i64)
    ensures
        r == i64_of_u64(u),
{
    if u < 0x8000_0000_0000_0000 {
        u as i64
    } else {
        let d: u64 = u64::MAX - u;
        -(d as i64) - 1
    }
}

/// Reads the signed 32-bit little-endian field at `off` of `bytes`.
fn read_i32(bytes: &[u8], off: usize) -> (r: i32)
    requires
        off + 4 <= bytes@.len(),
    ensures
        r == le_i32(bytes@, off as int),
{
    let _n: usize = bytes.len();  // brings the slice's usize length bound into scope
    let u = u32_from_le_bytes(slice_subrange(bytes, off, off + 4));
    exec_i32_of_u32(u)
}

/// Reads the signed 64-bit little-endian field at `off` of `bytes`.
fn read_i64(bytes: &[u8], off: usize) -> (r: i64)
    requires
        off + 8 <= bytes@.len(),
    ensures
        r == le_i64(bytes@, off as int),
{
    let _n: usize = bytes.len();  // brings the slice's usize length bound into scope
    let u = u64_from_le_bytes(slice_subrange(bytes, off, off + 8));
    exec_i64_of_u64(u)
}

/// Reads the unsigned 32-bit little-endian field at `off` of `bytes`.
fn read_u32(bytes: &[u8], off: usize) -> (r: u32)
    requires
        off + 4 <= bytes@.len(),
    ensures
        r == le32(bytes@, off as int),
{
    let _n: usize = bytes.len();  // brings the slice's usize length bound into scope
    u32_from_le_bytes(slice_subrange(bytes, off, off + 4))
}

/// Reads the unsigned 16-bit little-endian field at `off` of `bytes`.
fn read_u16(bytes: &[u8], off: usize) -> (r: u16)
    requires
        off + 2 <= bytes@.len(),
    ensures
        r == le16(bytes@, off as int),
{
    let _n: usize = bytes.len();  // brings the slice's usize length bound into scope
    u16_from_le_bytes(slice_subrange(bytes, off, off + 2))
}

// ---------------------------------------------------------------------------
// Fixed-layout records

/// One 16-byte entry of the trailing random-access index.
#[derive(Clone, Copy, Debug, PartialEq, Eq, Structural)]
pub struct RecordingIndexEntry {
    pub offset: i64,
    pub receive_timestamp: i64,
}

/// The 8-byte footer that closes the trailing index.
#[derive(Clone, Copy, Debug, PartialEq, Eq, Structural)]
pub struct RecordingIndexFooter {
    pub magic: u32,
    pub frame_count: u32,
}

/// The fixed 48-byte header in front of every frame's payload.
#[derive(Clone, Copy, Debug, PartialEq, Eq, Structural)]
pub struct RecordedFrameMetadata {
    pub magic: u32,
    pub id: i32,
    pub padding: i32,
    pub width: i32,
    pub height: i32,
    pub format: i32,
    pub timestamp: i64,
    pub receive_timestamp: i64,
    pub size: i64,
}

/// The 8-byte header of the generic-metadata block after every payload.
#[derive(Clone, Copy, Debug, PartialEq, Eq, Structural)]
pub struct GenericMetadataHeader {
    pub magic: u32,
    pub generic_metadata_size: u32,
}

/// The optional 7-byte placement footer at the tail of a payload.
#[derive(Clone, Copy, Debug, PartialEq, Eq, Structural)]
pub struct VideoPlacementMetadataFooter {
    pub metadata_size: u16,
    pub magic_1: u8,
    pub magic_2: u8,
    pub magic_3: u8,
    pub magic_4: u8,
    pub magic_5: u8,
}

/// The index entry laid out at `off` of `s`.
pub open spec fn spec_index_entry(s: Seq<u8>, off: int) -> RecordingIndexEntry {
    RecordingIndexEntry { offset: le_i64(s, off), receive_timestamp: le_i64(s, off + 8) }
}

/// The index footer laid out at `off` of `s`.
pub open spec fn spec_index_footer(s: Seq<u8>, off: int) -> RecordingIndexFooter {
    RecordingIndexFooter { magic: le32(s, off), frame_count: le32(s, off + 4) }
}

/// The frame header laid out at `off` of `s`.
pub open spec fn spec_frame_metadata(s: Seq<u8>, off: int) -> RecordedFrameMetadata {
    RecordedFrameMetadata {
        magic: le32(s, off),
        id: le_i32(s, off + 4),
        padding: le_i32(s, off + 8),
        width: le_i32(s, off + 12),
        height: le_i32(s, off + 16),
        format: le_i32(s, off + 20),
        timestamp: le_i64(s, off + 24),
        receive_timestamp: le_i64(s, off + 32),
        size: le_i64(s, off + 40),
    }
}

/// The generic-metadata header laid out at `off` of `s`.
pub open spec fn spec_generic_metadata_header(s: Seq<u8>, off: int) -> GenericMetadataHeader {
    GenericMetadataHeader {
        magic: le32(s, off),
        generic_metadata_size: le32(s, off + 4),
    }
}

/// The placement footer laid out at `off` of `s`.
pub open spec fn spec_placement_footer(s: Seq<u8>, off: int) -> VideoPlacementMetadataFooter {
    VideoPlacementMetadataFooter {
        metadata_size: le16(s, off),
        magic_1: s[off + 2],
        magic_2: s[off + 3],
        magic_3: s[off + 4],
        magic_4: s[off + 5],
        magic_5: s[off + 6],
    }
}

/// Decodes the 8-byte index footer and validates its magic.
pub fn parse_recording_index_footer(bytes: &[u8]) -> (r: Result<
    RecordingIndexFooter,
    FormatError,
>)
    ensures
        bytes@.len() != 8 ==> r == Err::<RecordingIndexFooter, FormatError>(
            (FormatError::LayoutMismatch { expected: 8, found: bytes@.len() as u64 }),
        ),
        bytes@.len() == 8 && le32(bytes@, 0) != RECORDING_INDEX_FOOTER_MAGIC ==> r
            == Err::<RecordingIndexFooter, FormatError>(
            (FormatError::MagicMismatch {
                expected: RECORDING_INDEX_FOOTER_MAGIC as u64,
                found: le32(bytes@, 0) as u64,
            }),
        ),
        bytes@.len() == 8 && le32(bytes@, 0) == RECORDING_INDEX_FOOTER_MAGIC ==> r
            == Ok::<RecordingIndexFooter, FormatError>(spec_index_footer(bytes@, 0)),
{
    if bytes.len() != 8 {
        return Err(FormatError::LayoutMismatch { expected: 8, found: bytes.len() as u64 });
    }
    let magic = read_u32(bytes, 0);
    if magic != RECORDING_INDEX_FOOTER_MAGIC {
        return Err(FormatError::MagicMismatch {
            expected: RECORDING_INDEX_FOOTER_MAGIC as u64,
            found: magic as u64,
        });
    }
    let frame_count = read_u32(bytes, 4);
    Ok(RecordingIndexFooter { magic, frame_count })
}

/// Decodes one 16-byte index entry. Entries carry no magic: any 16-byte
/// slice decodes successfully.
pub fn parse_recording_index_entry(bytes: &[u8]) -> (r: Result<RecordingIndexEntry, FormatError>)
    ensures
        bytes@.len() != 16 ==> r == Err::<RecordingIndexEntry, FormatError>(
            (FormatError::LayoutMismatch { expected: 16, found: bytes@.len() as u64 }),
        ),
        bytes@.len() == 16 ==> r == Ok::<RecordingIndexEntry, FormatError>(
            spec_index_entry(bytes@, 0),
        ),
{
    if bytes.len() != 16 {
        return Err(FormatError::LayoutMismatch { expected: 16, found: bytes.len() as u64 });
    }
    let offset = read_i64(bytes, 0);
    let receive_timestamp = read_i64(bytes, 8);
    Ok(RecordingIndexEntry { offset, receive_timestamp })
}

/// Decodes the 48-byte frame header and validates its magic.
pub fn parse_recorded_frame_metadata(bytes: &[u8]) -> (r: Result<
    RecordedFrameMetadata,
    FormatError,
>)
    ensures
        bytes@.len() != 48 ==> r == Err::<RecordedFrameMetadata, FormatError>(
            (FormatError::LayoutMismatch { expected: 48, found: bytes@.len() as u64 }),
        ),
        bytes@.len() == 48 && le32(bytes@, 0) != RECORDING_FRAME_MAGIC ==> r == Err::<
            RecordedFrameMetadata,
            FormatError,
        >(
            (FormatError::MagicMismatch {
                expected: RECORDING_FRAME_MAGIC as u64,
                found: le32(bytes@, 0) as u64,
            }),
        ),
        bytes@.len() == 48 && le32(bytes@, 0) == RECORDING_FRAME_MAGIC ==> r == Ok::<
            RecordedFrameMetadata,
            FormatError,
        >(spec_frame_metadata(bytes@, 0)),
{
    if bytes.len() != 48 {
        return Err(FormatError::LayoutMismatch { expected: 48, found: bytes.len() as u64 });
    }
    let magic = read_u32(bytes, 0);
    if magic != RECORDING_FRAME_MAGIC {
        return Err(FormatError::MagicMismatch {
            expected: RECORDING_FRAME_MAGIC as u64,
            found: magic as u64,
        });
    }
    Ok(RecordedFrameMetadata {
        magic,
        id: read_i32(bytes, 4),
        padding: read_i32(bytes, 8),
        width: read_i32(bytes, 12),
        height: read_i32(bytes, 16),
        format: read_i32(bytes, 20),
        timestamp: read_i64(bytes, 24),
        receive_timestamp: read_i64(bytes, 32),
        size: read_i64(bytes, 40),
    })
}

/// Decodes the 8-byte generic-metadata header and validates its magic.
pub fn parse_generic_metadata_header(bytes: &[u8]) -> (r: Result<
    GenericMetadataHeader,
    FormatError,
>)
    ensures
        bytes@.len() != 8 ==> r == Err::<GenericMetadataHeader, FormatError>(
            (FormatError::LayoutMismatch { expected: 8, found: bytes@.len() as u64 }),
        ),
        bytes@.len() == 8 && le32(bytes@, 0) != GENERIC_METADATA_HEADER_MAGIC ==> r == Err::<
            GenericMetadataHeader,
            FormatError,
        >(
            (FormatError::MagicMismatch {
                expected: GENERIC_METADATA_HEADER_MAGIC as u64,
                found: le32(bytes@, 0) as u64,
            }),
        ),
        bytes@.len() == 8 && le32(bytes@, 0) == GENERIC_METADATA_HEADER_MAGIC ==> r == Ok::<
            GenericMetadataHeader,
            FormatError,
        >(spec_generic_metadata_header(bytes@, 0)),
{
    if bytes.len() != 8 {
        return Err(FormatError::LayoutMismatch { expected: 8, found: bytes.len() as u64 });
    }
    let magic = read_u32(bytes, 0);
    if magic != GENERIC_METADATA_HEADER_MAGIC {
        return Err(FormatError::MagicMismatch {
            expected: GENERIC_METADATA_HEADER_MAGIC as u64,
            found: magic as u64,
        });
    }
    let generic_metadata_size = read_u32(bytes, 4);
    Ok(GenericMetadataHeader { magic, generic_metadata_size })
}

/// The five magic bytes of a placement footer packed into one value, first
/// byte lowest, for error reporting.
pub open spec fn spec_pack5(b1: u8, b2: u8, b3: u8, b4: u8, b5: u8) -> u64 {
    (b1 as u64) | (b2 as u64) << 8 | (b3 as u64) << 16 | (b4 as u64) << 24 | (b5 as u64) << 32
}

/// Whether the 7 bytes at `off` of `s` carry the five placement magic bytes.
pub open spec fn placement_magic_ok(s: Seq<u8>, off: int) -> bool {
    &&& s[off + 2] == VIDEO_PLACEMENT_METADATA_MAGIC_1
    &&& s[off + 3] == VIDEO_PLACEMENT_METADATA_MAGIC_2
    &&& s[off + 4] == VIDEO_PLACEMENT_METADATA_MAGIC_3
    &&& s[off + 5] == VIDEO_PLACEMENT_METADATA_MAGIC_4
    &&& s[off + 6] == VIDEO_PLACEMENT_METADATA_MAGIC_5
}

/// Decodes a 7-byte placement footer and validates its five magic bytes.
pub fn parse_video_placement_footer(bytes: &[u8]) -> (r: Result<
    VideoPlacementMetadataFooter,
    FormatError,
>)
    ensures
        bytes@.len() != 7 ==> r == Err::<VideoPlacementMetadataFooter, FormatError>(
            (FormatError::LayoutMismatch { expected: 7, found: bytes@.len() as u64 }),
        ),
        bytes@.len() == 7 && !placement_magic_ok(bytes@, 0) ==> r == Err::<
            VideoPlacementMetadataFooter,
            FormatError,
        >(
            (FormatError::MagicMismatch {
                expected: spec_pack5(
                    VIDEO_PLACEMENT_METADATA_MAGIC_1,
                    VIDEO_PLACEMENT_METADATA_MAGIC_2,
                    VIDEO_PLACEMENT_METADATA_MAGIC_3,
                    VIDEO_PLACEMENT_METADATA_MAGIC_4,
                    VIDEO_PLACEMENT_METADATA_MAGIC_5,
                ),
                found: spec_pack5(bytes@[2], bytes@[3], bytes@[4], bytes@[5], bytes@[6]),
            }),
        ),
        bytes@.len() == 7 && placement_magic_ok(bytes@, 0) ==> r == Ok::<
            VideoPlacementMetadataFooter,
            FormatError,
        >(spec_placement_footer(bytes@, 0)),
{
    if bytes.len() != 7 {
        return Err(FormatError::LayoutMismatch { expected: 7, found: bytes.len() as u64 });
    }
    let magic_1 = bytes[2];
    let magic_2 = bytes[3];
    let magic_3 = bytes[4];
    let magic_4 = bytes[5];
    let magic_5 = bytes[6];
    if magic_1 == VIDEO_PLACEMENT_METADATA_MAGIC_1 && magic_2 == VIDEO_PLACEMENT_METADATA_MAGIC_2
        && magic_3 == VIDEO_PLACEMENT_METADATA_MAGIC_3 && magic_4
        == VIDEO_PLACEMENT_METADATA_MAGIC_4 && magic_5 == VIDEO_PLACEMENT_METADATA_MAGIC_5 {
        let metadata_size = read_u16(bytes, 0);
        Ok(VideoPlacementMetadataFooter { metadata_size, magic_1, magic_2, magic_3, magic_4, magic_5 })
    } else {
        Err(FormatError::MagicMismatch {
            expected: (VIDEO_PLACEMENT_METADATA_MAGIC_1 as u64) | (
            VIDEO_PLACEMENT_METADATA_MAGIC_2 as u64) << 8 | (VIDEO_PLACEMENT_METADATA_MAGIC_3
                as u64) << 16 | (VIDEO_PLACEMENT_METADATA_MAGIC_4 as u64) << 24 | (
            VIDEO_PLACEMENT_METADATA_MAGIC_5 as u64) << 32,
            found: (magic_1 as u64) | (magic_2 as u64) << 8 | (magic_3 as u64) << 16 | (magic_4
                as u64) << 24 | (magic_5 as u64) << 32,
        })
    }
}

// ---------------------------------------------------------------------------
// Capture formats

/// The closed set of content formats a frame can carry. Nine uncompressed
/// pixel layouts, three compressed elementary streams, and the non-video
/// telemetry record (`Stats`).
#[derive(Clone, Copy, Debug, PartialEq, Eq, Structural)]
pub enum VideoCaptureFormat {
    Rgb,
    Bgr,
    Yuv,
    Nv12,
    Yuyv,
    Uyvy,
    Raw,
    Mono16,
    Raw16,
    Mono8,
    H264,
    H265,
    Mjpeg,
    Stats,
}

/// The wire code of each format: small non-negative codes for the
/// uncompressed layouts, negative codes for the compressed streams and for
/// telemetry.
pub open spec fn spec_format_code(f: VideoCaptureFormat) -> int {
    match f {
        VideoCaptureFormat::Rgb => 0,
        VideoCaptureFormat::Bgr => 1,
        VideoCaptureFormat::Yuv => 2,
        VideoCaptureFormat::Nv12 => 3,
        VideoCaptureFormat::Yuyv => 4,
        VideoCaptureFormat::Uyvy => 5,
        VideoCaptureFormat::Raw => 6,
        VideoCaptureFormat::Mono16 => 7,
        VideoCaptureFormat::Raw16 => 8,
        VideoCaptureFormat::Mono8 => 9,
        VideoCaptureFormat::H264 => -4601,
        VideoCaptureFormat::H265 => -4602,
        VideoCaptureFormat::Mjpeg => -4603,
        VideoCaptureFormat::Stats => -4701,
    }
}

/// Every format's own code maps back to it: the code table and the decoder
/// agree.
pub proof fn lemma_format_code_round_trip(f: VideoCaptureFormat)
    ensures
        spec_format_from_code(spec_format_code(f)) == Some(f),
{
}

/// The format a wire code maps to; unknown codes map to `None`.
pub open spec fn spec_format_from_code(code: int) -> Option<VideoCaptureFormat> {
    if code == 0 {
        Some(VideoCaptureFormat::Rgb)
    } else if code == 1 {
        Some(VideoCaptureFormat::Bgr)
    } else if code == 2 {
        Some(VideoCaptureFormat::Yuv)
    } else if code == 3 {
        Some(VideoCaptureFormat::Nv12)
    } else if code == 4 {
        Some(VideoCaptureFormat::Yuyv)
    } else if code == 5 {
        Some(VideoCaptureFormat::Uyvy)
    } else if code == 6 {
        Some(VideoCaptureFormat::Raw)
    } else if code == 7 {
        Some(VideoCaptureFormat::Mono16)
    } else if code == 8 {
        Some(VideoCaptureFormat::Raw16)
    } else if code == 9 {
        Some(VideoCaptureFormat::Mono8)
    } else if code == -4601 {
        Some(VideoCaptureFormat::H264)
    } else if code == -4602 {
        Some(VideoCaptureFormat::H265)
    } else if code == -4603 {
        Some(VideoCaptureFormat::Mjpeg)
    } else if code == -4701 {
        Some(VideoCaptureFormat::Stats)
    } else {
        None
    }
}

impl VideoCaptureFormat {
    /// Whether the format is a compressed elementary stream rather than an
    /// uncompressed pixel layout.
    pub open spec fn spec_is_coded(self) -> bool {
        self is H264 || self is H265 || self is Mjpeg
    }

    /// Whether the format is a compressed elementary stream.
    pub fn is_coded(&self) -> (r: bool)
        ensures
            r == self.spec_is_coded(),
    {
        matches!(self, VideoCaptureFormat::H264 | VideoCaptureFormat::H265 | VideoCaptureFormat::Mjpeg)
    }

    /// Maps a header format code to the format it stands for; an unknown
    /// code is a decode failure, never a default.
    pub fn try_from_code(code: i32) -> (r: Result<VideoCaptureFormat, FormatError>)
        ensures
            (match spec_format_from_code(code as int) {
                Some(f) => r == Ok::<VideoCaptureFormat, FormatError>(f),
                None => r == Err::<VideoCaptureFormat, FormatError>(
                    (FormatError::UnknownFormat { code }),
                ),
            }),
        r matches Ok(f) ==> spec_format_code(f) == code as int,
    {
        match code {
            0 => Ok(VideoCaptureFormat::Rgb),
            1 => Ok(VideoCaptureFormat::Bgr),
            2 => Ok(VideoCaptureFormat::Yuv),
            3 => Ok(VideoCaptureFormat::Nv12),
            4 => Ok(VideoCaptureFormat::Yuyv),
            5 => Ok(VideoCaptureFormat::Uyvy),
            6 => Ok(VideoCaptureFormat::Raw),
            7 => Ok(VideoCaptureFormat::Mono16),
            8 => Ok(VideoCaptureFormat::Raw16),
            9 => Ok(VideoCaptureFormat::Mono8),
            -4601 => Ok(VideoCaptureFormat::H264),
            -4602 => Ok(VideoCaptureFormat::H265),
            -4603 => Ok(VideoCaptureFormat::Mjpeg),
            -4701 => Ok(VideoCaptureFormat::Stats),
            _ => Err(FormatError::UnknownFormat { code }),
        }
    }
}

// ---------------------------------------------------------------------------
// Relating a record decoded from a subslice to the enclosing byte sequence

proof fn lemma_le16_in_slice(s: Seq<u8>, a: int, b: int, k: int)
    requires
        0 <= a,
        0 <= k,
        a + k + 2 <= b <= s.len(),
    ensures
        le16(s.subrange(a, b), k) == le16(s, a + k),
{
    assert(s.subrange(a, b).subrange(k, k + 2) =~= s.subrange(a + k, a + k + 2));
}

proof fn lemma_le32_in_slice(s: Seq<u8>, a: int, b: int, k: int)
    requires
        0 <= a,
        0 <= k,
        a + k + 4 <= b <= s.len(),
    ensures
        le32(s.subrange(a, b), k) == le32(s, a + k),
{
    assert(s.subrange(a, b).subrange(k, k + 4) =~= s.subrange(a + k, a + k + 4));
}

proof fn lemma_le64_in_slice(s: Seq<u8>, a: int, b: int, k: int)
    requires
        0 <= a,
        0 <= k,
        a + k + 8 <= b <= s.len(),
    ensures
        le64(s.subrange(a, b), k) == le64(s, a + k),
{
    assert(s.subrange(a, b).subrange(k, k + 8) =~= s.subrange(a + k, a + k + 8));
}

proof fn lemma_index_footer_in_slice(s: Seq<u8>, a: int)
    requires
        0 <= a,
        a + 8 <= s.len(),
    ensures
        spec_index_footer(s.subrange(a, a + 8), 0) == spec_index_footer(s, a),
{
    lemma_le32_in_slice(s, a, a + 8, 0);
    lemma_le32_in_slice(s, a, a + 8, 4);
}

proof fn lemma_index_entry_in_slice(s: Seq<u8>, a: int)
    requires
        0 <= a,
        a + 16 <= s.len(),
    ensures
        spec_index_entry(s.subrange(a, a + 16), 0) == spec_index_entry(s, a),
{
    lemma_le64_in_slice(s, a, a + 16, 0);
    lemma_le64_in_slice(s, a, a + 16, 8);
}

proof fn lemma_frame_metadata_in_slice(s: Seq<u8>, a: int)
    requires
        0 <= a,
        a + 48 <= s.len(),
    ensures
        spec_frame_metadata(s.subrange(a, a + 48), 0) == spec_frame_metadata(s, a),
{
    lemma_le32_in_slice(s, a, a + 48, 0);
    lemma_le32_in_slice(s, a, a + 48, 4);
    lemma_le32_in_slice(s, a, a + 48, 8);
    lemma_le32_in_slice(s, a, a + 48, 12);
    lemma_le32_in_slice(s, a, a + 48, 16);
    lemma_le32_in_slice(s, a, a + 48, 20);
    lemma_le64_in_slice(s, a, a + 48, 24);
    lemma_le64_in_slice(s, a, a + 48, 32);
    lemma_le64_in_slice(s, a, a + 48, 40);
}

proof fn lemma_generic_header_in_slice(s: Seq<u8>, a: int)
    requires
        0 <= a,
        a + 8 <= s.len(),
    ensures
        spec_generic_metadata_header(s.subrange(a, a + 8), 0) == spec_generic_metadata_header(s, a),
{
    lemma_le32_in_slice(s, a, a + 8, 0);
    lemma_le32_in_slice(s, a, a + 8, 4);
}

// ---------------------------------------------------------------------------
// Footer recovery scanner

/// Whether the 7-byte window ending `attempt` bytes before the end of the
/// payload decodes as a placement footer (its five magic bytes match).
pub open spec fn placement_match_at(p: Seq<u8>, attempt: int) -> bool {
    p.len() >= attempt + 7 && placement_magic_ok(p, p.len() - 7 - attempt)
}

/// The smallest attempt in `a..=10` whose window matches, if any.
pub open spec fn first_placement_match_from(p: Seq<u8>, a: int) -> Option<int>
    decreases 11 - a,
{
    if a > 10 {
        None
    } else if placement_match_at(p, a) {
        Some(a)
    } else {
        first_placement_match_from(p, a + 1)
    }
}

/// The smallest attempt in `0..=10` whose window matches, if any.
pub open spec fn first_placement_match(p: Seq<u8>) -> Option<int> {
    first_placement_match_from(p, 0)
}

/// What the scanner leaves of a payload. When a footer is found, the final
/// `metadata_size + 7` bytes are placement metadata and are stripped; when
/// none is found within the probe window, the payload stands unchanged. A
/// footer whose declared size reaches beyond the start of the payload is a
/// decode failure: the declared layout cannot fit the bytes that exist.
pub open spec fn spec_strip_placement(p: Seq<u8>) -> Result<Seq<u8>, FormatError> {
    match first_placement_match(p) {
        None => Ok(p),
        Some(a) => {
            let m = le16(p, p.len() - 7 - a) as int;
            if m + 7 <= p.len() {
                Ok(p.take(p.len() - m - 7))
            } else {
                Err(FormatError::LayoutMismatch { expected: (m + 7) as u64, found: p.len() as u64 })
            }
        },
    }
}

/// Scans the tail of a payload for the optional placement footer and strips
/// the placement metadata it declares; a payload without a recognizable
/// footer in the probe window is returned byte-for-byte.
pub fn strip_placement_metadata(payload: &[u8]) -> (r: Result<Vec<u8>, FormatError>)
    ensures
        (match spec_strip_placement(payload@) {
            Ok(d) => r is Ok && r->Ok_0@ == d,
            Err(e) => r == Err::<Vec<u8>, FormatError>(e),
        }),
{
    let len: usize = payload.len();
    let mut attempt: usize = 0;
    loop
        invariant
            attempt <= 11,
            len == payload@.len(),
            first_placement_match(payload@) == first_placement_match_from(
                payload@,
                attempt as int,
            ),
        decreases 11 - attempt,
    {
        if attempt > 10 {
            return Ok(vstd::slice::slice_to_vec(payload));
        }
        if len >= 7 + attempt {
            let start = len - 7 - attempt;
            let window = slice_subrange(payload, start, start + 7);
            match parse_video_placement_footer(window) {
                Ok(footer) => {
                    proof {
                        assert(placement_magic_ok(window@, 0));
                        assert forall|j: int| 0 <= j < 7 implies window@[j] == payload@[
                            start + j
                        ] by {}
                        assert(placement_magic_ok(payload@, start as int));
                        assert(placement_match_at(payload@, attempt as int));
                        lemma_le16_in_slice(payload@, start as int, start as int + 7, 0);
                        assert(footer.metadata_size == le16(payload@, start as int));
                    }
                    let m: usize = footer.metadata_size as usize;
                    if m + 7 <= len {
                        return Ok(vstd::slice::slice_to_vec(slice_subrange(payload, 0, len - m - 7)));
                    } else {
                        return Err(FormatError::LayoutMismatch {
                            expected: (m + 7) as u64,
                            found: len as u64,
                        });
                    }
                },
                Err(_) => {
                    proof {
                        assert(!placement_magic_ok(payload@, start as int)) by {
                            if placement_magic_ok(payload@, start as int) {
                                assert forall|j: int| 0 <= j < 7 implies window@[j] == payload@[
                                    start + j
                                ] by {}
                                assert(placement_magic_ok(window@, 0));
                            }
                        }
                        assert(!placement_match_at(payload@, attempt as int));
                    }
                },
            }
        } else {
            proof {
                assert(!placement_match_at(payload@, attempt as int));
            }
        }
        attempt = attempt + 1;
    }
}

// ---------------------------------------------------------------------------
// Index reader

/// The byte offset where the index's first entry starts, given the footer's
/// entry count.
pub open spec fn spec_index_base(s: Seq<u8>) -> int {
    s.len() - 8 - 16 * (le32(s, s.len() - 4) as int)
}

/// Locates and decodes the trailing random-access index: an 8-byte footer at
/// the very end of the source, preceded by `frame_count` 16-byte entries.
///
/// The footer's magic must match; a source too short to hold the declared
/// entries is an underrun. On success the entries come back in file order,
/// exactly `frame_count` of them.
pub fn read_index(data: &[u8]) -> (r: Result<Vec<RecordingIndexEntry>, FormatError>)
    requires
        data@.len() >= 8,
    ensures
        le32(data@, data@.len() - 8) != RECORDING_INDEX_FOOTER_MAGIC ==> r == Err::<
            Vec<RecordingIndexEntry>,
            FormatError,
        >(
            (FormatError::MagicMismatch {
                expected: RECORDING_INDEX_FOOTER_MAGIC as u64,
                found: le32(data@, data@.len() - 8) as u64,
            }),
        ),
        le32(data@, data@.len() - 8) == RECORDING_INDEX_FOOTER_MAGIC && data@.len() < 8 + 16 * (
        le32(data@, data@.len() - 4) as int) ==> r == Err::<Vec<RecordingIndexEntry>, FormatError>(
            FormatError::SourceUnderrun,
        ),
        le32(data@, data@.len() - 8) == RECORDING_INDEX_FOOTER_MAGIC && data@.len() >= 8 + 16 * (
        le32(data@, data@.len() - 4) as int) ==> r is Ok && r->Ok_0@.len() == le32(
            data@,
            data@.len() - 4,
        ) as int && (forall|i: int|
            0 <= i < le32(data@, data@.len() - 4) as int ==> r->Ok_0@[i] == spec_index_entry(
                data@,
                spec_index_base(data@) + 16 * i,
            )),
{
    let len: usize = data.len();
    let footer_slice = slice_subrange(data, len - 8, len);
    proof {
        lemma_index_footer_in_slice(data@, len - 8);
        lemma_le32_in_slice(data@, len - 8 as int, len as int, 0);
        lemma_le32_in_slice(data@, len - 8 as int, len as int, 4);
    }
    let footer = match parse_recording_index_footer(footer_slice) {
        Ok(f) => f,
        Err(e) => {
            return Err(e);
        },
    };
    let count: usize = footer.frame_count as usize;
    if (len - 8) / 16 < count {
        proof {
            assert(16 * ((len - 8) as int / 16) <= len - 8);
            assert(16 * (count as int) > len - 8);
        }
        return Err(FormatError::SourceUnderrun);
    }
    proof {
        assert(16 * (count as int) <= 16 * ((len - 8) as int / 16));
        assert(16 * ((len - 8) as int / 16) <= len - 8);
    }
    let base: usize = len - 8 - 16 * count;
    let mut res: Vec<RecordingIndexEntry> = Vec::new();
    let mut i: usize = 0;
    while i < count
        invariant
            i <= count,
            len == data@.len(),
            16 * (count as int) <= data@.len() - 8,
            base == data@.len() - 8 - 16 * (count as int),
            res@.len() == i as int,
            forall|j: int|
                0 <= j < i as int ==> res@[j] == spec_index_entry(
                    data@,
                    base as int + 16 * j,
                ),
        decreases count - i,
    {
        proof {
            assert(16 * (i as int) + 16 <= 16 * (count as int));
        }
        let start = base + 16 * i;
        let entry_slice = slice_subrange(data, start, start + 16);
        proof {
            lemma_index_entry_in_slice(data@, start as int);
        }
        let entry = match parse_recording_index_entry(entry_slice) {
            Ok(e) => e,
            Err(e) => {
                return Err(e);
            },
        };
        res.push(entry);
        i = i + 1;
    }
    Ok(res)
}

// ---------------------------------------------------------------------------
// Frame decoder

/// Decoder output for one frame: the rendered resolution, the content
/// format, the receive timestamp, and the payload bytes after optional
/// placement-footer stripping.
#[derive(Debug, Clone)]
pub struct FrameInfo {
    pub resolution: String,
    pub format: VideoCaptureFormat,
    pub raw_data: Vec<u8>,
    pub timestamp: i64,
}

/// The mathematical model of a decoded frame.
#[verifier::ext_equal]
pub ghost struct FrameInfoModel {
    pub resolution: Seq<char>,
    pub format: VideoCaptureFormat,
    pub raw_data: Seq<u8>,
    pub timestamp: i64,
}

impl View for FrameInfo {
    type V = FrameInfoModel;

    open spec fn view(&self) -> FrameInfoModel {
        FrameInfoModel {
            resolution: self.resolution@,
            format: self.format,
            raw_data: self.raw_data@,
            timestamp: self.timestamp,
        }
    }
}

/// The resolution string "<width>x<height>" of a frame header.
pub open spec fn spec_resolution(width: i32, height: i32) -> Seq<char> {
    spec_idec(width as int) + seq!['x'] + spec_idec(height as int)
}

/// What decoding one frame at byte offset `off` of `s` yields.
///
/// The decode validates, in order: that the 48-byte header fits and carries
/// the frame magic; that the payload size is positive; that the format code
/// is known; that the geometry matches the format (a coded frame has width
/// and height zero; a non-coded, non-telemetry frame has both positive);
/// that the payload fits; that the placement-footer scan succeeds (skipped
/// for telemetry); and that the trailing generic-metadata block -- an 8-byte
/// header with its magic, a body of the declared length, and an 8-byte
/// unvalidated trailer -- fits.
pub open spec fn spec_parse_frame(s: Seq<u8>, off: int) -> Result<FrameInfoModel, FormatError> {
    if off < 0 || off + 48 > s.len() {
        Err(FormatError::SourceUnderrun)
    } else {
        let h = spec_frame_metadata(s, off);
        if h.magic != RECORDING_FRAME_MAGIC {
            Err(FormatError::MagicMismatch {
                expected: RECORDING_FRAME_MAGIC as u64,
                found: h.magic as u64,
            })
        } else if h.size <= 0 {
            Err(FormatError::InvalidPayloadSize { size: h.size })
        } else {
            match spec_format_from_code(h.format as int) {
                None => Err(FormatError::UnknownFormat { code: h.format }),
                Some(format) => {
                    if format.spec_is_coded() && !(h.width == 0 && h.height == 0) {
                        Err(FormatError::GeometryMismatch { width: h.width, height: h.height })
                    } else if !format.spec_is_coded() && format != VideoCaptureFormat::Stats && (
                    h.width <= 0 || h.height <= 0) {
                        Err(FormatError::GeometryMismatch { width: h.width, height: h.height })
                    } else if off + 48 + h.size > s.len() {
                        Err(FormatError::SourceUnderrun)
                    } else {
                        let payload = s.subrange(off + 48, off + 48 + h.size);
                        let stripped = if format is Stats {
                            Ok(payload)
                        } else {
                            spec_strip_placement(payload)
                        };
                        match stripped {
                            Err(e) => Err(e),
                            Ok(data) => {
                                let g_off = off + 48 + h.size;
                                if g_off + 8 > s.len() {
                                    Err(FormatError::SourceUnderrun)
                                } else {
                                    let g = spec_generic_metadata_header(s, g_off);
                                    if g.magic != GENERIC_METADATA_HEADER_MAGIC {
                                        Err(FormatError::MagicMismatch {
                                            expected: GENERIC_METADATA_HEADER_MAGIC as u64,
                                            found: g.magic as u64,
                                        })
                                    } else if g_off + 8 + g.generic_metadata_size + 8 > s.len() {
                                        Err(FormatError::SourceUnderrun)
                                    } else {
                                        Ok(FrameInfoModel {
                                            resolution: spec_resolution(h.width, h.height),
                                            format,
                                            raw_data: data,
                                            timestamp: h.receive_timestamp,
                                        })
                                    }
                                }
                            },
                        }
                    }
                },
            }
        }
    }
}

/// Decodes exactly one frame at the offset the index entry declares.
///
/// Every validation failure names the first step that went wrong; the model
/// `spec_parse_frame` pins both the successful value and the error.
pub fn parse_raw_frame(data: &[u8], entry: &RecordingIndexEntry) -> (r: Result<
    FrameInfo,
    FormatError,
>)
    ensures
        (match r {
            Ok(f) => spec_parse_frame(data@, entry.offset as int) is Ok && f@ == spec_parse_frame(
                data@,
                entry.offset as int,
            )->Ok_0,
            Err(e) => spec_parse_frame(data@, entry.offset as int) == Err::<
                FrameInfoModel,
                FormatError,
            >(e),
        }),
{
    let len: usize = data.len();
    if entry.offset < 0 {
        return Err(FormatError::SourceUnderrun);
    }
    let off64: u64 = entry.offset as u64;
    if (len as u64) < 48 || off64 > (len as u64) - 48 {
        return Err(FormatError::SourceUnderrun);
    }
    let off: usize = off64 as usize;

    // ------------------------------------------------------------------
    // Frame header
    let header_slice = slice_subrange(data, off, off + 48);
    proof {
        lemma_frame_metadata_in_slice(data@, off as int);
        lemma_le32_in_slice(data@, off as int, off as int + 48, 0);
    }
    let header = match parse_recorded_frame_metadata(header_slice) {
        Ok(h) => h,
        Err(e) => {
            return Err(e);
        },
    };
    if header.size <= 0 {
        return Err(FormatError::InvalidPayloadSize { size: header.size });
    }
    let format = match VideoCaptureFormat::try_from_code(header.format) {
        Ok(f) => f,
        Err(e) => {
            return Err(e);
        },
    };
    if format.is_coded() {
        if header.width != 0 || header.height != 0 {
            return Err(FormatError::GeometryMismatch {
                width: header.width,
                height: header.height,
            });
        }
    } else if format != VideoCaptureFormat::Stats && (header.width <= 0 || header.height <= 0) {
        return Err(FormatError::GeometryMismatch { width: header.width, height: header.height });
    }

    // ------------------------------------------------------------------
    // Payload, with the optional placement footer stripped
    let remaining: usize = len - (off + 48);
    if (remaining as u64) < (header.size as u64) {
        return Err(FormatError::SourceUnderrun);
    }
    let psize: usize = header.size as usize;
    let payload = slice_subrange(data, off + 48, off + 48 + psize);
    let raw_data: Vec<u8> = if format == VideoCaptureFormat::Stats {
        vstd::slice::slice_to_vec(payload)
    } else {
        match strip_placement_metadata(payload) {
            Ok(v) => v,
            Err(e) => {
                return Err(e);
            },
        }
    };

    // ------------------------------------------------------------------
    // Generic metadata block: header, declared-length body, 8-byte trailer
    let g_off: usize = off + 48 + psize;
    if len - g_off < 8 {
        return Err(FormatError::SourceUnderrun);
    }
    let gm_slice = slice_subrange(data, g_off, g_off + 8);
    proof {
        lemma_generic_header_in_slice(data@, g_off as int);
        lemma_le32_in_slice(data@, g_off as int, g_off as int + 8, 0);
    }
    let gm = match parse_generic_metadata_header(gm_slice) {
        Ok(g) => g,
        Err(e) => {
            return Err(e);
        },
    };
    let gsize: usize = gm.generic_metadata_size as usize;
    let after: usize = len - g_off - 8;
    if after < gsize {
        return Err(FormatError::SourceUnderrun);
    }
    if after - gsize < 8 {
        return Err(FormatError::SourceUnderrun);
    }

    // ------------------------------------------------------------------
    // Resolution string
    let mut resolution = String::new();
    crate::textfmt::push_idec32(&mut resolution, header.width);
    crate::textfmt::string_push(&mut resolution, 'x');
    crate::textfmt::push_idec32(&mut resolution, header.height);
    proof {
        assert(resolution@ =~= spec_resolution(header.width, header.height));
    }

    let info = FrameInfo { resolution, format, raw_data, timestamp: header.receive_timestamp };
    proof {
        assert(info@ =~= spec_parse_frame(data@, entry.offset as int)->Ok_0);
    }
    Ok(info)
}

/// Whether `s` ends in a well-formed index: a footer whose magic matches and
/// enough bytes in front of it for the declared entries.
pub open spec fn spec_index_ok(s: Seq<u8>) -> bool {
    &&& s.len() >= 8
    &&& le32(s, s.len() - 8) == RECORDING_INDEX_FOOTER_MAGIC
    &&& s.len() >= 8 + 16 * (le32(s, s.len() - 4) as int)
}

/// The entries of a well-formed trailing index, in file order.
pub open spec fn spec_index_entries(s: Seq<u8>) -> Seq<RecordingIndexEntry> {
    Seq::new(
        le32(s, s.len() - 4) as nat,
        |i: int| spec_index_entry(s, spec_index_base(s) + 16 * i),
    )
}

// ---------------------------------------------------------------------------
// Laws of the decoder

/// A frame header whose magic differs from the frame magic in any byte
/// always fails decoding, and with a magic-mismatch failure: no frame value
/// is ever produced for it.
pub proof fn lemma_bad_magic_fails(s: Seq<u8>, off: int)
    requires
        0 <= off,
        off + 48 <= s.len(),
        spec_frame_metadata(s, off).magic != RECORDING_FRAME_MAGIC,
    ensures
        spec_parse_frame(s, off) == Err::<FrameInfoModel, FormatError>(
            (FormatError::MagicMismatch {
                expected: RECORDING_FRAME_MAGIC as u64,
                found: spec_frame_metadata(s, off).magic as u64,
            }),
        ),
{
}

/// For a coded-format frame, decoding fails whenever width or height is not
/// zero; for a non-coded, non-telemetry frame, decoding fails whenever width
/// or height is not positive. Both failures are geometry mismatches.
pub proof fn lemma_geometry_mismatch_fails(s: Seq<u8>, off: int)
    requires
        0 <= off,
        off + 48 <= s.len(),
        spec_frame_metadata(s, off).magic == RECORDING_FRAME_MAGIC,
        spec_frame_metadata(s, off).size > 0,
        spec_format_from_code(spec_frame_metadata(s, off).format as int) is Some,
        ({
            let h = spec_frame_metadata(s, off);
            let f = spec_format_from_code(h.format as int)->Some_0;
            ||| f.spec_is_coded() && (h.width != 0 || h.height != 0)
            ||| !f.spec_is_coded() && f != VideoCaptureFormat::Stats && (h.width <= 0 || h.height
                <= 0)
        }),
    ensures
        spec_parse_frame(s, off) == Err::<FrameInfoModel, FormatError>(
            (FormatError::GeometryMismatch {
                width: spec_frame_metadata(s, off).width,
                height: spec_frame_metadata(s, off).height,
            }),
        ),
{
}

proof fn lemma_no_placement_match_from(p: Seq<u8>, a: int)
    requires
        0 <= a <= 11,
        forall|b: int| a <= b <= 10 ==> !placement_match_at(p, b),
    ensures
        first_placement_match_from(p, a) is None,
    decreases 11 - a,
{
    if a <= 10 {
        lemma_no_placement_match_from(p, a + 1);
    }
}

/// When the exact last 7 bytes of a payload decode as a placement footer
/// with declared size `m`, the scanner strips exactly the final `m + 7`
/// bytes; the declared size must leave room for itself inside the payload.
pub proof fn lemma_strip_exact_tail(p: Seq<u8>)
    requires
        p.len() >= 7,
        placement_magic_ok(p, p.len() - 7),
        le16(p, p.len() - 7) + 7 <= p.len(),
    ensures
        spec_strip_placement(p) == Ok::<Seq<u8>, FormatError>(
            p.take(p.len() - (le16(p, p.len() - 7) as int) - 7),
        ),
{
    assert(placement_match_at(p, 0));
}

/// When no 7-byte window within the last 17 bytes of a payload (eleven
/// probe positions) matches the placement magic, the scanner returns the
/// payload unchanged, byte for byte.
pub proof fn lemma_strip_no_match(p: Seq<u8>)
    requires
        forall|a: int| 0 <= a <= 10 ==> !placement_match_at(p, a),
    ensures
        spec_strip_placement(p) == Ok::<Seq<u8>, FormatError>(p),
{
    lemma_no_placement_match_from(p, 0);
}

} // verus!
