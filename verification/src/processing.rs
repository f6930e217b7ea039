//! Format routing: walking the index, classifying the dominant format, and
//! emitting the converted stream; and the derivation of a default output
//! name.

use vstd::prelude::*;
use vstd::string::StrSliceExecFns;
use vstd::string::StringExecFns;

use crate::mux::{extract_hevc_from_vraw, spec_hevc_output, spec_hevc_seed};
use crate::parser::{
    read_index, spec_index_entries, spec_index_ok, spec_parse_frame, FormatError,
    RecordingIndexEntry, VideoCaptureFormat,
};
use crate::textfmt::{push_padded, spec_padded, string_push};
use crate::ConvertError;

verus! {

// ---------------------------------------------------------------------------
// Dominant format

/// The format of the first index entry, in file order, whose frame decodes
/// to something other than telemetry; entries that do not decode are passed
/// over. `None` when the index holds no such entry.
pub open spec fn spec_dominant_format(
    s: Seq<u8>,
    entries: Seq<RecordingIndexEntry>,
    i: int,
) -> Option<VideoCaptureFormat>
    decreases entries.len() - i,
{
    if i < 0 || i >= entries.len() {
        None
    } else {
        match spec_parse_frame(s, entries[i].offset as int) {
            Err(_) => spec_dominant_format(s, entries, i + 1),
            Ok(f) => {
                if f.format is Stats {
                    spec_dominant_format(s, entries, i + 1)
                } else {
                    Some(f.format)
                }
            },
        }
    }
}

/// Scans the index for the dominant format.
pub fn find_dominant_format(data: &[u8], entries: &Vec<RecordingIndexEntry>) -> (r: Option<
    VideoCaptureFormat,
>)
    ensures
        r == spec_dominant_format(data@, entries@, 0),
{
    let n: usize = entries.len();
    let mut i: usize = 0;
    while i < n
        invariant
            i <= n,
            n == entries@.len(),
            spec_dominant_format(data@, entries@, 0) == spec_dominant_format(
                data@,
                entries@,
                i as int,
            ),
        decreases n - i,
    {
        match crate::parser::parse_raw_frame(data, &entries[i]) {
            Ok(f) => {
                if f.format != VideoCaptureFormat::Stats {
                    return Some(f.format);
                }
            },
            Err(_) => (),
        }
        i = i + 1;
    }
    None
}

// ---------------------------------------------------------------------------
// MJPEG extraction

/// The raw elementary stream the MJPEG path emits from entry `i` on: the
/// payload bytes of every frame, concatenated in index order. A frame that
/// fails to decode fails the whole extraction.
pub open spec fn spec_mjpeg_stream(
    s: Seq<u8>,
    entries: Seq<RecordingIndexEntry>,
    i: int,
) -> Result<Seq<u8>, ConvertError>
    decreases entries.len() - i,
{
    if i < 0 || i >= entries.len() {
        Ok(Seq::<u8>::empty())
    } else {
        match spec_parse_frame(s, entries[i].offset as int) {
            Err(e) => Err(ConvertError::FrameRead { offset: entries[i].offset, error: e }),
            Ok(f) => {
                match spec_mjpeg_stream(s, entries, i + 1) {
                    Err(e) => Err(e),
                    Ok(rest) => Ok(f.raw_data + rest),
                }
            },
        }
    }
}

/// Emits the payload bytes of every indexed frame as one concatenated
/// stream, with no container framing. Frames of another format are appended
/// all the same: the pass-through is deliberate.
pub fn extract_mjpeg_from_vraw(data: &[u8], entries: &Vec<RecordingIndexEntry>) -> (r: Result<
    Vec<u8>,
    ConvertError,
>)
    ensures
        (match spec_mjpeg_stream(data@, entries@, 0) {
            Ok(b) => r is Ok && r->Ok_0@ == b,
            Err(e) => r == Err::<Vec<u8>, ConvertError>(e),
        }),
{
    let n: usize = entries.len();
    let mut acc: Vec<u8> = Vec::new();
    let mut i: usize = 0;
    while i < n
        invariant
            i <= n,
            n == entries@.len(),
            spec_mjpeg_stream(data@, entries@, 0) is Ok <==> spec_mjpeg_stream(
                data@,
                entries@,
                i as int,
            ) is Ok,
            spec_mjpeg_stream(data@, entries@, i as int) is Ok ==> spec_mjpeg_stream(
                data@,
                entries@,
                0,
            )->Ok_0 == acc@ + spec_mjpeg_stream(data@, entries@, i as int)->Ok_0,
            spec_mjpeg_stream(data@, entries@, i as int) is Err ==> spec_mjpeg_stream(
                data@,
                entries@,
                0,
            ) == spec_mjpeg_stream(data@, entries@, i as int),
        decreases n - i,
    {
        let frame = match crate::parser::parse_raw_frame(data, &entries[i]) {
            Ok(f) => f,
            Err(e) => {
                return Err(ConvertError::FrameRead { offset: entries[i].offset, error: e });
            },
        };
        let ghost acc_before = acc@;
        let mut chunk = frame.raw_data;
        acc.append(&mut chunk);
        proof {
            if spec_mjpeg_stream(data@, entries@, i + 1) is Ok {
                assert(acc_before + spec_mjpeg_stream(data@, entries@, i as int)->Ok_0 =~= acc@
                    + spec_mjpeg_stream(data@, entries@, i + 1)->Ok_0);
            }
        }
        i = i + 1;
    }
    proof {
        assert(spec_mjpeg_stream(data@, entries@, n as int) == Ok::<Seq<u8>, ConvertError>(
            Seq::<u8>::empty(),
        ));
        assert(acc@ + Seq::<u8>::empty() =~= acc@);
    }
    Ok(acc)
}

// ---------------------------------------------------------------------------
// The conversion driver

/// Converts a whole recording: reads the trailing index, classifies the
/// dominant format, and emits either a single-track HEVC container or a raw
/// concatenated MJPEG stream, together with the dominant format that chose
/// the path.
///
/// A source too short for an index footer, a footer whose magic does not
/// match, or a source too short for the declared entries all fail as
/// `IndexRead`; an index with no decodable video frame fails as
/// `NoVideoFrame`; a dominant format with no output path fails as
/// `UnsupportedFormat`.
pub fn convert_vraw(data: &[u8]) -> (r: Result<(VideoCaptureFormat, Vec<u8>), ConvertError>)
    ensures
        data@.len() < 8 ==> r == Err::<(VideoCaptureFormat, Vec<u8>), ConvertError>(
            ConvertError::IndexRead(FormatError::SourceUnderrun),
        ),
        data@.len() >= 8 && crate::parser::le32(data@, data@.len() - 8)
            != crate::parser::RECORDING_INDEX_FOOTER_MAGIC ==> r == Err::<
            (VideoCaptureFormat, Vec<u8>),
            ConvertError,
        >(
            ConvertError::IndexRead(
                (FormatError::MagicMismatch {
                    expected: crate::parser::RECORDING_INDEX_FOOTER_MAGIC as u64,
                    found: crate::parser::le32(data@, data@.len() - 8) as u64,
                }),
            ),
        ),
        data@.len() >= 8 && crate::parser::le32(data@, data@.len() - 8)
            == crate::parser::RECORDING_INDEX_FOOTER_MAGIC && !spec_index_ok(data@) ==> r == Err::<
            (VideoCaptureFormat, Vec<u8>),
            ConvertError,
        >(ConvertError::IndexRead(FormatError::SourceUnderrun)),
        spec_index_ok(data@) ==> (match spec_dominant_format(
            data@,
            spec_index_entries(data@),
            0,
        ) {
            None => r == Err::<(VideoCaptureFormat, Vec<u8>), ConvertError>(
                ConvertError::NoVideoFrame,
            ),
            Some(dominant) => {
                if dominant is H265 {
                    match spec_hevc_seed(data@, spec_index_entries(data@), 0) {
                        Ok(seed) => (match seed {
                            Some(st) => r is Ok && r->Ok_0.0 == dominant && spec_hevc_output(
                                data@,
                                spec_index_entries(data@),
                                st,
                                r->Ok_0.1@,
                            ),
                            None => r == Err::<(VideoCaptureFormat, Vec<u8>), ConvertError>(
                                ConvertError::NoVideoFrame,
                            ),
                        }),
                        Err(e) => r == Err::<(VideoCaptureFormat, Vec<u8>), ConvertError>(e),
                    }
                } else if dominant is Mjpeg {
                    match spec_mjpeg_stream(data@, spec_index_entries(data@), 0) {
                        Ok(b) => r is Ok && r->Ok_0.0 == dominant && r->Ok_0.1@ == b,
                        Err(e) => r == Err::<(VideoCaptureFormat, Vec<u8>), ConvertError>(e),
                    }
                } else {
                    r == Err::<(VideoCaptureFormat, Vec<u8>), ConvertError>(
                        ConvertError::UnsupportedFormat,
                    )
                }
            },
        }),
{
    let len: usize = data.len();
    if len < 8 {
        return Err(ConvertError::IndexRead(FormatError::SourceUnderrun));
    }
    let entries = match read_index(data) {
        Ok(v) => v,
        Err(e) => {
            return Err(ConvertError::IndexRead(e));
        },
    };
    proof {
        assert(entries@ =~= spec_index_entries(data@));
    }
    let dominant = match find_dominant_format(data, &entries) {
        Some(f) => f,
        None => {
            return Err(ConvertError::NoVideoFrame);
        },
    };
    if dominant == VideoCaptureFormat::H265 {
        proof {
            assert(entries@.len() <= u32::MAX);
        }
        match extract_hevc_from_vraw(data, &entries) {
            Ok(bytes) => Ok((dominant, bytes)),
            Err(e) => Err(e),
        }
    } else if dominant == VideoCaptureFormat::Mjpeg {
        match extract_mjpeg_from_vraw(data, &entries) {
            Ok(bytes) => Ok((dominant, bytes)),
            Err(e) => Err(e),
        }
    } else {
        Err(ConvertError::UnsupportedFormat)
    }
}

// ---------------------------------------------------------------------------
// Output naming

/// A local wall-clock reading, broken into its calendar fields. The caller
/// supplies it (from whatever clock it trusts); the derivation itself is
/// pure and deterministic in these fields.
#[derive(Clone, Copy, Debug, PartialEq, Eq, Structural)]
pub struct LocalTime {
    pub year: u32,
    pub month: u32,
    pub day: u32,
    pub hour: u32,
    pub minute: u32,
    pub second: u32,
}

/// The timestamp part of a derived output name: zero-padded calendar fields
/// in the shape YYYY-MM-DDTHH_MM_SS.
pub open spec fn spec_timestamp_chars(t: LocalTime) -> Seq<char> {
    spec_padded(t.year as int, 4) + seq!['-'] + spec_padded(t.month as int, 2) + seq!['-']
        + spec_padded(t.day as int, 2) + seq!['T'] + spec_padded(t.hour as int, 2) + seq!['_']
        + spec_padded(t.minute as int, 2) + seq!['_'] + spec_padded(t.second as int, 2)
}

/// The position of the last '/' of `p`, or -1 when there is none.
pub open spec fn spec_last_slash(p: Seq<char>) -> int
    decreases p.len(),
{
    if p.len() == 0 {
        -1
    } else if p[p.len() - 1] == '/' {
        p.len() - 1
    } else {
        spec_last_slash(p.take(p.len() - 1))
    }
}

/// The directory part of a path, up to and including its last '/'; empty for
/// a bare file name.
pub open spec fn spec_dir_of(p: Seq<char>) -> Seq<char> {
    p.take(spec_last_slash(p) + 1)
}

/// The file-name part of a path: everything after its last '/'.
pub open spec fn spec_file_name_of(p: Seq<char>) -> Seq<char> {
    p.skip(spec_last_slash(p) + 1)
}

/// The file name with one trailing ".vraw" suffix removed, when present.
pub open spec fn spec_stem_of(name: Seq<char>) -> Seq<char> {
    if name.len() >= 5 && name.skip(name.len() - 5) == seq!['.', 'v', 'r', 'a', 'w'] {
        name.take(name.len() - 5)
    } else {
        name
    }
}

/// The output extension the dominant format chooses.
pub open spec fn spec_extension_of(f: VideoCaptureFormat) -> Seq<char>
    recommends
        f is H265 || f is Mjpeg,
{
    if f is H265 {
        seq!['m', 'p', '4']
    } else {
        seq!['m', 'j', 'p', 'e', 'g']
    }
}

/// The derived output path: the input's directory, the input's base name
/// with its ".vraw" suffix stripped, an underscore, the formatted local
/// time, and the extension the dominant format chooses.
pub open spec fn spec_derived_output(p: Seq<char>, f: VideoCaptureFormat, t: LocalTime) -> Seq<
    char,
> {
    spec_dir_of(p) + spec_stem_of(spec_file_name_of(p)) + seq!['_'] + spec_timestamp_chars(t)
        + seq!['.'] + spec_extension_of(f)
}

/// Derives the default output path from the input path, the dominant format
/// and a local-time reading: same directory, same base name without its
/// ".vraw" suffix, an underscore and the YYYY-MM-DDTHH_MM_SS timestamp, and
/// "mp4" or "mjpeg" as the format dictates. Any other format has no output
/// path to name.
///
/// The input must have a file-name part (not empty, "." or ".."), as a path
/// naming a real input file always does.
#[verifier::rlimit(60)]
pub fn derive_output_from_input(
    input_path: &str,
    format: &VideoCaptureFormat,
    timestamp: LocalTime,
) -> (r: Result<String, ConvertError>)
    requires
        spec_file_name_of(input_path@).len() > 0,
        spec_file_name_of(input_path@) != seq!['.'],
        spec_file_name_of(input_path@) != seq!['.', '.'],
    ensures
        *format is H265 || *format is Mjpeg ==> r is Ok && r->Ok_0@ == spec_derived_output(
            input_path@,
            *format,
            timestamp,
        ),
        !(*format is H265 || *format is Mjpeg) ==> r == Err::<String, ConvertError>(
            ConvertError::UnsupportedFormat,
        ),
{
    let ext: &str = match format {
        VideoCaptureFormat::H265 => "mp4",
        VideoCaptureFormat::Mjpeg => "mjpeg",
        _ => {
            return Err(ConvertError::UnsupportedFormat);
        },
    };
    proof {
        reveal_strlit("mp4");
        reveal_strlit("mjpeg");
        assert(ext@ =~= spec_extension_of(*format));
    }

    let p_len: usize = input_path.unicode_len();

    // Find the start of the file-name part: one past the last '/'.
    let mut start: usize = 0;
    let mut k: usize = p_len;
    proof {
        assert(input_path@.take(p_len as int) =~= input_path@);
    }
    loop
        invariant_except_break
            k <= p_len,
            p_len == input_path@.len(),
            spec_last_slash(input_path@) == spec_last_slash(input_path@.take(k as int)),
        ensures
            start <= p_len,
            p_len == input_path@.len(),
            start as int == spec_last_slash(input_path@) + 1,
        decreases k,
    {
        if k == 0 {
            proof {
                assert(input_path@.take(0).len() == 0);
            }
            start = 0;
            break;
        }
        let c = input_path.get_char(k - 1);
        if c == '/' {
            proof {
                assert(input_path@.take(k as int)[k as int - 1] == '/');
            }
            start = k;
            break;
        }
        proof {
            assert(input_path@.take(k as int)[k as int - 1] != '/');
            assert(input_path@.take(k as int).take(k as int - 1) =~= input_path@.take(
                k as int - 1,
            ));
        }
        k = k - 1;
    }

    // The stem: the file name, less one ".vraw" suffix if it carries one.
    let name_len: usize = p_len - start;
    let has_suffix: bool = if name_len >= 5 {
        input_path.get_char(p_len - 5) == '.' && input_path.get_char(p_len - 4) == 'v'
            && input_path.get_char(p_len - 3) == 'r' && input_path.get_char(p_len - 2) == 'a'
            && input_path.get_char(p_len - 1) == 'w'
    } else {
        false
    };
    proof {
        let name = spec_file_name_of(input_path@);
        assert(name.len() == name_len);
        if name_len >= 5 {
            assert(name.skip(name.len() - 5) =~= input_path@.skip(p_len - 5 as int));
            if has_suffix {
                assert(input_path@.skip(p_len - 5 as int) =~= seq!['.', 'v', 'r', 'a', 'w']);
            } else {
                assert(input_path@.skip(p_len - 5 as int) != seq!['.', 'v', 'r', 'a', 'w']) by {
                    if input_path@.skip(p_len - 5 as int) == seq!['.', 'v', 'r', 'a', 'w'] {
                        assert(input_path@.skip(p_len - 5 as int)[0] == '.');
                        assert(input_path@.skip(p_len - 5 as int)[1] == 'v');
                        assert(input_path@.skip(p_len - 5 as int)[2] == 'r');
                        assert(input_path@.skip(p_len - 5 as int)[3] == 'a');
                        assert(input_path@.skip(p_len - 5 as int)[4] == 'w');
                    }
                }
            }
        }
    }
    let stem_end: usize = if has_suffix {
        p_len - 5
    } else {
        p_len
    };

    let mut out: String = String::new();
    out.append(input_path.substring_char(0, start));
    proof {
        assert(spec_dir_of(input_path@) =~= input_path@.subrange(0, start as int));
        assert(out@ =~= spec_dir_of(input_path@));
    }
    let ghost dir = spec_dir_of(input_path@);
    let ghost stem = spec_stem_of(spec_file_name_of(input_path@));
    out.append(input_path.substring_char(start, stem_end));
    proof {
        assert(stem =~= input_path@.subrange(start as int, stem_end as int));
        assert(out@ =~= dir + stem);
    }
    string_push(&mut out, '_');
    proof {
        assert(out@ =~= dir + stem + seq!['_']);
    }
    let ts = timestamp_string(timestamp);
    out.append(ts.as_str());
    proof {
        assert(out@ =~= dir + stem + seq!['_'] + spec_timestamp_chars(timestamp));
    }
    string_push(&mut out, '.');
    out.append(ext);
    proof {
        assert(out@ =~= dir + stem + seq!['_'] + spec_timestamp_chars(timestamp) + seq!['.']
            + spec_extension_of(*format));
    }
    Ok(out)
}

/// The formatted local-time reading: YYYY-MM-DDTHH_MM_SS, fields zero-padded.
fn timestamp_string(timestamp: LocalTime) -> (r: String)
    ensures
        r@ == spec_timestamp_chars(timestamp),
{
    let ghost y = spec_padded(timestamp.year as int, 4);
    let ghost mo = spec_padded(timestamp.month as int, 2);
    let ghost d = spec_padded(timestamp.day as int, 2);
    let ghost h = spec_padded(timestamp.hour as int, 2);
    let ghost mi = spec_padded(timestamp.minute as int, 2);
    let mut out: String = String::new();
    push_padded(&mut out, timestamp.year as u64, 4);
    proof {
        assert(out@ =~= y);
    }
    string_push(&mut out, '-');
    proof {
        assert(out@ =~= y + seq!['-']);
    }
    push_padded(&mut out, timestamp.month as u64, 2);
    proof {
        assert(out@ =~= y + seq!['-'] + mo);
    }
    string_push(&mut out, '-');
    proof {
        assert(out@ =~= y + seq!['-'] + mo + seq!['-']);
    }
    push_padded(&mut out, timestamp.day as u64, 2);
    proof {
        assert(out@ =~= y + seq!['-'] + mo + seq!['-'] + d);
    }
    string_push(&mut out, 'T');
    proof {
        assert(out@ =~= y + seq!['-'] + mo + seq!['-'] + d + seq!['T']);
    }
    push_padded(&mut out, timestamp.hour as u64, 2);
    proof {
        assert(out@ =~= y + seq!['-'] + mo + seq!['-'] + d + seq!['T'] + h);
    }
    string_push(&mut out, '_');
    proof {
        assert(out@ =~= y + seq!['-'] + mo + seq!['-'] + d + seq!['T'] + h + seq!['_']);
    }
    push_padded(&mut out, timestamp.minute as u64, 2);
    proof {
        assert(out@ =~= y + seq!['-'] + mo + seq!['-'] + d + seq!['T'] + h + seq!['_'] + mi);
    }
    string_push(&mut out, '_');
    proof {
        assert(out@ =~= y + seq!['-'] + mo + seq!['-'] + d + seq!['T'] + h + seq!['_'] + mi
            + seq!['_']);
    }
    push_padded(&mut out, timestamp.second as u64, 2);
    proof {
        assert(out@ =~= spec_timestamp_chars(timestamp));
    }
    out
}

// ---------------------------------------------------------------------------
// Laws of the router

/// A recording whose every indexed frame decodes as telemetry has no
/// dominant format: the conversion of such a recording fails with
/// `NoVideoFrame` (see the contract of `convert_vraw`), and so does the
/// conversion of an empty index.
pub proof fn lemma_all_telemetry_no_dominant(
    s: Seq<u8>,
    entries: Seq<RecordingIndexEntry>,
    i: int,
)
    requires
        0 <= i <= entries.len(),
        forall|j: int|
            0 <= j < entries.len() ==> #[trigger] spec_parse_frame(s, entries[j].offset as int)
                is Ok ==> spec_parse_frame(s, entries[j].offset as int)->Ok_0.format is Stats,
    ensures
        spec_dominant_format(s, entries, i) is None,
    decreases entries.len() - i,
{
    if i < entries.len() {
        lemma_all_telemetry_no_dominant(s, entries, i + 1);
    }
}

} // verus!
