pub mod mux;
pub mod parser;
pub mod processing;
pub mod textfmt;

use vstd::prelude::*;
use vstd::string::StringExecFns;

use crate::parser::{spec_format_error_message, FormatError};
use crate::textfmt::spec_idec;

verus! {

/// How a whole conversion can fail.
///
/// `IndexRead` is a failure to locate or decode the trailing index;
/// `NoVideoFrame` means no index entry decodes to a non-telemetry frame;
/// `UnsupportedFormat` is a decodable video format with no output path;
/// `FrameRead` is a frame decode failure at a point where the scan cannot
/// treat it as end-of-stream, carrying the failing entry's byte offset; the
/// `Mux*` variants name the container-writing step that reported a failure
/// -- the muxing wrappers prove that no step of the in-memory writer can
/// fail, so these are never returned by this crate's functions.
#[derive(Clone, Copy, Debug, PartialEq, Eq, Structural)]
pub enum ConvertError {
    IndexRead(FormatError),
    NoVideoFrame,
    UnsupportedFormat,
    FrameRead { offset: i64, error: FormatError },
    MuxStart,
    MuxAddTrack,
    MuxWriteSample,
    MuxFinish,
}

/// The text `ConvertError::message` renders for each failure.
pub open spec fn spec_convert_error_message(e: ConvertError) -> Seq<char> {
    match e {
        ConvertError::IndexRead(f) => "vraw_convert: failed to read index: "@
            + spec_format_error_message(f),
        ConvertError::NoVideoFrame => "vraw_convert: unable to find a video frame"@,
        ConvertError::UnsupportedFormat => "VideoCaptureFormat not supported"@,
        ConvertError::FrameRead { offset, error } => (
        "vraw_convert: unable to read frame at offset "@ + spec_idec(offset as int) + ": "@
            + spec_format_error_message(error)),
        ConvertError::MuxStart => "vraw_convert: failed to start writing mp4"@,
        ConvertError::MuxAddTrack => "vraw_convert: failed to add mp4 track"@,
        ConvertError::MuxWriteSample => "vraw_convert: failed to write sample"@,
        ConvertError::MuxFinish => "vraw_convert: failed to end mp4 writing"@,
    }
}

impl ConvertError {
    /// A human-readable description of the failure, naming the failing step
    /// and the context the decode failure carries.
    pub fn message(&self) -> (r: String)
        ensures
            r@ == spec_convert_error_message(*self),
    {
        let mut s = String::new();
        match *self {
            ConvertError::IndexRead(f) => {
                s.append("vraw_convert: failed to read index: ");
                let inner = f.message();
                s.append(inner.as_str());
            },
            ConvertError::NoVideoFrame => {
                s.append("vraw_convert: unable to find a video frame");
            },
            ConvertError::UnsupportedFormat => {
                s.append("VideoCaptureFormat not supported");
            },
            ConvertError::FrameRead { offset, error } => {
                s.append("vraw_convert: unable to read frame at offset ");
                crate::textfmt::push_idec64(&mut s, offset);
                s.append(": ");
                let inner = error.message();
                s.append(inner.as_str());
            },
            ConvertError::MuxStart => {
                s.append("vraw_convert: failed to start writing mp4");
            },
            ConvertError::MuxAddTrack => {
                s.append("vraw_convert: failed to add mp4 track");
            },
            ConvertError::MuxWriteSample => {
                s.append("vraw_convert: failed to write sample");
            },
            ConvertError::MuxFinish => {
                s.append("vraw_convert: failed to end mp4 writing");
            },
        }
        proof {
            assert(s@ =~= spec_convert_error_message(*self));
        }
        s
    }
}

/// Caller-supplied conversion settings: the input recording and, optionally,
/// the name of the file the converted stream should be written to. When no
/// output is given, a name is derived from the input path, the dominant
/// format and the current local time.
pub struct Config {
    pub input: String,
    pub output: Option<String>,
}

} // verus!
