//! Container muxing for the HEVC output path.
//!
//! The mp4 crate does the actual box writing; it is reached only through the
//! trusted wrappers below, whose contracts speak of the writer's abstract
//! state: how many tracks it holds, and the samples written to its first
//! track. Everything around the calls -- seeding the track from the first
//! video frame, the timestamp baseline, the per-frame durations, and which
//! frames become samples -- is verified against `spec_hevc_seed` and
//! `spec_hevc_samples`.

use vstd::prelude::*;

use crate::parser::{spec_parse_frame, RecordingIndexEntry, VideoCaptureFormat};
use crate::ConvertError;

verus! {

/// A sample as the contracts model it: start time, duration, rendering
/// offset, sync flag, and payload bytes.
pub type SampleModel = (u64, u32, i32, bool, Seq<u8>);

#[verifier::external_type_specification]
#[verifier::external_body]
#[verifier::reject_recursive_types(W)]
pub struct ExMp4Writer<W>(mp4::Mp4Writer<W>);

#[verifier::external_type_specification]
#[verifier::external_body]
#[verifier::reject_recursive_types(T)]
pub struct ExCursor<T>(std::io::Cursor<T>);

#[verifier::external_type_specification]
#[verifier::external_body]
pub struct ExMp4Error(mp4::Error);

/// The number of tracks the writer holds.
pub uninterp spec fn writer_track_count(w: mp4::Mp4Writer<std::io::Cursor<Vec<u8>>>) -> nat;

/// The samples written to the writer's first track, in write order. The
/// start-time field records what was handed in: this container writer
/// derives all timing from the durations alone and emits no start times.
pub uninterp spec fn writer_samples(w: mp4::Mp4Writer<std::io::Cursor<Vec<u8>>>) -> Seq<
    SampleModel,
>;

/// The bytes finalizing the writer yields.
pub uninterp spec fn mp4_finished_bytes(w: mp4::Mp4Writer<std::io::Cursor<Vec<u8>>>) -> Seq<u8>;

/// The movie timescale the writer was started with.
pub uninterp spec fn writer_timescale(w: mp4::Mp4Writer<std::io::Cursor<Vec<u8>>>) -> u32;

/// The file-type configuration the writer was started with: major brand,
/// minor version, compatible brand.
pub uninterp spec fn writer_ftyp(w: mp4::Mp4Writer<std::io::Cursor<Vec<u8>>>) -> (
    Seq<u8>,
    u32,
    Seq<u8>,
);

/// Whether the writer is in the state this module's wrappers keep it in:
/// started with movie timescale 1000 on an in-memory cursor; every track
/// added by the HEVC track wrapper, whose configuration sets the track
/// timescale and the chunk-duration flush threshold to 1000; and each
/// track's unflushed chunk below 1000 timescale units, holding no more
/// samples than were written to the track. These are the facts that keep the
/// writer's internal counters in range on the next write.
pub uninterp spec fn writer_wf(w: mp4::Mp4Writer<std::io::Cursor<Vec<u8>>>) -> bool;

/// Relies on mp4::Mp4Writer::write_start: writes the leading ftyp and mdat
/// headers for the given brand/timescale configuration into a fresh
/// in-memory cursor -- writes to which cannot fail -- and returns a writer
/// that holds no tracks and no samples, with the configuration recorded.
#[verifier::external_body]
fn mp4_write_start(
    major_brand: &[u8; 4],
    minor_version: u32,
    compatible_brand: &[u8; 4],
    timescale: u32,
) -> (r: Result<mp4::Mp4Writer<std::io::Cursor<Vec<u8>>>, mp4::Error>)
    ensures
        r is Ok,
        r is Ok ==> writer_track_count(r->Ok_0) == 0,
        r is Ok ==> writer_samples(r->Ok_0) == Seq::<SampleModel>::empty(),
        r is Ok ==> writer_timescale(r->Ok_0) == timescale,
        r is Ok ==> writer_ftyp(r->Ok_0) == (major_brand@, minor_version, compatible_brand@),
        r is Ok && timescale == 1000 ==> writer_wf(r->Ok_0),
{
    let config = mp4::Mp4Config {
        major_brand: mp4::FourCC::from(*major_brand),
        minor_version,
        compatible_brands: vec![mp4::FourCC::from(*compatible_brand)],
        timescale,
    };
    mp4::Mp4Writer::write_start(std::io::Cursor::new(Vec::new()), &config)
}

/// Relies on mp4::Mp4Writer::add_track with Mp4TrackWriter::new: no step of
/// the HEVC configuration can fail, so one track is always appended, with
/// track timescale 1000 and an empty chunk -- well-formedness is kept. The
/// samples, the movie timescale and the file-type configuration never
/// change.
#[verifier::external_body]
fn mp4_add_hevc_track(w: &mut mp4::Mp4Writer<std::io::Cursor<Vec<u8>>>) -> (r: Result<
    (),
    mp4::Error,
>)
    ensures
        r is Ok,
        writer_samples(*final(w)) == writer_samples(*old(w)),
        writer_track_count(*final(w)) == writer_track_count(*old(w)) + 1,
        writer_timescale(*final(w)) == writer_timescale(*old(w)),
        writer_ftyp(*final(w)) == writer_ftyp(*old(w)),
        writer_wf(*old(w)) ==> writer_wf(*final(w)),
{
    w.add_track(&mp4::TrackConfig::from(mp4::MediaConfig::HevcConfig(mp4::HevcConfig::default())))
}

/// Relies on mp4::Mp4Writer::write_sample: with the first track present it
/// only writes into the in-memory cursor, which cannot fail, so the sample
/// is always appended to that track's samples. Well-formedness keeps the
/// track's unflushed chunk below 1000 timescale units, so a duration that
/// leaves 999 units of headroom cannot overflow the chunk accumulator (the
/// chunk flushes whenever it reaches the threshold), and the sample-count
/// bound keeps the per-track counters in range. The track count, the movie
/// timescale and the file-type configuration never change.
#[verifier::external_body]
fn mp4_write_sample(
    w: &mut mp4::Mp4Writer<std::io::Cursor<Vec<u8>>>,
    track_id: u32,
    start_time: u64,
    duration: u32,
    rendering_offset: i32,
    is_sync: bool,
    data: &Vec<u8>,
) -> (r: Result<(), mp4::Error>)
    requires
        writer_wf(*old(w)),
        track_id == 1,
        writer_track_count(*old(w)) >= 1,
        duration <= u32::MAX - 999,
        writer_samples(*old(w)).len() < u32::MAX - 1,
    ensures
        r is Ok,
        writer_samples(*final(w)) == writer_samples(*old(w)).push(
            (start_time, duration, rendering_offset, is_sync, data@),
        ),
        writer_track_count(*final(w)) == writer_track_count(*old(w)),
        writer_timescale(*final(w)) == writer_timescale(*old(w)),
        writer_ftyp(*final(w)) == writer_ftyp(*old(w)),
        writer_wf(*final(w)),
{
    let sample = mp4::Mp4Sample {
        start_time,
        duration,
        rendering_offset,
        is_sync,
        bytes: mp4::Bytes::copy_from_slice(data.as_slice()),
    };
    w.write_sample(track_id, &sample)
}

/// Relies on mp4::Mp4Writer::write_end and into_writer: flushes the last
/// chunk and writes the moov trailer into the in-memory cursor, which cannot
/// fail for a well-formed writer, and hands back every byte written.
#[verifier::external_body]
fn mp4_finish(w: mp4::Mp4Writer<std::io::Cursor<Vec<u8>>>) -> (r: Result<Vec<u8>, mp4::Error>)
    requires
        writer_wf(w),
    ensures
        r is Ok,
        r matches Ok(b) ==> b@ == mp4_finished_bytes(w),
{
    let mut w = w;
    match w.write_end() {
        Ok(()) => Ok(w.into_writer().into_inner()),
        Err(e) => Err(e),
    }
}

// ---------------------------------------------------------------------------
// Sample timing

/// `delta` nanoseconds rounded to the nearest millisecond, halves away from
/// zero.
pub open spec fn spec_round_ms(delta: int) -> int {
    if delta >= 0 {
        (delta + 500000) / 1000000
    } else {
        -(((-delta) + 500000) / 1000000)
    }
}

/// The largest sample duration handed to the container writer. It leaves the
/// 999 timescale units an unflushed chunk can already hold below the
/// 1000-unit flush threshold, so the writer's chunk accumulator cannot
/// overflow.
pub const MAX_SAMPLE_DURATION_MS: u32 = u32::MAX - 999;

/// The duration of a sample whose predecessor was received at `last` and
/// which was received at `cur` (both in nanoseconds): the delta rounded to
/// whole milliseconds and clamped to the writer's safe range (a negative
/// delta gives zero; a delta of more than about 136 years saturates).
pub open spec fn spec_duration_ms(last: i64, cur: i64) -> u32 {
    let m = spec_round_ms(cur - last);
    if m < 0 {
        0u32
    } else if m > MAX_SAMPLE_DURATION_MS {
        MAX_SAMPLE_DURATION_MS
    } else {
        m as u32
    }
}

fn duration_ms(last: i64, cur: i64) -> (r: u32)
    ensures
        r == spec_duration_ms(last, cur),
        r <= MAX_SAMPLE_DURATION_MS,
{
    if cur >= last {
        let mag: u128 = (cur as i128 - last as i128) as u128;
        let ms: u128 = (mag + 500000) / 1000000;
        if ms > MAX_SAMPLE_DURATION_MS as u128 {
            MAX_SAMPLE_DURATION_MS
        } else {
            ms as u32
        }
    } else {
        0
    }
}

/// The two's-complement reinterpretation of a signed timestamp as the
/// unsigned start-time field of a sample.
pub open spec fn spec_u64_of_i64(t: i64) -> u64 {
    if t >= 0 {
        t as u64
    } else {
        (t + 0x1_0000_0000_0000_0000) as u64
    }
}

fn u64_of_i64(t: i64) -> (r: u64)
    ensures
        r == spec_u64_of_i64(t),
{
    if t >= 0 {
        t as u64
    } else {
        let m1: i64 = -(t + 1);
        u64::MAX - (m1 as u64)
    }
}

// ---------------------------------------------------------------------------
// The verified muxing pass

/// Where the seeding scan of the index ends: the position and receive
/// timestamp of the first H.265 frame (`Ok(Some(..))`), exhaustion without
/// one (`Ok(None)`), or the error that stops the scan -- a frame that does
/// not decode, or a non-telemetry frame of another format.
pub open spec fn spec_hevc_seed(
    s: Seq<u8>,
    entries: Seq<RecordingIndexEntry>,
    i: int,
) -> Result<Option<(int, i64)>, ConvertError>
    decreases entries.len() - i,
{
    if i < 0 || i >= entries.len() {
        Ok(None)
    } else {
        match spec_parse_frame(s, entries[i].offset as int) {
            Err(e) => Err(ConvertError::FrameRead { offset: entries[i].offset, error: e }),
            Ok(f) => {
                if f.format is Stats {
                    spec_hevc_seed(s, entries, i + 1)
                } else if f.format is H265 {
                    Ok(Some((i, f.timestamp)))
                } else {
                    Err(ConvertError::UnsupportedFormat)
                }
            },
        }
    }
}

/// The samples the scan writes from entry `i` on, with `last` the timestamp
/// baseline: telemetry frames are skipped, a frame that fails to decode ends
/// the scan (the usable end of the recording), and every other frame becomes
/// one sample whose duration is the rounded delta to the previous written
/// timestamp.
pub open spec fn spec_hevc_samples(
    s: Seq<u8>,
    entries: Seq<RecordingIndexEntry>,
    i: int,
    last: i64,
) -> Seq<SampleModel>
    decreases entries.len() - i,
{
    if i < 0 || i >= entries.len() {
        Seq::<SampleModel>::empty()
    } else {
        match spec_parse_frame(s, entries[i].offset as int) {
            Err(_) => Seq::<SampleModel>::empty(),
            Ok(f) => {
                if f.format is Stats {
                    spec_hevc_samples(s, entries, i + 1, last)
                } else {
                    seq![
                        (
                            spec_u64_of_i64(f.timestamp),
                            spec_duration_ms(last, f.timestamp),
                            0i32,
                            false,
                            f.raw_data,
                        ),
                    ] + spec_hevc_samples(s, entries, i + 1, f.timestamp)
                }
            },
        }
    }
}

/// The bytes of the container brand "isom".
pub open spec fn spec_isom_brand() -> Seq<u8> {
    seq![0x69u8, 0x73u8, 0x6fu8, 0x6du8]
}

/// The bytes of the compatible brand "hev1".
pub open spec fn spec_hev1_brand() -> Seq<u8> {
    seq![0x68u8, 0x65u8, 0x76u8, 0x31u8]
}

/// What a successful HEVC extraction emits, given the seed the scan found:
/// the finalized bytes of a writer configured isom/512/hev1 at timescale
/// 1000, holding exactly one track whose samples are the modeled sample
/// sequence from the entry after the seed.
pub open spec fn spec_hevc_output(
    s: Seq<u8>,
    entries: Seq<RecordingIndexEntry>,
    st: (int, i64),
    out: Seq<u8>,
) -> bool {
    exists|w: mp4::Mp4Writer<std::io::Cursor<Vec<u8>>>|
        {
            &&& writer_track_count(w) == 1
            &&& writer_samples(w) == spec_hevc_samples(s, entries, st.0 + 1, st.1)
            &&& writer_timescale(w) == 1000
            &&& writer_ftyp(w) == (spec_isom_brand(), 512u32, spec_hev1_brand())
            &&& out == #[trigger] mp4_finished_bytes(w)
        }
}

/// Walks the index: finds the first H.265 frame, adds the single video
/// track, and writes one sample per later video frame until the entries run
/// out or a frame stops decoding.
///
/// The outcome is pinned both ways by the seeding scan: a found seed owes
/// success, with exactly one track and exactly the modeled samples from the
/// entry after the seed; an exhausted scan owes `NoVideoFrame`; a scan that
/// stops owes exactly its error.
pub fn mux_hevc_frames(
    data: &[u8],
    entries: &Vec<RecordingIndexEntry>,
    w: &mut mp4::Mp4Writer<std::io::Cursor<Vec<u8>>>,
) -> (r: Result<(), ConvertError>)
    requires
        writer_wf(*old(w)),
        writer_track_count(*old(w)) == 0,
        writer_samples(*old(w)) == Seq::<SampleModel>::empty(),
        entries@.len() <= u32::MAX,
    ensures
        (match spec_hevc_seed(data@, entries@, 0) {
            Ok(seed) => (match seed {
                Some(st) => r is Ok && writer_wf(*final(w)) && writer_track_count(*final(w)) == 1
                    && writer_samples(*final(w)) == spec_hevc_samples(
                    data@,
                    entries@,
                    st.0 + 1,
                    st.1,
                ) && writer_timescale(*final(w)) == writer_timescale(*old(w)) && writer_ftyp(
                    *final(w),
                ) == writer_ftyp(*old(w)),
                None => r == Err::<(), ConvertError>(ConvertError::NoVideoFrame),
            }),
            Err(e) => r == Err::<(), ConvertError>(e),
        }),
{
    let n: usize = entries.len();

    // Seeding scan: the first H.265 frame configures the track and the
    // timestamp baseline; it contributes no sample itself.
    let mut i: usize = 0;
    let mut last: i64 = 0;
    loop
        invariant_except_break
            i <= n,
            n == entries@.len(),
            writer_wf(*w),
            writer_track_count(*w) == 0,
            writer_samples(*w) == Seq::<SampleModel>::empty(),
            writer_timescale(*w) == writer_timescale(*old(w)),
            writer_ftyp(*w) == writer_ftyp(*old(w)),
            spec_hevc_seed(data@, entries@, 0) == spec_hevc_seed(data@, entries@, i as int),
        ensures
            i < n,
            n == entries@.len(),
            writer_wf(*w),
            writer_track_count(*w) == 1,
            writer_samples(*w) == Seq::<SampleModel>::empty(),
            writer_timescale(*w) == writer_timescale(*old(w)),
            writer_ftyp(*w) == writer_ftyp(*old(w)),
            spec_hevc_seed(data@, entries@, 0) == Ok::<Option<(int, i64)>, ConvertError>(
                Some((i as int, last)),
            ),
        decreases n - i,
    {
        if i >= n {
            return Err(ConvertError::NoVideoFrame);
        }
        let frame = match crate::parser::parse_raw_frame(data, &entries[i]) {
            Ok(f) => f,
            Err(e) => {
                return Err(ConvertError::FrameRead { offset: entries[i].offset, error: e });
            },
        };
        if frame.format == VideoCaptureFormat::H265 {
            match mp4_add_hevc_track(w) {
                Ok(()) => (),
                Err(_) => {
                    return Err(ConvertError::MuxAddTrack);
                },
            }
            last = frame.timestamp;
            break;
        } else if frame.format == VideoCaptureFormat::Stats {
            i = i + 1;
        } else {
            return Err(ConvertError::UnsupportedFormat);
        }
    }

    let ghost seed_i: int = i as int;
    let ghost seed_ts: i64 = last;

    // Sample scan: every later video frame becomes one sample; telemetry is
    // skipped, and a frame that no longer decodes is the usable end of the
    // recording.
    let mut j: usize = i + 1;
    loop
        invariant_except_break
            0 <= seed_i,
            seed_i + 1 <= j <= n,
            n == entries@.len(),
            n <= u32::MAX,
            writer_wf(*w),
            writer_track_count(*w) == 1,
            writer_timescale(*w) == writer_timescale(*old(w)),
            writer_ftyp(*w) == writer_ftyp(*old(w)),
            writer_samples(*w) + spec_hevc_samples(data@, entries@, j as int, last)
                == spec_hevc_samples(data@, entries@, seed_i + 1, seed_ts),
            writer_samples(*w).len() <= j - seed_i - 1,
        ensures
            writer_wf(*w),
            writer_track_count(*w) == 1,
            writer_timescale(*w) == writer_timescale(*old(w)),
            writer_ftyp(*w) == writer_ftyp(*old(w)),
            writer_samples(*w) == spec_hevc_samples(data@, entries@, seed_i + 1, seed_ts),
        decreases n - j,
    {
        if j >= n {
            proof {
                assert(spec_hevc_samples(data@, entries@, j as int, last) =~= Seq::<
                    SampleModel,
                >::empty());
                assert(writer_samples(*w) =~= writer_samples(*w) + Seq::<SampleModel>::empty());
            }
            break;
        }
        let frame = match crate::parser::parse_raw_frame(data, &entries[j]) {
            Ok(f) => f,
            Err(_) => {
                proof {
                    assert(spec_hevc_samples(data@, entries@, j as int, last) =~= Seq::<
                        SampleModel,
                    >::empty());
                    assert(writer_samples(*w) =~= writer_samples(*w) + Seq::<
                        SampleModel,
                    >::empty());
                }
                break;
            },
        };
        if frame.format == VideoCaptureFormat::Stats {
            j = j + 1;
        } else {
            let start_time = u64_of_i64(frame.timestamp);
            let duration = duration_ms(last, frame.timestamp);
            let ghost before = writer_samples(*w);
            proof {
                assert(writer_samples(*w).len() <= n - seed_i - 2);
            }
            match mp4_write_sample(w, 1, start_time, duration, 0, false, &frame.raw_data) {
                Ok(()) => (),
                Err(_) => {
                    return Err(ConvertError::MuxWriteSample);
                },
            }
            proof {
                let sample = (
                    spec_u64_of_i64(frame.timestamp as i64),
                    spec_duration_ms(last, frame.timestamp),
                    0i32,
                    false,
                    frame.raw_data@,
                );
                assert(spec_hevc_samples(data@, entries@, j as int, last) == seq![sample]
                    + spec_hevc_samples(data@, entries@, j + 1, frame.timestamp));
                assert(writer_samples(*w) =~= before.push(sample));
                assert(before.push(sample) =~= before + seq![sample]);
                assert(writer_samples(*w) + spec_hevc_samples(
                    data@,
                    entries@,
                    j + 1,
                    frame.timestamp,
                ) =~= before + spec_hevc_samples(data@, entries@, j as int, last));
            }
            last = frame.timestamp;
            j = j + 1;
        }
    }
    Ok(())
}

/// Walks the index and emits a complete single-track HEVC container for the
/// video frames it holds. The first H.265 frame seeds the track and the
/// timestamp baseline and contributes no sample; every later video frame is
/// written as one sample.
///
/// The outcome is pinned both ways: a seeding scan that finds a video frame
/// owes success, and the returned bytes are the finalization of an
/// isom/512/hev1 writer at timescale 1000 holding exactly one track with
/// exactly the modeled samples; an exhausted scan owes `NoVideoFrame`; a
/// scan that stops owes exactly its error.
pub fn extract_hevc_from_vraw(data: &[u8], entries: &Vec<RecordingIndexEntry>) -> (r: Result<
    Vec<u8>,
    ConvertError,
>)
    requires
        entries@.len() <= u32::MAX,
    ensures
        (match spec_hevc_seed(data@, entries@, 0) {
            Ok(seed) => (match seed {
                Some(st) => r is Ok && spec_hevc_output(data@, entries@, st, r->Ok_0@),
                None => r == Err::<Vec<u8>, ConvertError>(ConvertError::NoVideoFrame),
            }),
            Err(e) => r == Err::<Vec<u8>, ConvertError>(e),
        }),
{
    // Container brand "isom", minor version 512, compatible brand "hev1",
    // timescale 1000 (sample timing in milliseconds).
    let major: [u8; 4] = [0x69, 0x73, 0x6f, 0x6d];  // "isom"
    let compat: [u8; 4] = [0x68, 0x65, 0x76, 0x31];  // "hev1"
    let mut w = match mp4_write_start(&major, 512, &compat, 1000) {
        Ok(w) => w,
        Err(_) => {
            return Err(ConvertError::MuxStart);
        },
    };
    proof {
        assert(major@ =~= spec_isom_brand());
        assert(compat@ =~= spec_hev1_brand());
    }
    match mux_hevc_frames(data, entries, &mut w) {
        Ok(()) => (),
        Err(e) => {
            return Err(e);
        },
    }
    let ghost wsnap = w;
    match mp4_finish(w) {
        Ok(bytes) => {
            proof {
                let st = spec_hevc_seed(data@, entries@, 0)->Ok_0->Some_0;
                assert(writer_track_count(wsnap) == 1);
                assert(writer_samples(wsnap) == spec_hevc_samples(
                    data@,
                    entries@,
                    st.0 + 1,
                    st.1,
                ));
                assert(writer_timescale(wsnap) == 1000);
                assert(writer_ftyp(wsnap) == (spec_isom_brand(), 512u32, spec_hev1_brand()));
                assert(bytes@ == mp4_finished_bytes(wsnap));
                assert(spec_hevc_output(data@, entries@, st, bytes@));
            }
            Ok(bytes)
        },
        Err(_) => Err(ConvertError::MuxFinish),
    }
}

// ---------------------------------------------------------------------------
// Laws of the muxing pass

proof fn lemma_hevc_samples_len_all_video(
    s: Seq<u8>,
    entries: Seq<RecordingIndexEntry>,
    i: int,
    last: i64,
)
    requires
        0 <= i <= entries.len(),
        forall|j: int|
            i <= j < entries.len() ==> #[trigger] spec_parse_frame(s, entries[j].offset as int)
                is Ok && spec_parse_frame(s, entries[j].offset as int)->Ok_0.format is H265,
    ensures
        spec_hevc_samples(s, entries, i, last).len() == entries.len() - i,
    decreases entries.len() - i,
{
    if i < entries.len() {
        let f = spec_parse_frame(s, entries[i].offset as int)->Ok_0;
        lemma_hevc_samples_len_all_video(s, entries, i + 1, f.timestamp);
    }
}

/// Muxing a recording whose index holds one telemetry entry followed by `n`
/// H.265 entries (timestamps strictly increasing) seeds the track from the
/// first H.265 frame and writes exactly `n - 1` samples: every H.265 frame
/// after the seed contributes one sample, the seed none.
pub proof fn lemma_hevc_seed_and_sample_count(s: Seq<u8>, entries: Seq<RecordingIndexEntry>)
    requires
        entries.len() >= 2,
        spec_parse_frame(s, entries[0].offset as int) is Ok,
        spec_parse_frame(s, entries[0].offset as int)->Ok_0.format is Stats,
        forall|i: int|
            1 <= i < entries.len() ==> #[trigger] spec_parse_frame(s, entries[i].offset as int)
                is Ok && spec_parse_frame(s, entries[i].offset as int)->Ok_0.format is H265,
        forall|i: int|
            1 <= i < entries.len() - 1 ==> #[trigger] spec_parse_frame(
                s,
                entries[i].offset as int,
            )->Ok_0.timestamp < spec_parse_frame(s, entries[i + 1].offset as int)->Ok_0.timestamp,
    ensures
        spec_hevc_seed(s, entries, 0) == Ok::<Option<(int, i64)>, ConvertError>(
            Some((1int, spec_parse_frame(s, entries[1].offset as int)->Ok_0.timestamp)),
        ),
        spec_hevc_samples(
            s,
            entries,
            2,
            spec_parse_frame(s, entries[1].offset as int)->Ok_0.timestamp,
        ).len() == entries.len() - 2,
{
    let ts1 = spec_parse_frame(s, entries[1].offset as int)->Ok_0.timestamp;
    assert(spec_hevc_seed(s, entries, 0) == spec_hevc_seed(s, entries, 1));
    assert(spec_hevc_seed(s, entries, 1) == Ok::<Option<(int, i64)>, ConvertError>(
        Some((1int, ts1)),
    ));
    lemma_hevc_samples_len_all_video(s, entries, 2, ts1);
}

} // verus!
