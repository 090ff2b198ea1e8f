//! Streams of a media file as `ffprobe -show_streams` reports them, and the stream
//! information the catalog keeps.
//!
//! The driver decodes ffprobe's JSON into the `FFProbe*` records (the stream duration it
//! turns into milliseconds); the functions here do the rest.
use vstd::prelude::*;

use crate::text::{chars_of, parse_signed_chars, parse_signed_spec};

verus! {

/// Side data of a video stream.
#[derive(Debug, Clone, Copy, PartialEq, Eq, Hash, Structural)]
pub enum FFProbeSideData {
    DisplayMatrix { rotation: Option<i32> },
    FrameCropping {
        crop_top: Option<i32>,
        crop_bottom: Option<i32>,
        crop_left: Option<i32>,
        crop_right: Option<i32>,
    },
    Other,
}

/// A video stream as ffprobe reports it.
#[derive(Debug, Clone, PartialEq, Eq, Hash)]
pub struct FFProbeVideoStream {
    pub codec_name: String,
    /// The reported duration in milliseconds (rounded), where one is reported and readable.
    pub duration_ms: Option<i64>,
    pub width: i32,
    pub height: i32,
    /// Bits per second, as decimal text.
    pub bit_rate: Option<String>,
    pub side_data_list: Option<Vec<FFProbeSideData>>,
    /// Average frame rate as `numerator/denominator`.
    pub avg_frame_rate: String,
}

/// An audio stream as ffprobe reports it.
#[derive(Debug, Clone, PartialEq, Eq, Hash)]
pub struct FFProbeAudioStream {
    pub codec_name: String,
    /// Samples per second, as decimal text.
    pub sample_rate: String,
    /// Bits per second, as decimal text.
    pub bit_rate: Option<String>,
    pub channels: i32,
}

/// A stream as ffprobe reports it.
#[derive(Debug, Clone, PartialEq, Eq, Hash)]
pub enum FFProbeStreamType {
    Video(FFProbeVideoStream),
    Audio(FFProbeAudioStream),
    Other,
}

/// A video stream of a media file.
#[derive(Debug, Clone, PartialEq, Eq, Hash)]
pub struct VideoStream {
    pub codec_name: String,
    pub width: i32,
    pub height: i32,
    pub bitrate: Option<i64>,
    /// Rotation of the display matrix in degrees.
    pub rotation: Option<i32>,
    pub duration_ms: Option<i64>,
    pub avg_frame_rate: Option<(i32, i32)>,
}

/// An audio stream of a media file.
#[derive(Debug, Clone, PartialEq, Eq, Hash)]
pub struct AudioStream {
    pub codec_name: String,
    pub sample_rate: i64,
    pub bitrate: Option<i64>,
    pub channels: i32,
}

/// A video or audio stream of a media file.
#[derive(Debug, Clone, PartialEq, Eq, Hash)]
pub enum StreamType {
    Video(VideoStream),
    Audio(AudioStream),
}

/// The streams of a media file that the catalog keeps: its first video stream and first audio
/// stream.
#[derive(Debug, Clone, PartialEq, Eq, Hash)]
pub struct FFProbeStreams {
    pub video: VideoStream,
    pub audio: Option<AudioStream>,
}

/// The ffprobe tool.
#[derive(Debug, Clone, Copy, PartialEq, Eq, Structural)]
pub struct FFProbe {}

/// Why ffprobe's streams could not be read.
#[derive(Debug, Clone, PartialEq, Eq)]
pub enum StreamsError {
    /// A bit rate that is not a decimal integer.
    InvalidBitRate(String),
    /// A sample rate that is not a decimal integer.
    InvalidSampleRate(String),
    /// The file has no video stream.
    NoVideoStream,
}

/// `i64::from_str`.
pub open spec fn parse_i64_spec(s: Seq<char>) -> Option<i64> {
    match parse_signed_spec(s, i64::MIN as int, i64::MAX as int) {
        Some(v) => Some(v as i64),
        None => None,
    }
}

/// `i32::from_str`.
pub open spec fn parse_i32_spec(s: Seq<char>) -> Option<i32> {
    match parse_signed_spec(s, i32::MIN as int, i32::MAX as int) {
        Some(v) => Some(v as i32),
        None => None,
    }
}

/// `i64::from_str`.
pub fn parse_i64(s: &str) -> (r: Option<i64>)
    ensures
        r == parse_i64_spec(s@),
{
    let cs = chars_of(s);
    proof {
        assert(cs@.subrange(0, cs@.len() as int) =~= s@);
    }
    parse_signed_chars(&cs, 0, cs.len(), i64::MIN, i64::MAX)
}

/// Index of the first `/` in `s` at or after `i`.
pub open spec fn find_slash(s: Seq<char>, i: nat) -> Option<nat>
    decreases s.len() - i,
{
    if i >= s.len() {
        None
    } else if s[i as int] == '/' {
        Some(i)
    } else {
        find_slash(s, i + 1)
    }
}

/// A frame rate written `numerator/denominator` (split at the first `/`), where both parts
/// are `i32`s.
pub open spec fn frame_rate_spec(s: Seq<char>) -> Option<(i32, i32)> {
    match find_slash(s, 0) {
        None => None,
        Some(k) => match (
            parse_i32_spec(s.subrange(0, k as int)),
            parse_i32_spec(s.subrange(k + 1int, s.len() as int)),
        ) {
            (Some(n), Some(d)) => Some((n, d)),
            _ => None,
        },
    }
}

proof fn lemma_find_slash(s: Seq<char>, i: nat)
    ensures
        find_slash(s, i) matches Some(k) ==> i <= k < s.len(),
    decreases s.len() - i,
{
    if i < s.len() && s[i as int] != '/' {
        lemma_find_slash(s, i + 1);
    }
}

/// Reads a frame rate written `numerator/denominator`.
pub fn parse_frame_rate(s: &str) -> (r: Option<(i32, i32)>)
    ensures
        r == frame_rate_spec(s@),
{
    let cs = chars_of(s);
    let mut i: usize = 0;
    while i < cs.len() && cs[i] != '/'
        invariant
            cs@ == s@,
            i <= cs@.len(),
            find_slash(s@, 0) == find_slash(s@, i as nat),
        decreases cs@.len() - i,
    {
        i = i + 1;
    }
    if i >= cs.len() {
        return None;
    }
    let n = parse_signed_chars(&cs, 0, i, i32::MIN as i64, i32::MAX as i64);
    let d = parse_signed_chars(&cs, i + 1, cs.len(), i32::MIN as i64, i32::MAX as i64);
    match (n, d) {
        (Some(n), Some(d)) => Some((n as i32, d as i32)),
        _ => None,
    }
}

/// The rotation of the first display matrix that gives one.
pub open spec fn first_rotation(side_data: Seq<FFProbeSideData>) -> Option<i32>
    decreases side_data.len(),
{
    if side_data.len() == 0 {
        None
    } else {
        match side_data[0] {
            FFProbeSideData::DisplayMatrix { rotation: Some(r) } => Some(r),
            _ => first_rotation(side_data.drop_first()),
        }
    }
}

/// The rotation of the first display matrix that gives one.
pub fn find_rotation(side_data: &Vec<FFProbeSideData>) -> (r: Option<i32>)
    ensures
        r == first_rotation(side_data@),
{
    let mut i: usize = 0;
    proof {
        assert(side_data@.subrange(0, side_data@.len() as int) =~= side_data@);
    }
    while i < side_data.len()
        invariant
            i <= side_data@.len(),
            first_rotation(side_data@) == first_rotation(side_data@.subrange(i as int, side_data@.len() as int)),
        decreases side_data@.len() - i,
    {
        proof {
            let rest = side_data@.subrange(i as int, side_data@.len() as int);
            assert(rest[0] == side_data@[i as int]);
            assert(rest.drop_first() =~= side_data@.subrange(i + 1, side_data@.len() as int));
        }
        if let FFProbeSideData::DisplayMatrix { rotation: Some(r) } = side_data[i] {
            return Some(r);
        }
        i = i + 1;
    }
    proof {
        assert(side_data@.subrange(i as int, side_data@.len() as int).len() == 0);
    }
    None
}

/// The stream kept of a reported video stream, or the bit rate that is not a number.
pub open spec fn video_stream_spec(v: FFProbeVideoStream) -> Result<VideoStream, Seq<char>> {
    match v.bit_rate {
        Some(b) if parse_i64_spec(b@) is None => Err(b@),
        _ => Ok(
            VideoStream {
                codec_name: v.codec_name,
                width: v.width,
                height: v.height,
                bitrate: match v.bit_rate {
                    None => None,
                    Some(b) => parse_i64_spec(b@),
                },
                rotation: match v.side_data_list {
                    None => None,
                    Some(l) => first_rotation(l@),
                },
                duration_ms: v.duration_ms,
                avg_frame_rate: frame_rate_spec(v.avg_frame_rate@),
            },
        ),
    }
}

/// The view of a conversion error.
pub open spec fn error_view(e: StreamsError) -> (int, Seq<char>) {
    match e {
        StreamsError::InvalidBitRate(s) => (0, s@),
        StreamsError::InvalidSampleRate(s) => (1, s@),
        StreamsError::NoVideoStream => (2, Seq::empty()),
    }
}

/// The stream kept of a reported audio stream, or the error: a sample rate that is not a
/// number, else a bit rate that is not a number.
pub open spec fn audio_stream_spec(a: FFProbeAudioStream) -> Result<AudioStream, (int, Seq<char>)> {
    match parse_i64_spec(a.sample_rate@) {
        None => Err((1, a.sample_rate@)),
        Some(rate) => match a.bit_rate {
            Some(b) if parse_i64_spec(b@) is None => Err((0, b@)),
            _ => Ok(
                AudioStream {
                    codec_name: a.codec_name,
                    sample_rate: rate,
                    bitrate: match a.bit_rate {
                        None => None,
                        Some(b) => parse_i64_spec(b@),
                    },
                    channels: a.channels,
                },
            ),
        },
    }
}

/// Converts a reported video stream.
pub fn convert_video_stream(v: FFProbeVideoStream) -> (r: Result<VideoStream, StreamsError>)
    ensures
        match (r, video_stream_spec(v)) {
            (Ok(s), Ok(t)) => s == t,
            (Err(e), Err(b)) => error_view(e) == (0int, b),
            _ => false,
        },
{
    let bitrate = match &v.bit_rate {
        None => None,
        Some(b) => match parse_i64(b.as_str()) {
            None => {
                return Err(StreamsError::InvalidBitRate(b.clone()));
            },
            Some(n) => Some(n),
        },
    };
    let rotation = match &v.side_data_list {
        Some(side_datas) => find_rotation(side_datas),
        None => None,
    };
    let avg_frame_rate = parse_frame_rate(v.avg_frame_rate.as_str());
    Ok(
        VideoStream {
            codec_name: v.codec_name,
            width: v.width,
            height: v.height,
            bitrate,
            rotation,
            duration_ms: v.duration_ms,
            avg_frame_rate,
        },
    )
}

/// Converts a reported audio stream.
pub fn convert_audio_stream(a: FFProbeAudioStream) -> (r: Result<AudioStream, StreamsError>)
    ensures
        match (r, audio_stream_spec(a)) {
            (Ok(s), Ok(t)) => s == t,
            (Err(e), Err(b)) => error_view(e) == b,
            _ => false,
        },
{
    let sample_rate = match parse_i64(a.sample_rate.as_str()) {
        None => {
            return Err(StreamsError::InvalidSampleRate(a.sample_rate.clone()));
        },
        Some(n) => n,
    };
    let bitrate = match &a.bit_rate {
        None => None,
        Some(b) => match parse_i64(b.as_str()) {
            None => {
                return Err(StreamsError::InvalidBitRate(b.clone()));
            },
            Some(n) => Some(n),
        },
    };
    Ok(AudioStream { codec_name: a.codec_name, sample_rate, bitrate, channels: a.channels })
}

/// The kept streams of the reported ones, in order and without the other kinds, or the error
/// of the first stream that cannot be read.
pub open spec fn streams_spec(raw: Seq<FFProbeStreamType>) -> Result<Seq<StreamType>, (int, Seq<char>)>
    decreases raw.len(),
{
    if raw.len() == 0 {
        Ok(Seq::empty())
    } else {
        let first: Option<Result<StreamType, (int, Seq<char>)>> = match raw[0] {
            FFProbeStreamType::Other => None,
            FFProbeStreamType::Video(v) => Some(
                match video_stream_spec(v) {
                    Ok(s) => Ok(StreamType::Video(s)),
                    Err(b) => Err((0int, b)),
                },
            ),
            FFProbeStreamType::Audio(a) => Some(
                match audio_stream_spec(a) {
                    Ok(s) => Ok(StreamType::Audio(s)),
                    Err(e) => Err(e),
                },
            ),
        };
        match first {
            Some(Err(e)) => Err(e),
            _ => match streams_spec(raw.drop_first()) {
                Err(e) => Err(e),
                Ok(rest) => match first {
                    Some(Ok(s)) => Ok(seq![s] + rest),
                    _ => Ok(rest),
                },
            },
        }
    }
}

/// Converts the reported streams: other kinds of streams are left out, and the first stream
/// that cannot be read gives the error.
pub fn parse_ffprobe_streams(raw: Vec<FFProbeStreamType>) -> (r: Result<Vec<StreamType>, StreamsError>)
    ensures
        match (r, streams_spec(raw@)) {
            (Ok(v), Ok(s)) => v@ == s,
            (Err(e), Err(b)) => error_view(e) == b,
            _ => false,
        },
    decreases raw@.len(),
{
    let ghost all = raw@;
    if raw.len() == 0 {
        return Ok(Vec::new());
    }
    let mut rest = raw;
    let first = rest.remove(0);
    proof {
        assert(rest@ =~= all.drop_first());
    }
    let converted: Option<StreamType> = match first {
        FFProbeStreamType::Other => None,
        FFProbeStreamType::Video(v) => match convert_video_stream(v) {
            Ok(s) => Some(StreamType::Video(s)),
            Err(e) => {
                return Err(e);
            },
        },
        FFProbeStreamType::Audio(a) => match convert_audio_stream(a) {
            Ok(s) => Some(StreamType::Audio(s)),
            Err(e) => {
                return Err(e);
            },
        },
    };
    match parse_ffprobe_streams(rest) {
        Err(e) => Err(e),
        Ok(mut tail) => {
            match converted {
                None => Ok(tail),
                Some(s) => {
                    let ghost t = tail@;
                    tail.insert(0, s);
                    proof {
                        assert(tail@ =~= seq![s] + t);
                    }
                    Ok(tail)
                },
            }
        },
    }
}

/// The first video stream of `streams`.
pub open spec fn first_video(streams: Seq<StreamType>) -> Option<VideoStream>
    decreases streams.len(),
{
    if streams.len() == 0 {
        None
    } else {
        match streams[0] {
            StreamType::Video(v) => Some(v),
            _ => first_video(streams.drop_first()),
        }
    }
}

/// The first audio stream of `streams`.
pub open spec fn first_audio(streams: Seq<StreamType>) -> Option<AudioStream>
    decreases streams.len(),
{
    if streams.len() == 0 {
        None
    } else {
        match streams[0] {
            StreamType::Audio(a) => Some(a),
            _ => first_audio(streams.drop_first()),
        }
    }
}

/// The streams the catalog keeps: the first video stream (the file must have one) and the
/// first audio stream, if any.
pub fn select_streams(streams: Vec<StreamType>) -> (r: Result<FFProbeStreams, StreamsError>)
    ensures
        match first_video(streams@) {
            None => r == Err::<FFProbeStreams, StreamsError>(StreamsError::NoVideoStream),
            Some(v) => r == Ok::<FFProbeStreams, StreamsError>(
                FFProbeStreams { video: v, audio: first_audio(streams@) },
            ),
        },
{
    let ghost all = streams@;
    let mut video_stream: Option<VideoStream> = None;
    let mut audio_stream: Option<AudioStream> = None;
    let mut rest = streams;
    let mut done: usize = 0;
    let n = rest.len();
    while rest.len() > 0
        invariant
            done + rest@.len() == all.len(),
            all.len() == n,
            rest@ == all.subrange(done as int, all.len() as int),
            first_video(all) == (match video_stream {
                Some(v) => Some(v),
                None => first_video(rest@),
            }),
            first_audio(all) == (match audio_stream {
                Some(a) => Some(a),
                None => first_audio(rest@),
            }),
        decreases rest@.len(),
    {
        let ghost before = rest@;
        let stream = rest.remove(0);
        proof {
            assert(rest@ =~= before.drop_first());
            assert(before[0] == stream);
        }
        match stream {
            StreamType::Video(s) => {
                if video_stream.is_none() {
                    video_stream = Some(s);
                }
            },
            StreamType::Audio(s) => {
                if audio_stream.is_none() {
                    audio_stream = Some(s);
                }
            },
        }
        done = done + 1;
    }
    match video_stream {
        None => Err(StreamsError::NoVideoStream),
        Some(video) => Ok(FFProbeStreams { video, audio: audio_stream }),
    }
}

} // verus!
