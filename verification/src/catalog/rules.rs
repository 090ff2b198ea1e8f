//! The rules that decide which derived files an asset needs: video packaging, image
//! conversion and thumbnails.
//!
//! The functions here decide on what the catalog already holds; reading it and recording
//! what they decide is left to the caller.
use vstd::prelude::*;

use crate::catalog::encoding_target::{av1, AudioEncodingTarget, CodecTarget, VideoEncodingTarget};
use crate::catalog::image_conversion_target::{heif, ImageFormatTarget};
use crate::catalog::operation::{ConvertImage, CreateAlbumThumbnail, CreateAssetThumbnail};
use crate::catalog::package_video::{package_views, PackageVideo, PackageVideoTask, PackageVideoView};
use crate::catalog::storage_key::{dash_file, dash_key, image_representation, image_representation_key};
use crate::model::{
    AlbumId, AssetFile, AssetThumbnail, FileId, IsOriginalStreamable, OriginalStreaming, Size,
    ThumbnailFormat, ThumbnailType, Video,
};
use crate::text::{contains_text, int_decimal, str_eq, texts_contain, write_i64};

verus! {

// ---------------------------------------------------------------------------------------------
// Acceptable codecs and formats
// ---------------------------------------------------------------------------------------------

/// Video codecs that every client can play.
pub open spec fn is_acceptable_video_codec(name: Seq<char>) -> bool {
    name == "h264"@ || name == "av1"@ || name == "vp9"@
}

/// Audio codecs that every client can play.
pub open spec fn is_acceptable_audio_codec(name: Seq<char>) -> bool {
    name == "aac"@ || name == "opus"@ || name == "flac"@ || name == "mp3"@
}

/// Image formats that every client can show.
pub open spec fn is_acceptable_image_format(name: Seq<char>) -> bool {
    name == "jpeg"@ || name == "avif"@ || name == "png"@ || name == "webp"@
}

/// Whether `name` is one of the acceptable video codecs.
pub fn acceptable_video_codec(name: &str) -> (b: bool)
    ensures
        b == is_acceptable_video_codec(name@),
{
    str_eq(name, "h264") || str_eq(name, "av1") || str_eq(name, "vp9")
}

/// Whether `name` is one of the acceptable audio codecs.
pub fn acceptable_audio_codec(name: &str) -> (b: bool)
    ensures
        b == is_acceptable_audio_codec(name@),
{
    str_eq(name, "aac") || str_eq(name, "opus") || str_eq(name, "flac") || str_eq(name, "mp3")
}

/// Whether `name` is one of the acceptable image formats.
pub fn acceptable_image_format(name: &str) -> (b: bool)
    ensures
        b == is_acceptable_image_format(name@),
{
    str_eq(name, "jpeg") || str_eq(name, "avif") || str_eq(name, "png") || str_eq(name, "webp")
}

/// The acceptable video codecs, as the catalog's configuration records them.
pub fn acceptable_video_codecs() -> (v: Vec<String>)
    ensures
        forall|name: Seq<char>| texts_contain(v@, name) == is_acceptable_video_codec(name),
{
    let v = vec!["h264".to_owned(), "av1".to_owned(), "vp9".to_owned()];
    proof {
        assert forall|name: Seq<char>| texts_contain(v@, name) == is_acceptable_video_codec(
            name,
        ) by {
            if is_acceptable_video_codec(name) {
                if name == "h264"@ {
                    assert(v@[0]@ == name);
                } else if name == "av1"@ {
                    assert(v@[1]@ == name);
                } else {
                    assert(v@[2]@ == name);
                }
            }
        }
    }
    v
}

/// The acceptable audio codecs, as the catalog's configuration records them.
pub fn acceptable_audio_codecs() -> (v: Vec<String>)
    ensures
        forall|name: Seq<char>| texts_contain(v@, name) == is_acceptable_audio_codec(name),
{
    let v = vec!["aac".to_owned(), "opus".to_owned(), "flac".to_owned(), "mp3".to_owned()];
    proof {
        assert forall|name: Seq<char>| texts_contain(v@, name) == is_acceptable_audio_codec(
            name,
        ) by {
            if is_acceptable_audio_codec(name) {
                if name == "aac"@ {
                    assert(v@[0]@ == name);
                } else if name == "opus"@ {
                    assert(v@[1]@ == name);
                } else if name == "flac"@ {
                    assert(v@[2]@ == name);
                } else {
                    assert(v@[3]@ == name);
                }
            }
        }
    }
    v
}

/// Whether one of `codecs` is an acceptable video codec.
pub open spec fn any_acceptable_video(codecs: Seq<String>) -> bool {
    exists|i: int| 0 <= i < codecs.len() && is_acceptable_video_codec((#[trigger] codecs[i])@)
}

/// Whether one of `codecs` is an acceptable audio codec.
pub open spec fn any_acceptable_audio(codecs: Seq<String>) -> bool {
    exists|i: int| 0 <= i < codecs.len() && is_acceptable_audio_codec((#[trigger] codecs[i])@)
}

/// Whether one of `formats` is an acceptable image format.
pub open spec fn any_acceptable_image(formats: Seq<String>) -> bool {
    exists|i: int| 0 <= i < formats.len() && is_acceptable_image_format((#[trigger] formats[i])@)
}

/// Whether one of `codecs` is an acceptable video codec.
pub fn has_acceptable_video_codec(codecs: &Vec<String>) -> (b: bool)
    ensures
        b == any_acceptable_video(codecs@),
{
    let mut i: usize = 0;
    while i < codecs.len()
        invariant
            i <= codecs@.len(),
            forall|k: int| 0 <= k < i ==> !is_acceptable_video_codec((#[trigger] codecs@[k])@),
        decreases codecs@.len() - i,
    {
        if acceptable_video_codec(codecs[i].as_str()) {
            return true;
        }
        i = i + 1;
    }
    false
}

/// Whether one of `codecs` is an acceptable audio codec.
pub fn has_acceptable_audio_codec(codecs: &Vec<String>) -> (b: bool)
    ensures
        b == any_acceptable_audio(codecs@),
{
    let mut i: usize = 0;
    while i < codecs.len()
        invariant
            i <= codecs@.len(),
            forall|k: int| 0 <= k < i ==> !is_acceptable_audio_codec((#[trigger] codecs@[k])@),
        decreases codecs@.len() - i,
    {
        if acceptable_audio_codec(codecs[i].as_str()) {
            return true;
        }
        i = i + 1;
    }
    false
}

/// Whether one of `formats` is an acceptable image format.
pub fn has_acceptable_image_format(formats: &Vec<String>) -> (b: bool)
    ensures
        b == any_acceptable_image(formats@),
{
    let mut i: usize = 0;
    while i < formats.len()
        invariant
            i <= formats@.len(),
            forall|k: int| 0 <= k < i ==> !is_acceptable_image_format((#[trigger] formats@[k])@),
        decreases formats@.len() - i,
    {
        if acceptable_image_format(formats[i].as_str()) {
            return true;
        }
        i = i + 1;
    }
    false
}

// ---------------------------------------------------------------------------------------------
// Streaming the original file
// ---------------------------------------------------------------------------------------------

/// Whether streaming of the original has already been decided for good.
pub open spec fn original_streaming_settled(video: Video) -> bool {
    video.original_streaming matches Some(os) && os.is_done
}

/// Whether the video stream of the original can be streamed as it is, where `acceptable_video`
/// tells the acceptable video codecs.
pub open spec fn original_video_ok(
    file: AssetFile,
    video: Video,
    acceptable_video: spec_fn(Seq<char>) -> bool,
) -> bool {
    file.file_type@ == "mp4"@ && acceptable_video(video.video_codec_name@)
}

/// Whether the audio stream (if any) of the original can be streamed as it is, where
/// `acceptable_audio` tells the acceptable audio codecs.
pub open spec fn original_audio_ok(
    file: AssetFile,
    video: Video,
    acceptable_audio: spec_fn(Seq<char>) -> bool,
) -> bool {
    file.file_type@ == "mp4"@ && match video.audio_codec_name {
        None => true,
        Some(c) => acceptable_audio(c@),
    }
}

/// The codecs that a configured list holds.
pub open spec fn listed(list: Seq<String>) -> spec_fn(Seq<char>) -> bool {
    |name: Seq<char>| texts_contain(list, name)
}

/// Whether the original can be streamed: one of its streams can, and its I-frame interval and
/// a positive frame rate are known.
pub open spec fn original_streaming_possible(
    file: AssetFile,
    video: Video,
    acceptable_video: spec_fn(Seq<char>) -> bool,
    acceptable_audio: spec_fn(Seq<char>) -> bool,
) -> bool {
    &&& original_video_ok(file, video, acceptable_video) || original_audio_ok(
        file,
        video,
        acceptable_audio,
    )
    &&& video.max_iframe_interval is Some
    &&& video.frame_rate matches Some(fr) && fr.0 > 0 && fr.1 > 0
}

/// Which streams of the original can be streamed.
pub open spec fn streamable_kind(video_ok: bool, audio_ok: bool) -> IsOriginalStreamable {
    if video_ok && audio_ok {
        IsOriginalStreamable::VideoAudio
    } else if video_ok {
        IsOriginalStreamable::VideoOnly
    } else if audio_ok {
        IsOriginalStreamable::AudioOnly
    } else {
        IsOriginalStreamable::NotStreamable
    }
}

/// DASH segment duration in seconds for a longest I-frame interval in milliseconds: the
/// interval in seconds, clamped to `1..=10` and rounded to the nearest second.
pub open spec fn segment_duration_spec(max_iframe_interval_ms: int) -> int {
    if max_iframe_interval_ms <= 1000 {
        1
    } else if max_iframe_interval_ms >= 10000 {
        10
    } else {
        (max_iframe_interval_ms + 500) / 1000
    }
}

/// DASH segment duration in seconds for a longest I-frame interval in milliseconds.
pub fn segment_duration(max_iframe_interval_ms: i32) -> (d: i32)
    ensures
        d == segment_duration_spec(max_iframe_interval_ms as int),
        1 <= d <= 10,
{
    if max_iframe_interval_ms <= 1000 {
        1
    } else if max_iframe_interval_ms >= 10000 {
        10
    } else {
        (max_iframe_interval_ms + 500) / 1000
    }
}

/// The task that makes the original streamable.
pub open spec fn original_streaming_task(video: Video, video_ok: bool, audio_ok: bool) -> PackageVideoTask {
    if video.ghi_disabled {
        PackageVideoTask::DashSegment
    } else {
        PackageVideoTask::CreateGHIIndex {
            include_video: video_ok,
            include_audio: video.audio_codec_name is Some && audio_ok,
            segment_duration: segment_duration_spec(video.max_iframe_interval->0 as int) as i32,
        }
    }
}

/// What is decided on streaming the original of a video file.
#[derive(Debug, Clone, PartialEq, Eq)]
pub struct OriginalStreamingDecision {
    /// Which streams of the original are (or will be) streamable.
    pub is_streamable: IsOriginalStreamable,
    /// The operation that makes the original streamable, where one is due.
    pub task: Option<PackageVideo>,
    /// The streaming state to record for the file before the operation runs, where one is to
    /// be recorded.
    pub record: Option<OriginalStreaming>,
}

/// The view of an optional packaging operation.
pub open spec fn opt_package_view(p: Option<PackageVideo>) -> Option<PackageVideoView> {
    match p {
        None => None,
        Some(p) => Some(p@),
    }
}

/// The decision on streaming the original, as streamable kind, operation and recorded state.
pub open spec fn original_streaming_decision_spec(
    file: AssetFile,
    video: Video,
    acceptable_video: spec_fn(Seq<char>) -> bool,
    acceptable_audio: spec_fn(Seq<char>) -> bool,
) -> (IsOriginalStreamable, Option<PackageVideoView>, Option<OriginalStreaming>) {
    if original_streaming_settled(video) {
        (video.original_streaming->0.is_streamable, None, None)
    } else if original_streaming_possible(file, video, acceptable_video, acceptable_audio) {
        let v = original_video_ok(file, video, acceptable_video);
        let a = original_audio_ok(file, video, acceptable_audio);
        let kind = streamable_kind(v, a);
        (
            kind,
            Some(
                PackageVideoView {
                    file_id: video.file_id,
                    repr_name: "original"@,
                    task: original_streaming_task(video, v, a),
                    output_key: dash_key(video.file_id, "original"@),
                },
            ),
            if video.ghi_disabled {
                None
            } else {
                Some(OriginalStreaming { is_streamable: kind, is_done: false })
            },
        )
    } else {
        (
            IsOriginalStreamable::NotStreamable,
            None,
            Some(
                OriginalStreaming {
                    is_streamable: IsOriginalStreamable::NotStreamable,
                    is_done: false,
                },
            ),
        )
    }
}

/// Decides whether the original of a video file can be streamed as it is, and which operation
/// makes it so. `acceptable_video` and `acceptable_audio` are the codecs that the catalog's
/// configuration accepts.
pub fn check_create_ghi_task(
    file: &AssetFile,
    video: &Video,
    acceptable_video: &Vec<String>,
    acceptable_audio: &Vec<String>,
) -> (d: OriginalStreamingDecision)
    ensures
        (d.is_streamable, opt_package_view(d.task), d.record) == original_streaming_decision_spec(
            *file,
            *video,
            listed(acceptable_video@),
            listed(acceptable_audio@),
        ),
{
    if let Some(os) = video.original_streaming {
        if os.is_done {
            return OriginalStreamingDecision { is_streamable: os.is_streamable, task: None, record: None };
        }
    }
    let orig_codec_ok = contains_text(acceptable_video, video.video_codec_name.as_str());
    let orig_audio_codec_ok = match &video.audio_codec_name {
        None => true,
        Some(codec) => contains_text(acceptable_audio, codec.as_str()),
    };
    let is_mp4 = str_eq(file.file_type.as_str(), "mp4");
    let orig_audio_streamable = is_mp4 && orig_audio_codec_ok;
    let orig_vid_streamable = is_mp4 && orig_codec_ok;
    let frame_rate_ok = match video.frame_rate {
        Some((num, denom)) => denom > 0 && num > 0,
        None => false,
    };
    if (orig_vid_streamable || orig_audio_streamable) && video.max_iframe_interval.is_some()
        && frame_rate_ok {
        let max_iframe_interval = video.max_iframe_interval.unwrap();
        let is_streamable = if orig_vid_streamable && orig_audio_streamable {
            IsOriginalStreamable::VideoAudio
        } else if orig_vid_streamable {
            IsOriginalStreamable::VideoOnly
        } else {
            IsOriginalStreamable::AudioOnly
        };
        let (task, record) = if video.ghi_disabled {
            (PackageVideoTask::DashSegment, None)
        } else {
            (
                PackageVideoTask::CreateGHIIndex {
                    include_video: orig_vid_streamable,
                    include_audio: video.audio_codec_name.is_some() && orig_audio_streamable,
                    segment_duration: segment_duration(max_iframe_interval),
                },
                Some(OriginalStreaming { is_streamable, is_done: false }),
            )
        };
        let file_id = video.file_id;
        OriginalStreamingDecision {
            is_streamable,
            task: Some(
                PackageVideo {
                    file_id,
                    repr_name: "original".to_owned(),
                    task,
                    output_key: dash_file(file_id, "original"),
                },
            ),
            record,
        }
    } else {
        OriginalStreamingDecision {
            is_streamable: IsOriginalStreamable::NotStreamable,
            task: None,
            record: Some(
                OriginalStreaming {
                    is_streamable: IsOriginalStreamable::NotStreamable,
                    is_done: false,
                },
            ),
        }
    }
}

/// The decision on streaming an original: a settled decision stands, with nothing to do or
/// record. Otherwise, when neither stream of the original can be streamed as it is (an mp4
/// with an acceptable video codec, or an mp4 whose audio, if any, has an acceptable codec), or
/// its I-frame interval or a positive frame rate is unknown, the original is not streamable
/// and that is recorded. Else the streamable kind names exactly the streams that can be
/// streamed, the original of that file is packaged (DASH segments when GHI streaming is
/// disabled, a GHI index otherwise, named "original"), and, for a GHI index, the kind is
/// recorded as not yet done.
pub proof fn lemma_streaming_decision(
    file: AssetFile,
    video: Video,
    acceptable_video: spec_fn(Seq<char>) -> bool,
    acceptable_audio: spec_fn(Seq<char>) -> bool,
)
    ensures
        ({
            let (kind, task, record) = original_streaming_decision_spec(
                file,
                video,
                acceptable_video,
                acceptable_audio,
            );
            let settled = video.original_streaming matches Some(os) && os.is_done;
            let v = file.file_type@ == "mp4"@ && acceptable_video(video.video_codec_name@);
            let a = file.file_type@ == "mp4"@ && match video.audio_codec_name {
                None => true,
                Some(c) => acceptable_audio(c@),
            };
            let possible = (v || a) && video.max_iframe_interval is Some && (
            video.frame_rate matches Some(fr) && fr.0 > 0 && fr.1 > 0);
            &&& settled ==> kind == video.original_streaming->0.is_streamable && task is None
                && record is None
            &&& !settled && !possible ==> kind == IsOriginalStreamable::NotStreamable && task is None
                && record == Some(
                OriginalStreaming { is_streamable: IsOriginalStreamable::NotStreamable, is_done: false },
            )
            &&& !settled && possible ==> {
                &&& (kind == IsOriginalStreamable::VideoAudio <==> v && a)
                &&& (kind == IsOriginalStreamable::VideoOnly <==> v && !a)
                &&& (kind == IsOriginalStreamable::AudioOnly <==> !v && a)
                &&& kind != IsOriginalStreamable::NotStreamable
                &&& task matches Some(p) && p.file_id == video.file_id && p.repr_name == "original"@
                    && (p.task is DashSegment <==> video.ghi_disabled) && (p.task is DashSegment
                    || p.task is CreateGHIIndex)
                &&& record == (if video.ghi_disabled {
                    None
                } else {
                    Some(OriginalStreaming { is_streamable: kind, is_done: false })
                })
            }
        }),
{
}

/// A GHI index of the original takes in exactly the streams that can be streamed as they are:
/// the video stream when the file is an mp4 and its video codec is acceptable, and an audio
/// stream only when the video has one, the file is an mp4 and that audio codec is acceptable.
/// Such an index is made only for a video whose GHI streaming is not disabled, of an
/// undecided original with a known I-frame interval, and its segments last 1 to 10 seconds.
pub proof fn lemma_ghi_index_streams(
    file: AssetFile,
    video: Video,
    acceptable_video: spec_fn(Seq<char>) -> bool,
    acceptable_audio: spec_fn(Seq<char>) -> bool,
)
    ensures
        match original_streaming_decision_spec(file, video, acceptable_video, acceptable_audio).1 {
            Some(p) => match p.task {
                PackageVideoTask::CreateGHIIndex { include_video, include_audio, segment_duration } => {
                    &&& include_video <==> (file.file_type@ == "mp4"@ && acceptable_video(
                        video.video_codec_name@,
                    ))
                    &&& include_audio <==> (video.audio_codec_name matches Some(c) && file.file_type@
                        == "mp4"@ && acceptable_audio(c@))
                    &&& include_audio ==> video.audio_codec_name is Some
                    &&& !video.ghi_disabled
                    &&& !(video.original_streaming matches Some(os) && os.is_done)
                    &&& video.max_iframe_interval is Some
                    &&& 1 <= segment_duration <= 10
                },
                _ => true,
            },
            None => true,
        },
{
}

// ---------------------------------------------------------------------------------------------
// Transcoding
// ---------------------------------------------------------------------------------------------

/// Keyframe interval (frames) of a transcode: the average frame rate rounded to the nearest
/// integer (halves away from zero) and clamped to `2..=240`, or 30 without a positive frame
/// rate.
pub open spec fn keyframe_interval_spec(frame_rate: Option<(i32, i32)>) -> int {
    match frame_rate {
        Some((num, denom)) if num > 0 && denom > 0 => {
            let rounded = (2 * num + denom) / (2 * denom);
            if rounded < 2 {
                2
            } else if rounded > 240 {
                240
            } else {
                rounded
            }
        },
        _ => 30,
    }
}

/// Keyframe interval (frames) of a transcode of a video with `frame_rate`.
pub fn keyframe_interval(frame_rate: Option<(i32, i32)>) -> (k: i32)
    ensures
        k == keyframe_interval_spec(frame_rate),
        2 <= k <= 240,
{
    match frame_rate {
        Some((num, denom)) => {
            if num > 0 && denom > 0 {
                let rounded: i64 = (2 * (num as i64) + (denom as i64)) / (2 * (denom as i64));
                if rounded < 2 {
                    2
                } else if rounded > 240 {
                    240
                } else {
                    rounded as i32
                }
            } else {
                30
            }
        },
        None => 30,
    }
}

/// Name of a representation of a size: width `x` height.
pub open spec fn size_repr_name_spec(size: Size) -> Seq<char> {
    int_decimal(size.width as int) + "x"@ + int_decimal(size.height as int)
}

/// Name of a representation of a size: width `x` height.
pub fn size_repr_name(size: Size) -> (s: String)
    ensures
        s@ == size_repr_name_spec(size),
{
    let mut s = String::new();
    write_i64(&mut s, size.width as i64);
    s.append("x");
    write_i64(&mut s, size.height as i64);
    proof {
        assert(s@ =~= size_repr_name_spec(size));
    }
    s
}

/// The AV1 encoding that videos are transcoded to.
pub open spec fn default_av1_target_spec(t: av1::AV1Target) -> bool {
    t.crf@ == 35 && t.fast_decode is None && t.preset is None && t.max_bitrate is None
}

fn default_av1_target() -> (t: av1::AV1Target)
    ensures
        default_av1_target_spec(t),
{
    av1::AV1Target { crf: av1::Crf::default(), fast_decode: None, preset: None, max_bitrate: None }
}

/// Whether `task` transcodes the video to the default AV1 encoding, unscaled, with keyframes
/// forced every `keyframes` frames where that is `Some`.
pub open spec fn is_default_video_transcode(task: PackageVideoTask, keyframes: Option<i32>) -> bool {
    task matches PackageVideoTask::TranscodeVideo(t) && t.codec matches CodecTarget::AV1(a)
        && default_av1_target_spec(a) && t.scale is None && t.force_keyframe_interval == keyframes
}

/// Whether `op` transcodes the video of `file_id` for an asset's packaging plan.
pub open spec fn is_asset_video_transcode(op: PackageVideoView, file_id: FileId, file: AssetFile, video: Video) -> bool {
    &&& op.file_id == file_id
    &&& op.repr_name == size_repr_name_spec(file.size)
    &&& op.output_key == dash_key(file_id, size_repr_name_spec(file.size))
    &&& is_default_video_transcode(op.task, Some(keyframe_interval_spec(video.frame_rate) as i32))
}

/// Whether `op` transcodes the audio of `file_id` for an asset's packaging plan.
pub open spec fn is_asset_audio_transcode(op: PackageVideoView, file_id: FileId) -> bool {
    &&& op.file_id == file_id
    &&& op.repr_name == "aac"@
    &&& op.output_key == dash_key(file_id, "audio_aac.mp4"@)
    &&& op.task == PackageVideoTask::TranscodeAudio(AudioEncodingTarget::AAC)
}

/// Whether the original's video stream is streamed.
pub open spec fn streams_video(k: IsOriginalStreamable) -> bool {
    k == IsOriginalStreamable::VideoOnly || k == IsOriginalStreamable::VideoAudio
}

/// Whether the original's audio stream is streamed.
pub open spec fn streams_audio(k: IsOriginalStreamable) -> bool {
    k == IsOriginalStreamable::AudioOnly || k == IsOriginalStreamable::VideoAudio
}

/// Whether `ops` are, in order: the operation that streams the original (where there is one),
/// a video transcode (where `want_video`) and an audio transcode (where `want_audio`).
pub open spec fn plan_ops_are(
    ops: Seq<PackageVideoView>,
    original: Option<PackageVideoView>,
    want_video: bool,
    want_audio: bool,
    file_id: FileId,
    file: AssetFile,
    video: Video,
) -> bool {
    let n0: int = if original is Some { 1 } else { 0 };
    let n1: int = n0 + if want_video { 1int } else { 0int };
    let n2: int = n1 + if want_audio { 1int } else { 0int };
    &&& ops.len() == n2
    &&& original matches Some(o) ==> ops[0] == o
    &&& want_video ==> is_asset_video_transcode(ops[n0], file_id, file, video)
    &&& want_audio ==> is_asset_audio_transcode(ops[n1], file_id)
}

/// The packaging that a video file needs, and the streaming state to record for it.
#[derive(Debug, Clone, PartialEq, Eq)]
pub struct VideoPackagingPlan {
    pub ops: Vec<PackageVideo>,
    pub record: Option<OriginalStreaming>,
}

/// Whether a video file has a video representation in an acceptable codec.
pub open spec fn video_repr_ok(video_repr_codecs: Seq<String>) -> bool {
    any_acceptable_video(video_repr_codecs)
}

/// Whether a video file has no audio, or an audio representation in an acceptable codec.
pub open spec fn audio_repr_ok(video: Video, audio_repr_codecs: Seq<String>) -> bool {
    video.audio_codec_name is None || any_acceptable_audio(audio_repr_codecs)
}

/// Decides the packaging that the video file `file_id` needs, given its file and video records
/// and the codecs of its existing video and audio representations.
///
/// Nothing is due when it has acceptable representations of both. Otherwise the original is
/// streamed where it can be; a stream that is neither streamable as it is nor has an acceptable
/// representation is transcoded (video to AV1, audio to AAC).
pub fn required_video_packaging_for_asset(
    file_id: FileId,
    file: &AssetFile,
    video: &Video,
    video_repr_codecs: &Vec<String>,
    audio_repr_codecs: &Vec<String>,
) -> (plan: VideoPackagingPlan)
    ensures
        video_repr_ok(video_repr_codecs@) && audio_repr_ok(*video, audio_repr_codecs@) ==> plan.ops@.len()
            == 0 && plan.record is None,
        !(video_repr_ok(video_repr_codecs@) && audio_repr_ok(*video, audio_repr_codecs@)) ==> ({
            let (kind, task, record) = original_streaming_decision_spec(
                *file,
                *video,
                |n: Seq<char>| is_acceptable_video_codec(n),
                |n: Seq<char>| is_acceptable_audio_codec(n),
            );
            &&& plan.record == record
            &&& plan_ops_are(
                package_views(plan.ops@),
                task,
                !streams_video(kind) && !video_repr_ok(video_repr_codecs@),
                !streams_audio(kind) && !audio_repr_ok(*video, audio_repr_codecs@),
                file_id,
                *file,
                *video,
            )
        }),
{
    let has_video = has_acceptable_video_codec(video_repr_codecs);
    let has_audio = video.audio_codec_name.is_none() || has_acceptable_audio_codec(audio_repr_codecs);
    if has_video && has_audio {
        return VideoPackagingPlan { ops: Vec::new(), record: None };
    }
    let acceptable_video = acceptable_video_codecs();
    let acceptable_audio = acceptable_audio_codecs();
    let decision = check_create_ghi_task(file, video, &acceptable_video, &acceptable_audio);
    proof {
        assert(listed(acceptable_video@) =~= |n: Seq<char>| is_acceptable_video_codec(n));
        assert(listed(acceptable_audio@) =~= |n: Seq<char>| is_acceptable_audio_codec(n));
    }
    let mut ops: Vec<PackageVideo> = Vec::new();
    if let Some(task) = decision.task {
        ops.push(task);
    }
    if !decision.is_streamable.includes_video() && !has_video {
        let repr_name = size_repr_name(file.size);
        let output_key = dash_file(file_id, repr_name.as_str());
        ops.push(
            PackageVideo {
                file_id,
                repr_name,
                task: PackageVideoTask::TranscodeVideo(
                    VideoEncodingTarget {
                        codec: CodecTarget::AV1(default_av1_target()),
                        scale: None,
                        force_keyframe_interval: Some(keyframe_interval(video.frame_rate)),
                    },
                ),
                output_key,
            },
        );
    }
    if !decision.is_streamable.includes_audio() && !has_audio {
        let repr_name = crate::catalog::encoding_target::audio_codec_name(&AudioEncodingTarget::AAC);
        proof {
            reveal_strlit("aac");
            assert(repr_name@ =~= "aac"@);
        }
        ops.push(
            PackageVideo {
                file_id,
                repr_name,
                task: PackageVideoTask::TranscodeAudio(AudioEncodingTarget::AAC),
                output_key: dash_file(file_id, "audio_aac.mp4"),
            },
        );
    }
    VideoPackagingPlan { ops, record: decision.record }
}

/// The views of the operations that stream the originals, in the order of `decisions`.
pub open spec fn decided_tasks(decisions: Seq<OriginalStreamingDecision>) -> Seq<PackageVideoView>
    decreases decisions.len(),
{
    if decisions.len() == 0 {
        Seq::empty()
    } else {
        let rest = decided_tasks(decisions.drop_last());
        match decisions.last().task {
            Some(t) => rest.push(t@),
            None => rest,
        }
    }
}

/// Whether `op` transcodes the video of `file` for the packaging due in the catalog.
pub open spec fn is_due_video_transcode(op: PackageVideoView, file: AssetFile) -> bool {
    &&& op.file_id == file.id
    &&& op.repr_name == size_repr_name_spec(file.size)
    &&& op.output_key == dash_key(file.id, size_repr_name_spec(file.size) + ".mp4"@)
    &&& is_default_video_transcode(op.task, None)
}

/// Whether `op` transcodes the audio of `file` for the packaging due in the catalog.
pub open spec fn is_due_audio_transcode(op: PackageVideoView, file: AssetFile) -> bool {
    &&& op.file_id == file.id
    &&& op.repr_name == "audio"@
    &&& op.output_key == dash_key(file.id, "audio.mp4"@)
    &&& op.task == PackageVideoTask::TranscodeAudio(AudioEncodingTarget::AAC)
}

/// The video transcode of a file that has no video representation in an acceptable codec.
pub fn due_video_transcode(file: &AssetFile) -> (op: PackageVideo)
    ensures
        is_due_video_transcode(op@, *file),
{
    let repr_name = size_repr_name(file.size);
    let mut key_name = size_repr_name(file.size);
    key_name.append(".mp4");
    let output_key = dash_file(file.id, key_name.as_str());
    PackageVideo {
        file_id: file.id,
        task: PackageVideoTask::TranscodeVideo(
            VideoEncodingTarget {
                codec: CodecTarget::AV1(default_av1_target()),
                scale: None,
                force_keyframe_interval: None,
            },
        ),
        repr_name,
        output_key,
    }
}

/// The audio transcode of a file that has no audio representation in an acceptable codec.
pub fn due_audio_transcode(file: &AssetFile) -> (op: PackageVideo)
    ensures
        is_due_audio_transcode(op@, *file),
{
    PackageVideo {
        file_id: file.id,
        task: PackageVideoTask::TranscodeAudio(AudioEncodingTarget::AAC),
        repr_name: "audio".to_owned(),
        output_key: dash_file(file.id, "audio.mp4"),
    }
}

/// The packaging due in the catalog, and the streaming states to record.
#[derive(Debug, Clone, PartialEq, Eq)]
pub struct DuePackaging {
    pub ops: Vec<PackageVideo>,
    /// `(file, state)` for each file whose streaming state is to be recorded.
    pub records: Vec<(FileId, OriginalStreaming)>,
}

/// The streaming states to record, in the order of `decisions` over `candidates`.
pub open spec fn decided_records(
    candidates: Seq<(AssetFile, Video)>,
    decisions: Seq<OriginalStreamingDecision>,
) -> Seq<(FileId, OriginalStreaming)>
    decreases decisions.len(),
{
    if decisions.len() == 0 || candidates.len() != decisions.len() {
        Seq::empty()
    } else {
        let rest = decided_records(candidates.drop_last(), decisions.drop_last());
        match decisions.last().record {
            Some(r) => rest.push((candidates.last().1.file_id, r)),
            None => rest,
        }
    }
}

/// Decides the packaging due in the catalog: the original streaming of `candidates` (files
/// whose streaming is not settled), then a video transcode of each of `no_good_video`, then an
/// audio transcode of each of `no_good_audio`. `acceptable_video` and `acceptable_audio` are
/// the codecs that the catalog's configuration accepts.
pub fn video_packaging_due(
    candidates: &Vec<(AssetFile, Video)>,
    acceptable_video: &Vec<String>,
    acceptable_audio: &Vec<String>,
    no_good_video: &Vec<AssetFile>,
    no_good_audio: &Vec<AssetFile>,
) -> (due: DuePackaging)
    ensures
        exists|decisions: Seq<OriginalStreamingDecision>|
            {
                &&& decisions.len() == candidates@.len()
                &&& forall|i: int|
                    0 <= i < decisions.len() ==> ((#[trigger] decisions[i]).is_streamable,
                    opt_package_view(decisions[i].task), decisions[i].record)
                        == original_streaming_decision_spec(
                        candidates@[i].0,
                        candidates@[i].1,
                        listed(acceptable_video@),
                        listed(acceptable_audio@),
                    )
                &&& due.records@ == decided_records(candidates@, decisions)
                &&& package_views(due.ops@).len() == decided_tasks(decisions).len()
                    + no_good_video@.len() + no_good_audio@.len()
                &&& package_views(due.ops@).subrange(0, decided_tasks(decisions).len() as int)
                    == decided_tasks(decisions)
            },
        forall|i: int|
            0 <= i < no_good_video@.len() ==> is_due_video_transcode(
                #[trigger] package_views(due.ops@)[due.ops@.len() - no_good_audio@.len()
                    - no_good_video@.len() + i],
                no_good_video@[i],
            ),
        forall|i: int|
            0 <= i < no_good_audio@.len() ==> is_due_audio_transcode(
                #[trigger] package_views(due.ops@)[due.ops@.len() - no_good_audio@.len() + i],
                no_good_audio@[i],
            ),
{
    let mut ops: Vec<PackageVideo> = Vec::new();
    let mut records: Vec<(FileId, OriginalStreaming)> = Vec::new();
    let ghost mut decisions: Seq<OriginalStreamingDecision> = Seq::empty();
    let mut i: usize = 0;
    while i < candidates.len()
        invariant
            i <= candidates@.len(),
            decisions.len() == i,
            forall|k: int|
                0 <= k < i ==> ((#[trigger] decisions[k]).is_streamable, opt_package_view(
                    decisions[k].task,
                ), decisions[k].record) == original_streaming_decision_spec(
                    candidates@[k].0,
                    candidates@[k].1,
                    listed(acceptable_video@),
                    listed(acceptable_audio@),
                ),
            records@ == decided_records(candidates@.subrange(0, i as int), decisions),
            package_views(ops@) == decided_tasks(decisions),
        decreases candidates@.len() - i,
    {
        let (file, video) = &candidates[i];
        let d = check_create_ghi_task(file, video, acceptable_video, acceptable_audio);
        let ghost old_decisions = decisions;
        let ghost old_ops = ops@;
        proof {
            decisions = decisions.push(d);
            assert(decisions.drop_last() =~= old_decisions);
            assert(candidates@.subrange(0, i + 1).drop_last() =~= candidates@.subrange(0, i as int));
            assert(candidates@.subrange(0, i + 1).last() == candidates@[i as int]);
        }
        if let Some(r) = d.record {
            records.push((video.file_id, r));
        }
        if let Some(t) = d.task {
            ops.push(t);
            proof {
                assert(package_views(ops@) =~= package_views(old_ops).push(t@));
            }
        }
        proof {
            assert(package_views(ops@) =~= decided_tasks(decisions));
        }
        i = i + 1;
    }
    let ghost n0 = ops@.len();
    let mut j: usize = 0;
    while j < no_good_video.len()
        invariant
            j <= no_good_video@.len(),
            ops@.len() == n0 + j,
            package_views(ops@).subrange(0, n0 as int) == decided_tasks(decisions),
            forall|k: int|
                0 <= k < j ==> is_due_video_transcode(
                    #[trigger] package_views(ops@)[n0 + k],
                    no_good_video@[k],
                ),
        decreases no_good_video@.len() - j,
    {
        let op = due_video_transcode(&no_good_video[j]);
        let ghost before = ops@;
        ops.push(op);
        proof {
            assert(package_views(ops@) =~= package_views(before).push(op@));
            assert(package_views(ops@).subrange(0, n0 as int) =~= package_views(before).subrange(0, n0 as int));
            assert forall|m: int| 0 <= m < j + 1 implies is_due_video_transcode(
                #[trigger] package_views(ops@)[n0 + m],
                no_good_video@[m],
            ) by {
                if m < j {
                    assert(package_views(ops@)[n0 + m] == package_views(before)[n0 + m]);
                }
            }
        }
        j = j + 1;
    }
    let ghost n1 = ops@.len();
    let mut k: usize = 0;
    while k < no_good_audio.len()
        invariant
            k <= no_good_audio@.len(),
            n1 == n0 + no_good_video@.len(),
            ops@.len() == n1 + k,
            package_views(ops@).subrange(0, n0 as int) == decided_tasks(decisions),
            forall|m: int|
                0 <= m < no_good_video@.len() ==> is_due_video_transcode(
                    #[trigger] package_views(ops@)[n0 + m],
                    no_good_video@[m],
                ),
            forall|m: int|
                0 <= m < k ==> is_due_audio_transcode(
                    #[trigger] package_views(ops@)[n1 + m],
                    no_good_audio@[m],
                ),
        decreases no_good_audio@.len() - k,
    {
        let op = due_audio_transcode(&no_good_audio[k]);
        let ghost before = ops@;
        ops.push(op);
        proof {
            assert(package_views(ops@) =~= package_views(before).push(op@));
            assert(package_views(ops@).subrange(0, n0 as int) =~= package_views(before).subrange(0, n0 as int));
            assert forall|m: int| 0 <= m < k + 1 implies is_due_audio_transcode(
                #[trigger] package_views(ops@)[n1 + m],
                no_good_audio@[m],
            ) by {
                if m < k {
                    assert(package_views(ops@)[n1 + m] == package_views(before)[n1 + m]);
                }
            }
            assert forall|m: int| 0 <= m < no_good_video@.len() implies is_due_video_transcode(
                #[trigger] package_views(ops@)[n0 + m],
                no_good_video@[m],
            ) by {
                assert(package_views(ops@)[n0 + m] == package_views(before)[n0 + m]);
            }
        }
        k = k + 1;
    }
    proof {
        assert(candidates@.subrange(0, candidates@.len() as int) =~= candidates@);
    }
    DuePackaging { ops, records }
}

// ---------------------------------------------------------------------------------------------
// Image conversion
// ---------------------------------------------------------------------------------------------

/// Whether `c` converts the image `file_id` to the default AVIF representation.
pub open spec fn is_default_avif_conversion(c: ConvertImage, file_id: FileId) -> bool {
    &&& c.file_id == file_id
    &&& c.format matches ImageFormatTarget::AVIF(t) && t.quality@ == 50 && !t.lossless
        && t.bit_depth == heif::BitDepth::Eight && t.compression == heif::Compression::AV1
        && t.effort@ == 7
    &&& c.output_file_key@ == image_representation_key(file_id, c.format, None)
}

/// Conversion of the image `file_id` to the default AVIF representation.
pub fn default_avif_conversion(file_id: FileId) -> (c: ConvertImage)
    ensures
        is_default_avif_conversion(c, file_id),
{
    let format = ImageFormatTarget::AVIF(heif::AvifTarget::default());
    let output_file_key = image_representation(file_id, &format, None);
    ConvertImage { file_id, format, output_file_key }
}

/// Decides the image conversion that the image `file_id` in the format `image_format_name`
/// needs, given the formats of its existing representations: none if its own format or one of
/// its representations' is acceptable, else a conversion to AVIF.
pub fn required_image_conversion_for_asset(
    file_id: FileId,
    image_format_name: &str,
    repr_format_names: &Vec<String>,
) -> (convs: Vec<ConvertImage>)
    ensures
        is_acceptable_image_format(image_format_name@) || any_acceptable_image(repr_format_names@)
            ==> convs@.len() == 0,
        !(is_acceptable_image_format(image_format_name@) || any_acceptable_image(
            repr_format_names@,
        )) ==> convs@.len() == 1 && is_default_avif_conversion(convs@[0], file_id),
{
    if acceptable_image_format(image_format_name) {
        return Vec::new();
    }
    if !has_acceptable_image_format(repr_format_names) {
        vec![default_avif_conversion(file_id)]
    } else {
        Vec::new()
    }
}

/// The image conversions due for images that have no representation in an acceptable format:
/// one conversion to AVIF each, in order.
pub fn image_conversion_due(files_without_good_repr: &Vec<FileId>) -> (convs: Vec<ConvertImage>)
    ensures
        convs@.len() == files_without_good_repr@.len(),
        forall|i: int|
            0 <= i < convs@.len() ==> is_default_avif_conversion(
                #[trigger] convs@[i],
                files_without_good_repr@[i],
            ),
{
    let mut convs: Vec<ConvertImage> = Vec::new();
    let mut i: usize = 0;
    while i < files_without_good_repr.len()
        invariant
            i <= files_without_good_repr@.len(),
            convs@.len() == i,
            forall|k: int|
                0 <= k < i ==> is_default_avif_conversion(
                    #[trigger] convs@[k],
                    files_without_good_repr@[k],
                ),
        decreases files_without_good_repr@.len() - i,
    {
        convs.push(default_avif_conversion(files_without_good_repr[i]));
        i = i + 1;
    }
    convs
}

// ---------------------------------------------------------------------------------------------
// Thumbnails
// ---------------------------------------------------------------------------------------------

/// Whether a thumbnail of kind `ty` in `format` is among `have`.
pub open spec fn has_thumbnail(have: Seq<AssetThumbnail>, ty: ThumbnailType, format: ThumbnailFormat) -> bool {
    exists|i: int| 0 <= i < have.len() && (#[trigger] have[i]).ty == ty && have[i].format == format
}

/// Whether the thumbnails of kind `ty` exist in every wanted format (WebP and AVIF).
pub open spec fn thumbnails_complete(have: Seq<AssetThumbnail>, ty: ThumbnailType) -> bool {
    has_thumbnail(have, ty, ThumbnailFormat::Webp) && has_thumbnail(have, ty, ThumbnailFormat::Avif)
}

/// The thumbnail kinds to create: each kind that is not complete, large before small.
pub open spec fn missing_thumbnail_types(have: Seq<AssetThumbnail>) -> Seq<ThumbnailType> {
    (if thumbnails_complete(have, ThumbnailType::LargeOrigAspect) {
        Seq::empty()
    } else {
        seq![ThumbnailType::LargeOrigAspect]
    }) + (if thumbnails_complete(have, ThumbnailType::SmallSquare) {
        Seq::empty()
    } else {
        seq![ThumbnailType::SmallSquare]
    })
}

/// The formats to create thumbnails in: every wanted format where some kind is to be created.
pub open spec fn missing_thumbnail_formats(have: Seq<AssetThumbnail>) -> Seq<ThumbnailFormat> {
    if missing_thumbnail_types(have).len() == 0 {
        Seq::empty()
    } else {
        seq![ThumbnailFormat::Webp, ThumbnailFormat::Avif]
    }
}

/// A thumbnail kind is to be created exactly when the file lacks it in WebP or in AVIF; the
/// kinds come without repeats, and thumbnails are created in both WebP and AVIF when any kind
/// is, in no format otherwise.
pub proof fn lemma_missing_thumbnails(have: Seq<AssetThumbnail>, ty: ThumbnailType)
    ensures
        missing_thumbnail_types(have).contains(ty) <==> !((exists|i: int|
            0 <= i < have.len() && have[i].ty == ty && have[i].format == ThumbnailFormat::Webp)
            && (exists|j: int|
            0 <= j < have.len() && have[j].ty == ty && have[j].format == ThumbnailFormat::Avif)),
        missing_thumbnail_types(have).no_duplicates(),
        missing_thumbnail_types(have).len() == 0 ==> missing_thumbnail_formats(have).len() == 0,
        missing_thumbnail_types(have).len() > 0 ==> missing_thumbnail_formats(have).contains(
            ThumbnailFormat::Webp,
        ) && missing_thumbnail_formats(have).contains(ThumbnailFormat::Avif),
{
    let lg = ThumbnailType::LargeOrigAspect;
    let sm = ThumbnailType::SmallSquare;
    let a: Seq<ThumbnailType> = if thumbnails_complete(have, lg) { Seq::empty() } else { seq![lg] };
    let b: Seq<ThumbnailType> = if thumbnails_complete(have, sm) { Seq::empty() } else { seq![sm] };
    let m = missing_thumbnail_types(have);
    assert(m == a + b);
    let complete = thumbnails_complete(have, ty);
    assert(complete == ((exists|i: int|
        0 <= i < have.len() && have[i].ty == ty && have[i].format == ThumbnailFormat::Webp) && (exists|j: int|
        0 <= j < have.len() && have[j].ty == ty && have[j].format == ThumbnailFormat::Avif))) by {
        if exists|i: int| 0 <= i < have.len() && have[i].ty == ty && have[i].format == ThumbnailFormat::Webp {
            let i = choose|i: int| 0 <= i < have.len() && have[i].ty == ty && have[i].format == ThumbnailFormat::Webp;
            assert(have[i].ty == ty);
        }
        if exists|j: int| 0 <= j < have.len() && have[j].ty == ty && have[j].format == ThumbnailFormat::Avif {
            let j = choose|j: int| 0 <= j < have.len() && have[j].ty == ty && have[j].format == ThumbnailFormat::Avif;
            assert(have[j].ty == ty);
        }
    }
    if m.contains(ty) {
        let k = choose|k: int| 0 <= k < m.len() && m[k] == ty;
        if k < a.len() {
            assert(m[k] == a[k]);
        } else {
            assert(m[k] == b[k - a.len()]);
        }
    }
    if !complete {
        match ty {
            ThumbnailType::LargeOrigAspect => {
                assert(m[0] == lg);
            },
            ThumbnailType::SmallSquare => {
                assert(m[a.len() as int] == sm);
            },
        }
    }
    assert(m.no_duplicates()) by {
        assert forall|x: int, y: int| 0 <= x < m.len() && 0 <= y < m.len() && x != y implies m[x] != m[y] by {
            if x < a.len() {
                assert(m[x] == lg);
            } else {
                assert(m[x] == sm);
            }
            if y < a.len() {
                assert(m[y] == lg);
            } else {
                assert(m[y] == sm);
            }
        }
    }
    if m.len() > 0 {
        assert(missing_thumbnail_formats(have)[0] == ThumbnailFormat::Webp);
        assert(missing_thumbnail_formats(have)[1] == ThumbnailFormat::Avif);
    }
}

/// The thumbnails to create for a file that has `have_thumbnails`: the formats, and the kinds
/// to create in each of them. A kind is created again in every format when one is missing.
pub fn missing_asset_thumbnails(have_thumbnails: &[AssetThumbnail]) -> (r: (
    Vec<ThumbnailFormat>,
    Vec<ThumbnailType>,
))
    ensures
        r.0@ == missing_thumbnail_formats(have_thumbnails@),
        r.1@ == missing_thumbnail_types(have_thumbnails@),
{
    let ghost have = have_thumbnails@;
    let mut lg_webp = false;
    let mut lg_avif = false;
    let mut sm_webp = false;
    let mut sm_avif = false;
    let mut i: usize = 0;
    while i < have_thumbnails.len()
        invariant
            have == have_thumbnails@,
            i <= have.len(),
            lg_webp == has_thumbnail(have.subrange(0, i as int), ThumbnailType::LargeOrigAspect, ThumbnailFormat::Webp),
            lg_avif == has_thumbnail(have.subrange(0, i as int), ThumbnailType::LargeOrigAspect, ThumbnailFormat::Avif),
            sm_webp == has_thumbnail(have.subrange(0, i as int), ThumbnailType::SmallSquare, ThumbnailFormat::Webp),
            sm_avif == has_thumbnail(have.subrange(0, i as int), ThumbnailType::SmallSquare, ThumbnailFormat::Avif),
        decreases have.len() - i,
    {
        let t = have_thumbnails[i];
        let ghost prev = have.subrange(0, i as int);
        let ghost next = have.subrange(0, i + 1);
        match (t.ty, t.format) {
            (ThumbnailType::LargeOrigAspect, ThumbnailFormat::Webp) => { lg_webp = true; },
            (ThumbnailType::LargeOrigAspect, ThumbnailFormat::Avif) => { lg_avif = true; },
            (ThumbnailType::SmallSquare, ThumbnailFormat::Webp) => { sm_webp = true; },
            (ThumbnailType::SmallSquare, ThumbnailFormat::Avif) => { sm_avif = true; },
        }
        proof {
            assert(next[i as int] == t);
            assert forall|ty: ThumbnailType, f: ThumbnailFormat| has_thumbnail(next, ty, f)
                == (has_thumbnail(prev, ty, f) || (t.ty == ty && t.format == f)) by {
                if has_thumbnail(prev, ty, f) {
                    let w = choose|w: int| 0 <= w < prev.len() && (#[trigger] prev[w]).ty == ty && prev[w].format == f;
                    assert(next[w] == prev[w]);
                }
                if has_thumbnail(next, ty, f) && !(t.ty == ty && t.format == f) {
                    let w = choose|w: int| 0 <= w < next.len() && (#[trigger] next[w]).ty == ty && next[w].format == f;
                    assert(w < i);
                    assert(prev[w] == next[w]);
                }
            }
        }
        i = i + 1;
    }
    proof {
        assert(have.subrange(0, have.len() as int) =~= have);
    }
    let mut create_types: Vec<ThumbnailType> = Vec::new();
    let lg_complete = lg_webp && lg_avif;
    let sm_complete = sm_webp && sm_avif;
    if !lg_complete {
        create_types.push(ThumbnailType::LargeOrigAspect);
    }
    if !sm_complete {
        create_types.push(ThumbnailType::SmallSquare);
    }
    let create_formats = if lg_complete && sm_complete {
        Vec::new()
    } else {
        vec![ThumbnailFormat::Webp, ThumbnailFormat::Avif]
    };
    proof {
        assert(create_types@ =~= missing_thumbnail_types(have));
        assert(create_formats@ =~= missing_thumbnail_formats(have));
    }
    (create_formats, create_types)
}

/// The thumbnails to create for each file of `assets` (a file with the thumbnails it has), in
/// order.
pub fn thumbnails_to_create(assets: &Vec<(FileId, Vec<AssetThumbnail>)>) -> (jobs: Vec<CreateAssetThumbnail>)
    ensures
        jobs@.len() == assets@.len(),
        forall|i: int|
            0 <= i < jobs@.len() ==> (#[trigger] jobs@[i]).file_id == assets@[i].0
                && jobs@[i].formats@ == missing_thumbnail_formats(assets@[i].1@)
                && jobs@[i].thumbnail_types@ == missing_thumbnail_types(assets@[i].1@),
{
    let mut jobs: Vec<CreateAssetThumbnail> = Vec::new();
    let mut i: usize = 0;
    while i < assets.len()
        invariant
            i <= assets@.len(),
            jobs@.len() == i,
            forall|k: int|
                0 <= k < i ==> (#[trigger] jobs@[k]).file_id == assets@[k].0
                    && jobs@[k].formats@ == missing_thumbnail_formats(assets@[k].1@)
                    && jobs@[k].thumbnail_types@ == missing_thumbnail_types(assets@[k].1@),
        decreases assets@.len() - i,
    {
        let (file_id, have) = &assets[i];
        let (formats, thumbnail_types) = missing_asset_thumbnails(have.as_slice());
        jobs.push(CreateAssetThumbnail { file_id: *file_id, formats, thumbnail_types });
        i = i + 1;
    }
    jobs
}

/// Width in pixels of album thumbnails.
pub const ALBUM_THUMBNAIL_SIZE: i32 = 400;

/// The album thumbnails to create, one for each `(album, file)` of `albums`, from that file.
pub fn album_thumbnails_to_create(albums: &Vec<(AlbumId, FileId)>) -> (jobs: Vec<CreateAlbumThumbnail>)
    ensures
        jobs@.len() == albums@.len(),
        forall|i: int|
            0 <= i < jobs@.len() ==> #[trigger] jobs@[i] == (CreateAlbumThumbnail {
                album_id: albums@[i].0,
                file_id: albums@[i].1,
                size: ALBUM_THUMBNAIL_SIZE,
            }),
{
    let mut jobs: Vec<CreateAlbumThumbnail> = Vec::new();
    let mut i: usize = 0;
    while i < albums.len()
        invariant
            i <= albums@.len(),
            jobs@.len() == i,
            forall|k: int|
                0 <= k < i ==> #[trigger] jobs@[k] == (CreateAlbumThumbnail {
                    album_id: albums@[k].0,
                    file_id: albums@[k].1,
                    size: ALBUM_THUMBNAIL_SIZE,
                }),
        decreases albums@.len() - i,
    {
        let (album_id, file_id) = albums[i];
        jobs.push(CreateAlbumThumbnail { album_id, file_id, size: ALBUM_THUMBNAIL_SIZE });
        i = i + 1;
    }
    jobs
}

} // verus!
