//! Decisions of indexing a file: which kind of asset it is, the display size of a video, and
//! the steps from a file's path to the asset to create.
//!
//! The driver performs each step's work (catalog queries, exiftool, ffprobe, decoding, hashing)
//! and hands back what it found.
use vstd::prelude::*;

use crate::model::Size;
use crate::processing::ffprobe::FFProbeStreams;
use crate::text::{ascii_lower_seq, eq_ignore_ascii_case, has_prefix, starts_with, to_ascii_lowercase};

verus! {

/// Which kind of asset a file is indexed as.
#[derive(Debug, Clone, Copy, PartialEq, Eq, Structural)]
pub enum MediaKind {
    Video,
    Image,
    /// The file is not indexed.
    Ignored,
}

/// The kind of asset of a file with MIME type `mime`: video types are videos; image types are
/// images, but for FlashPix (`image/vnd.fpx`, in any case); everything else is ignored.
pub open spec fn media_kind_spec(mime: Option<Seq<char>>) -> MediaKind {
    match mime {
        Some(m) if has_prefix(m, "video"@) => MediaKind::Video,
        Some(m) if has_prefix(m, "image"@) && ascii_lower_seq(m) != ascii_lower_seq(
            "image/vnd.fpx"@,
        ) => MediaKind::Image,
        _ => MediaKind::Ignored,
    }
}

/// The kind of asset of a file with MIME type `mime`.
pub fn media_kind(mime: Option<&str>) -> (k: MediaKind)
    ensures
        k == media_kind_spec(
            match mime {
                None => None,
                Some(m) => Some(m@),
            },
        ),
{
    match mime {
        Some(m) => {
            if starts_with(m, "video") {
                MediaKind::Video
            } else if starts_with(m, "image") && !eq_ignore_ascii_case(m, "image/vnd.fpx") {
                MediaKind::Image
            } else {
                MediaKind::Ignored
            }
        },
        None => MediaKind::Ignored,
    }
}

/// Whether a video rotated by `rotation` degrees shows its height as width: a rotation by an
/// odd multiple of 90 degrees.
pub open spec fn swaps_sides(rotation: Option<i32>) -> bool {
    match rotation {
        Some(n) => n % 180 != 0 && n % 90 == 0,
        None => false,
    }
}

/// The size a video of `width` x `height` pixels is shown at when rotated by `rotation`.
pub fn video_display_size(width: i32, height: i32, rotation: Option<i32>) -> (s: Size)
    ensures
        swaps_sides(rotation) ==> s == (Size { width: height, height: width }),
        !swaps_sides(rotation) ==> s == (Size { width, height }),
{
    let swap = match rotation {
        Some(n) => n % 180 != 0 && n % 90 == 0,
        None => false,
    };
    if swap {
        Size { height: width, width: height }
    } else {
        Size { width, height }
    }
}

/// The file type recorded for a file: the metadata's file type in ASCII lower case; a file
/// without one is not indexed (`None`).
pub fn indexed_file_type(metadata_file_type: Option<&str>) -> (t: Option<String>)
    ensures
        match metadata_file_type {
            None => t is None,
            Some(ft) => t matches Some(s) && s@ == ascii_lower_seq(ft@),
        },
{
    match metadata_file_type {
        None => None,
        Some(ft) => Some(to_ascii_lowercase(ft)),
    }
}

/// What is recorded of a new video asset.
#[derive(Debug, Clone, PartialEq, Eq)]
pub struct CreateAssetVideo {
    pub video_codec_name: String,
    pub video_bitrate: Option<i64>,
    pub video_duration_ms: Option<i64>,
    pub audio_codec_name: Option<String>,
    /// ffprobe's stream report, as it printed it.
    pub ffprobe_output: Vec<u8>,
    pub max_iframe_interval: Option<i32>,
    pub frame_rate: Option<(i32, i32)>,
}

/// Whether `v` and `size` are the record and display size of a video asset with the streams
/// `streams` that ffprobe reported as `ffprobe_output`, and the longest I-frame interval
/// `max_iframe_interval` (see [`create_asset_video`]).
pub open spec fn asset_video_of(
    streams: FFProbeStreams,
    ffprobe_output: Vec<u8>,
    max_iframe_interval: Option<i32>,
    v: CreateAssetVideo,
    size: Size,
) -> bool {
    &&& v.video_codec_name@ == ascii_lower_seq(streams.video.codec_name@)
    &&& v.video_bitrate == streams.video.bitrate
    &&& v.video_duration_ms == streams.video.duration_ms
    &&& match streams.audio {
        None => v.audio_codec_name is None,
        Some(a) => v.audio_codec_name matches Some(n) && n@ == ascii_lower_seq(a.codec_name@),
    }
    &&& v.ffprobe_output == ffprobe_output
    &&& v.max_iframe_interval == max_iframe_interval
    &&& v.frame_rate == streams.video.avg_frame_rate
    &&& swaps_sides(streams.video.rotation) ==> size == (Size {
        width: streams.video.height,
        height: streams.video.width,
    })
    &&& !swaps_sides(streams.video.rotation) ==> size == (Size {
        width: streams.video.width,
        height: streams.video.height,
    })
}

/// The record of a new video asset and its display size, from the streams ffprobe reported
/// (`ffprobe_output`) and the longest I-frame interval in milliseconds, if known: codec names
/// in ASCII lower case, and width and height swapped for a video rotated by an odd multiple
/// of 90 degrees.
pub fn create_asset_video(streams: FFProbeStreams, ffprobe_output: Vec<u8>, max_iframe_interval: Option<i32>) -> (r: (CreateAssetVideo, Size))
    ensures
        asset_video_of(streams, ffprobe_output, max_iframe_interval, r.0, r.1),
{
    let video = streams.video;
    let audio_codec_name = match &streams.audio {
        None => None,
        Some(a) => Some(to_ascii_lowercase(a.codec_name.as_str())),
    };
    let size = video_display_size(video.width, video.height, video.rotation);
    (
        CreateAssetVideo {
            video_codec_name: to_ascii_lowercase(video.codec_name.as_str()),
            video_bitrate: video.bitrate,
            video_duration_ms: video.duration_ms,
            audio_codec_name,
            ffprobe_output,
            max_iframe_interval,
            frame_rate: video.avg_frame_rate,
        },
        size,
    )
}

/// What is recorded of a new asset of either kind.
#[derive(Debug, Clone, PartialEq, Eq)]
pub enum AssetKindDraft {
    Video(CreateAssetVideo),
    Image { image_format_name: String },
}

/// What indexing decided about a new asset: its file type (in lower case), its kind's record,
/// and its size. The driver adds what it measured itself (dates, place, hash).
#[derive(Debug, Clone, PartialEq, Eq)]
pub struct AssetDraft {
    pub file_type: String,
    pub kind: AssetKindDraft,
    pub size: Size,
}

/// Where indexing a file stands.
#[derive(Debug, Clone, PartialEq, Eq)]
pub enum IndexStage {
    /// Waiting to learn whether the catalog knows the file's path (as an asset or a duplicate).
    CheckingPath,
    /// Waiting for the file's metadata.
    ReadingMetadata,
    /// Waiting for ffprobe's report on a video of this file type.
    Probing { file_type: String },
    /// Waiting for the longest I-frame interval of an mp4 video.
    MeasuringKeyframes { file_type: String, streams: FFProbeStreams, ffprobe_output: Vec<u8> },
    /// Waiting for the size of an image of this file type.
    MeasuringImage { file_type: String },
    /// Waiting for the file's hash.
    Hashing { draft: AssetDraft },
    /// Waiting to learn whether an asset with the file's hash exists (then the file was
    /// recorded as its duplicate).
    CheckingDuplicate { draft: AssetDraft },
    /// Nothing more to do.
    Done,
}

/// What the driver found in a step.
#[derive(Debug, Clone, PartialEq, Eq)]
pub enum IndexEvent {
    /// Whether the catalog knows the file's path.
    PathKnown(bool),
    /// The file type and MIME type that the metadata gives, if any.
    Metadata { file_type: Option<String>, mime: Option<String> },
    /// ffprobe's streams and its report, or `None` when ffprobe could not read the file.
    Probed(Option<(FFProbeStreams, Vec<u8>)>),
    /// The longest I-frame interval in milliseconds, if the video has one.
    KeyframeInterval(Option<i32>),
    /// The image's size, or `None` when it could not be decoded.
    ImageSize(Option<Size>),
    /// The file was hashed.
    Hashed,
    /// Whether an asset with the file's hash exists.
    Duplicate(bool),
}

/// What the driver does next.
#[derive(Debug, Clone, PartialEq, Eq)]
pub enum IndexAction {
    ReadMetadata,
    ProbeVideo,
    MeasureKeyframeInterval,
    MeasureImageSize,
    HashFile,
    CheckDuplicate,
    /// Create this asset; indexing is done.
    Create(AssetDraft),
    /// The file is not indexed; indexing is done.
    NotIndexed,
}

/// Whether `e` is the event that the stage `s` waits for.
pub open spec fn event_fits(s: IndexStage, e: IndexEvent) -> bool {
    match (s, e) {
        (IndexStage::CheckingPath, IndexEvent::PathKnown(_)) => true,
        (IndexStage::ReadingMetadata, IndexEvent::Metadata { .. }) => true,
        (IndexStage::Probing { .. }, IndexEvent::Probed(_)) => true,
        (IndexStage::MeasuringKeyframes { .. }, IndexEvent::KeyframeInterval(_)) => true,
        (IndexStage::MeasuringImage { .. }, IndexEvent::ImageSize(_)) => true,
        (IndexStage::Hashing { .. }, IndexEvent::Hashed) => true,
        (IndexStage::CheckingDuplicate { .. }, IndexEvent::Duplicate(_)) => true,
        _ => false,
    }
}

/// Whether `d` is the draft of a video of file type `file_type` with the streams `streams`
/// reported as `out` and the longest I-frame interval `mi`.
pub open spec fn video_draft(d: AssetDraft, file_type: String, streams: FFProbeStreams, out: Vec<u8>, mi: Option<i32>) -> bool {
    d.file_type == file_type && (d.kind matches AssetKindDraft::Video(v) && asset_video_of(
        streams,
        out,
        mi,
        v,
        d.size,
    ))
}

fn video_draft_of(file_type: String, streams: FFProbeStreams, out: Vec<u8>, mi: Option<i32>) -> (d: AssetDraft)
    ensures
        video_draft(d, file_type, streams, out, mi),
{
    let (v, size) = create_asset_video(streams, out, mi);
    AssetDraft { file_type, kind: AssetKindDraft::Video(v), size }
}

impl IndexStage {
    /// The next stage and what the driver does, for the event `event` that this stage waits
    /// for:
    /// - a known path is not indexed again; otherwise the metadata is read;
    /// - a file without a file type, or whose MIME type is neither a video nor an image type
    ///   (see [`media_kind_spec`]), is not indexed; a video is probed, an image measured;
    /// - a video ffprobe cannot read is not indexed; an mp4 video (by file type) has its
    ///   I-frame interval measured; other videos are hashed (with no interval);
    /// - an image that cannot be decoded is not indexed; others are hashed, their format being
    ///   their file type;
    /// - a hashed file is checked for a duplicate; a duplicate is not indexed, anything else
    ///   is created.
    pub fn on_event(self, event: IndexEvent) -> (r: (IndexStage, IndexAction))
        requires
            event_fits(self, event),
        ensures
            r.1 is Create || r.1 is NotIndexed <==> r.0 is Done,
            match (self, event) {
                (IndexStage::CheckingPath, IndexEvent::PathKnown(known)) => if known {
                    r.1 == IndexAction::NotIndexed
                } else {
                    r == (IndexStage::ReadingMetadata, IndexAction::ReadMetadata)
                },
                (IndexStage::ReadingMetadata, IndexEvent::Metadata { file_type, mime }) => {
                    let kind = media_kind_spec(
                        match mime {
                            None => None,
                            Some(m) => Some(m@),
                        },
                    );
                    match file_type {
                        None => r.1 == IndexAction::NotIndexed,
                        Some(t) => match kind {
                            MediaKind::Ignored => r.1 == IndexAction::NotIndexed,
                            MediaKind::Video => r.1 == IndexAction::ProbeVideo && (r.0 matches IndexStage::Probing {
                                file_type: ft,
                            } && ft@ == ascii_lower_seq(t@)),
                            MediaKind::Image => r.1 == IndexAction::MeasureImageSize && (r.0 matches IndexStage::MeasuringImage {
                                file_type: ft,
                            } && ft@ == ascii_lower_seq(t@)),
                        },
                    }
                },
                (IndexStage::Probing { file_type }, IndexEvent::Probed(probed)) => match probed {
                    None => r.1 == IndexAction::NotIndexed,
                    Some((streams, out)) => if file_type@ == "mp4"@ {
                        r == (IndexStage::MeasuringKeyframes { file_type, streams, ffprobe_output: out }, IndexAction::MeasureKeyframeInterval)
                    } else {
                        r.1 == IndexAction::HashFile && (r.0 matches IndexStage::Hashing { draft } && video_draft(
                            draft,
                            file_type,
                            streams,
                            out,
                            None,
                        ))
                    },
                },
                (IndexStage::MeasuringKeyframes { file_type, streams, ffprobe_output }, IndexEvent::KeyframeInterval(mi)) => {
                    r.1 == IndexAction::HashFile && (r.0 matches IndexStage::Hashing { draft } && video_draft(
                        draft,
                        file_type,
                        streams,
                        ffprobe_output,
                        mi,
                    ))
                },
                (IndexStage::MeasuringImage { file_type }, IndexEvent::ImageSize(size)) => match size {
                    None => r.1 == IndexAction::NotIndexed,
                    Some(sz) => r.1 == IndexAction::HashFile && (r.0 matches IndexStage::Hashing { draft } && draft.file_type
                        == file_type && draft.size == sz && (draft.kind matches AssetKindDraft::Image {
                        image_format_name,
                    } && image_format_name == file_type)),
                },
                (IndexStage::Hashing { draft }, IndexEvent::Hashed) => r == (
                    IndexStage::CheckingDuplicate { draft },
                    IndexAction::CheckDuplicate,
                ),
                (IndexStage::CheckingDuplicate { draft }, IndexEvent::Duplicate(dup)) => if dup {
                    r.1 == IndexAction::NotIndexed
                } else {
                    r.1 == IndexAction::Create(draft)
                },
                _ => false,
            },
    {
        match (self, event) {
            (IndexStage::CheckingPath, IndexEvent::PathKnown(known)) => {
                if known {
                    (IndexStage::Done, IndexAction::NotIndexed)
                } else {
                    (IndexStage::ReadingMetadata, IndexAction::ReadMetadata)
                }
            },
            (IndexStage::ReadingMetadata, IndexEvent::Metadata { file_type, mime }) => {
                let file_type = match indexed_file_type(
                    match &file_type {
                        Some(t) => Some(t.as_str()),
                        None => None,
                    },
                ) {
                    Some(t) => t,
                    None => {
                        return (IndexStage::Done, IndexAction::NotIndexed);
                    },
                };
                let kind = media_kind(
                    match &mime {
                        Some(m) => Some(m.as_str()),
                        None => None,
                    },
                );
                match kind {
                    MediaKind::Video => (IndexStage::Probing { file_type }, IndexAction::ProbeVideo),
                    MediaKind::Image => (IndexStage::MeasuringImage { file_type }, IndexAction::MeasureImageSize),
                    MediaKind::Ignored => (IndexStage::Done, IndexAction::NotIndexed),
                }
            },
            (IndexStage::Probing { file_type }, IndexEvent::Probed(probed)) => match probed {
                None => (IndexStage::Done, IndexAction::NotIndexed),
                Some((streams, out)) => {
                    if crate::text::str_eq(file_type.as_str(), "mp4") {
                        (
                            IndexStage::MeasuringKeyframes { file_type, streams, ffprobe_output: out },
                            IndexAction::MeasureKeyframeInterval,
                        )
                    } else {
                        let draft = video_draft_of(file_type, streams, out, None);
                        (IndexStage::Hashing { draft }, IndexAction::HashFile)
                    }
                },
            },
            (IndexStage::MeasuringKeyframes { file_type, streams, ffprobe_output }, IndexEvent::KeyframeInterval(mi)) => {
                let draft = video_draft_of(file_type, streams, ffprobe_output, mi);
                (IndexStage::Hashing { draft }, IndexAction::HashFile)
            },
            (IndexStage::MeasuringImage { file_type }, IndexEvent::ImageSize(size)) => match size {
                None => (IndexStage::Done, IndexAction::NotIndexed),
                Some(sz) => {
                    let image_format_name = file_type.clone();
                    let draft = AssetDraft { file_type, kind: AssetKindDraft::Image { image_format_name }, size: sz };
                    (IndexStage::Hashing { draft }, IndexAction::HashFile)
                },
            },
            (IndexStage::Hashing { draft }, IndexEvent::Hashed) => (
                IndexStage::CheckingDuplicate { draft },
                IndexAction::CheckDuplicate,
            ),
            (IndexStage::CheckingDuplicate { draft }, IndexEvent::Duplicate(dup)) => {
                if dup {
                    (IndexStage::Done, IndexAction::NotIndexed)
                } else {
                    (IndexStage::Done, IndexAction::Create(draft))
                }
            },
            _ => (IndexStage::Done, IndexAction::NotIndexed),
        }
    }
}

} // verus!
