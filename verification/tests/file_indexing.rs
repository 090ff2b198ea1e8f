use myrti::model::Size;
use myrti::processing::ffprobe::{AudioStream, FFProbeStreams, VideoStream};
use myrti::processing::indexing::{AssetDraft, AssetKindDraft, IndexAction, IndexEvent, IndexStage};

fn streams(rotation: Option<i32>) -> FFProbeStreams {
    FFProbeStreams {
        video: VideoStream {
            codec_name: "H264".to_owned(),
            width: 1920,
            height: 1080,
            bitrate: Some(8_000_000),
            rotation,
            duration_ms: Some(12_000),
            avg_frame_rate: Some((30, 1)),
        },
        audio: Some(AudioStream { codec_name: "AAC".to_owned(), sample_rate: 48_000, bitrate: None, channels: 2 }),
    }
}

fn metadata(file_type: Option<&str>, mime: Option<&str>) -> IndexEvent {
    IndexEvent::Metadata { file_type: file_type.map(str::to_owned), mime: mime.map(str::to_owned) }
}

#[test]
fn known_path_is_not_indexed_again() {
    let (stage, action) = IndexStage::CheckingPath.on_event(IndexEvent::PathKnown(true));
    assert_eq!((stage, action), (IndexStage::Done, IndexAction::NotIndexed));
}

#[test]
fn mp4_video_is_probed_measured_hashed_and_created() {
    let (s, a) = IndexStage::CheckingPath.on_event(IndexEvent::PathKnown(false));
    assert_eq!(a, IndexAction::ReadMetadata);
    let (s, a) = s.on_event(metadata(Some("MP4"), Some("video/mp4")));
    assert_eq!(a, IndexAction::ProbeVideo);
    assert_eq!(s, IndexStage::Probing { file_type: "mp4".to_owned() });
    let (s, a) = s.on_event(IndexEvent::Probed(Some((streams(Some(-90)), b"{}".to_vec()))));
    assert_eq!(a, IndexAction::MeasureKeyframeInterval);
    let (s, a) = s.on_event(IndexEvent::KeyframeInterval(Some(2000)));
    assert_eq!(a, IndexAction::HashFile);
    let (s, a) = s.on_event(IndexEvent::Hashed);
    assert_eq!(a, IndexAction::CheckDuplicate);
    let (s, a) = s.on_event(IndexEvent::Duplicate(false));
    assert_eq!(s, IndexStage::Done);
    match a {
        IndexAction::Create(AssetDraft { file_type, kind: AssetKindDraft::Video(v), size }) => {
            assert_eq!(file_type, "mp4");
            assert_eq!(v.video_codec_name, "h264");
            assert_eq!(v.audio_codec_name.as_deref(), Some("aac"));
            assert_eq!(v.max_iframe_interval, Some(2000));
            assert_eq!(v.ffprobe_output, b"{}".to_vec());
            assert_eq!(size, Size { width: 1080, height: 1920 });
        }
        other => panic!("unexpected {other:?}"),
    }
}

#[test]
fn other_videos_skip_the_keyframe_measure() {
    let s = IndexStage::Probing { file_type: "mov".to_owned() };
    let (s, a) = s.on_event(IndexEvent::Probed(Some((streams(None), Vec::new()))));
    assert_eq!(a, IndexAction::HashFile);
    match s {
        IndexStage::Hashing { draft: AssetDraft { kind: AssetKindDraft::Video(v), size, .. } } => {
            assert_eq!(v.max_iframe_interval, None);
            assert_eq!(size, Size { width: 1920, height: 1080 });
        }
        other => panic!("unexpected {other:?}"),
    }
    let (s, a) = IndexStage::Probing { file_type: "mov".to_owned() }.on_event(IndexEvent::Probed(None));
    assert_eq!((s, a), (IndexStage::Done, IndexAction::NotIndexed));
}

#[test]
fn images_are_measured_and_duplicates_not_created() {
    let (s, a) = IndexStage::ReadingMetadata.on_event(metadata(Some("JPEG"), Some("image/jpeg")));
    assert_eq!(a, IndexAction::MeasureImageSize);
    let (s, _) = s.on_event(IndexEvent::ImageSize(Some(Size { width: 4000, height: 3000 })));
    let (s, _) = s.on_event(IndexEvent::Hashed);
    assert_eq!(
        s,
        IndexStage::CheckingDuplicate {
            draft: AssetDraft {
                file_type: "jpeg".to_owned(),
                kind: AssetKindDraft::Image { image_format_name: "jpeg".to_owned() },
                size: Size { width: 4000, height: 3000 },
            }
        }
    );
    assert_eq!(s.on_event(IndexEvent::Duplicate(true)), (IndexStage::Done, IndexAction::NotIndexed));
    let (s, a) = IndexStage::MeasuringImage { file_type: "png".to_owned() }.on_event(IndexEvent::ImageSize(None));
    assert_eq!((s, a), (IndexStage::Done, IndexAction::NotIndexed));
}

#[test]
fn files_without_type_or_media_mime_are_ignored() {
    for (ft, mime) in [(None, Some("image/jpeg")), (Some("FPX"), Some("IMAGE/VND.FPX")), (Some("PDF"), Some("application/pdf")), (Some("TXT"), None)] {
        assert_eq!(
            IndexStage::ReadingMetadata.on_event(metadata(ft, mime)),
            (IndexStage::Done, IndexAction::NotIndexed)
        );
    }
}
