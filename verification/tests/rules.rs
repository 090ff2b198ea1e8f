use myrti::catalog::encoding_target::{AudioEncodingTarget, CodecTarget};
use myrti::catalog::image_conversion_target::ImageFormatTarget;
use myrti::catalog::package_video::PackageVideoTask;
use myrti::catalog::rules::{
    acceptable_audio_codecs, acceptable_video_codecs, album_thumbnails_to_create,
    check_create_ghi_task, image_conversion_due, keyframe_interval, missing_asset_thumbnails,
    required_image_conversion_for_asset, required_video_packaging_for_asset, segment_duration,
    thumbnails_to_create, video_packaging_due,
};
use myrti::model::{
    AlbumId, AssetFile, AssetThumbnail, AssetThumbnailId, FileId, IsOriginalStreamable,
    OriginalStreaming, Size, ThumbnailFormat, ThumbnailType, Video,
};

fn file(id: i64, file_type: &str) -> AssetFile {
    AssetFile { id: FileId(id), file_type: file_type.to_owned(), size: Size { width: 1920, height: 1080 } }
}

fn video(id: i64, codec: &str, audio: Option<&str>) -> Video {
    Video {
        file_id: FileId(id),
        video_codec_name: codec.to_owned(),
        audio_codec_name: audio.map(|a| a.to_owned()),
        frame_rate: Some((30, 1)),
        max_iframe_interval: Some(2000),
        original_streaming: None,
        ghi_disabled: false,
    }
}

fn thumb(ty: ThumbnailType, format: ThumbnailFormat) -> AssetThumbnail {
    AssetThumbnail {
        id: AssetThumbnailId(1),
        file_id: FileId(1),
        ty,
        size: Size { width: 10, height: 10 },
        format,
    }
}

#[test]
fn keyframe_interval_rounds_and_clamps() {
    assert_eq!(keyframe_interval(Some((15770000, 262847))), 60);
    assert_eq!(keyframe_interval(Some((25, 1))), 25);
    assert_eq!(keyframe_interval(Some((59, 2))), 30);
    assert_eq!(keyframe_interval(Some((300, 1000))), 2);
    assert_eq!(keyframe_interval(Some((1000, 1))), 240);
    assert_eq!(keyframe_interval(Some((0, 0))), 30);
    assert_eq!(keyframe_interval(None), 30);
}

#[test]
fn segment_duration_rounds_and_clamps() {
    assert_eq!(segment_duration(2500), 3);
    assert_eq!(segment_duration(2499), 2);
    assert_eq!(segment_duration(999), 1);
    assert_eq!(segment_duration(-5), 1);
    assert_eq!(segment_duration(12000), 10);
}

#[test]
fn original_mp4_h264_is_streamed_with_ghi_index() {
    let d = check_create_ghi_task(
        &file(1, "mp4"),
        &video(1, "h264", Some("aac")),
        &acceptable_video_codecs(),
        &acceptable_audio_codecs(),
    );
    assert_eq!(d.is_streamable, IsOriginalStreamable::VideoAudio);
    let task = d.task.unwrap();
    assert_eq!(task.repr_name, "original");
    assert_eq!(task.output_key, "dash/1/original");
    assert_eq!(
        task.task,
        PackageVideoTask::CreateGHIIndex { include_video: true, include_audio: true, segment_duration: 2 }
    );
    assert_eq!(
        d.record,
        Some(OriginalStreaming { is_streamable: IsOriginalStreamable::VideoAudio, is_done: false })
    );
}

#[test]
fn ghi_disabled_gives_dash_segment_without_record() {
    let mut v = video(1, "h264", None);
    v.ghi_disabled = true;
    let d = check_create_ghi_task(&file(1, "mp4"), &v, &acceptable_video_codecs(), &acceptable_audio_codecs());
    assert_eq!(d.is_streamable, IsOriginalStreamable::VideoAudio);
    assert_eq!(d.task.unwrap().task, PackageVideoTask::DashSegment);
    assert_eq!(d.record, None);
}

#[test]
fn settled_streaming_is_kept() {
    let mut v = video(1, "hevc", None);
    v.original_streaming = Some(OriginalStreaming { is_streamable: IsOriginalStreamable::AudioOnly, is_done: true });
    let d = check_create_ghi_task(&file(1, "mov"), &v, &acceptable_video_codecs(), &acceptable_audio_codecs());
    assert_eq!(d.is_streamable, IsOriginalStreamable::AudioOnly);
    assert!(d.task.is_none());
    assert!(d.record.is_none());
}

#[test]
fn mov_file_is_not_streamable() {
    let d = check_create_ghi_task(
        &file(1, "mov"),
        &video(1, "h264", Some("aac")),
        &acceptable_video_codecs(),
        &acceptable_audio_codecs(),
    );
    assert_eq!(d.is_streamable, IsOriginalStreamable::NotStreamable);
    assert!(d.task.is_none());
    assert_eq!(
        d.record,
        Some(OriginalStreaming { is_streamable: IsOriginalStreamable::NotStreamable, is_done: false })
    );
}

#[test]
fn nothing_required_with_acceptable_representations() {
    let plan = required_video_packaging_for_asset(
        FileId(1),
        &file(1, "mov"),
        &video(1, "hevc", Some("pcm_s16le")),
        &vec!["av1".to_owned()],
        &vec!["aac".to_owned()],
    );
    assert!(plan.ops.is_empty());
    assert!(plan.record.is_none());
}

#[test]
fn hevc_mov_is_transcoded() {
    let plan = required_video_packaging_for_asset(
        FileId(4),
        &file(4, "mov"),
        &video(4, "hevc", Some("pcm_s16le")),
        &vec![],
        &vec![],
    );
    assert_eq!(plan.ops.len(), 2);
    assert_eq!(plan.ops[0].repr_name, "1920x1080");
    assert_eq!(plan.ops[0].output_key, "dash/4/1920x1080");
    match plan.ops[0].task {
        PackageVideoTask::TranscodeVideo(t) => {
            assert!(matches!(t.codec, CodecTarget::AV1(_)));
            assert_eq!(t.force_keyframe_interval, Some(30));
            assert!(t.scale.is_none());
        }
        _ => panic!("expected a video transcode"),
    }
    assert_eq!(plan.ops[1].repr_name, "aac");
    assert_eq!(plan.ops[1].output_key, "dash/4/audio_aac.mp4");
    assert_eq!(plan.ops[1].task, PackageVideoTask::TranscodeAudio(AudioEncodingTarget::AAC));
}

#[test]
fn streamable_video_needs_only_audio_transcode() {
    let plan = required_video_packaging_for_asset(
        FileId(2),
        &file(2, "mp4"),
        &video(2, "h264", Some("pcm_s16le")),
        &vec![],
        &vec![],
    );
    assert_eq!(plan.ops.len(), 2);
    assert_eq!(
        plan.ops[0].task,
        PackageVideoTask::CreateGHIIndex { include_video: true, include_audio: false, segment_duration: 2 }
    );
    assert_eq!(plan.ops[1].task, PackageVideoTask::TranscodeAudio(AudioEncodingTarget::AAC));
}

#[test]
fn packaging_due_orders_streaming_video_audio() {
    let due = video_packaging_due(
        &vec![(file(1, "mp4"), video(1, "h264", None)), (file(2, "mov"), video(2, "h264", None))],
        &acceptable_video_codecs(),
        &acceptable_audio_codecs(),
        &vec![file(3, "mov")],
        &vec![file(4, "mov")],
    );
    assert_eq!(due.ops.len(), 3);
    assert_eq!(due.ops[0].output_key, "dash/1/original");
    assert_eq!(due.ops[1].output_key, "dash/3/1920x1080.mp4");
    assert_eq!(due.ops[1].repr_name, "1920x1080");
    assert_eq!(due.ops[2].output_key, "dash/4/audio.mp4");
    assert_eq!(due.ops[2].repr_name, "audio");
    assert_eq!(due.records.len(), 2);
    assert_eq!(due.records[1].0, FileId(2));
    assert_eq!(due.records[1].1.is_streamable, IsOriginalStreamable::NotStreamable);
}

#[test]
fn image_conversion_for_unusual_format() {
    let convs = required_image_conversion_for_asset(FileId(8), "heic", &vec![]);
    assert_eq!(convs.len(), 1);
    assert_eq!(convs[0].file_id, FileId(8));
    assert_eq!(convs[0].output_file_key, "image/8.avif");
    assert!(matches!(convs[0].format, ImageFormatTarget::AVIF(_)));
    assert!(required_image_conversion_for_asset(FileId(8), "jpeg", &vec![]).is_empty());
    assert!(required_image_conversion_for_asset(FileId(8), "heic", &vec!["webp".to_owned()]).is_empty());
    let due = image_conversion_due(&vec![FileId(1), FileId(2)]);
    assert_eq!(due.len(), 2);
    assert_eq!(due[1].output_file_key, "image/2.avif");
}

#[test]
fn all_thumbnails_created_when_none_exist() {
    let (formats, types) = missing_asset_thumbnails(&[]);
    assert_eq!(formats, vec![ThumbnailFormat::Webp, ThumbnailFormat::Avif]);
    assert_eq!(types, vec![ThumbnailType::LargeOrigAspect, ThumbnailType::SmallSquare]);
}

#[test]
fn no_thumbnails_created_when_complete() {
    let have = [
        thumb(ThumbnailType::SmallSquare, ThumbnailFormat::Webp),
        thumb(ThumbnailType::SmallSquare, ThumbnailFormat::Avif),
        thumb(ThumbnailType::LargeOrigAspect, ThumbnailFormat::Avif),
        thumb(ThumbnailType::LargeOrigAspect, ThumbnailFormat::Webp),
    ];
    let (formats, types) = missing_asset_thumbnails(&have);
    assert!(formats.is_empty());
    assert!(types.is_empty());
}

#[test]
fn one_missing_format_recreates_that_kind_in_all_formats() {
    let have = [
        thumb(ThumbnailType::SmallSquare, ThumbnailFormat::Webp),
        thumb(ThumbnailType::LargeOrigAspect, ThumbnailFormat::Avif),
        thumb(ThumbnailType::LargeOrigAspect, ThumbnailFormat::Webp),
    ];
    let (formats, types) = missing_asset_thumbnails(&have);
    assert_eq!(formats, vec![ThumbnailFormat::Webp, ThumbnailFormat::Avif]);
    assert_eq!(types, vec![ThumbnailType::SmallSquare]);
    let jobs = thumbnails_to_create(&vec![(FileId(5), have.to_vec())]);
    assert_eq!(jobs.len(), 1);
    assert_eq!(jobs[0].file_id, FileId(5));
    assert_eq!(jobs[0].thumbnail_types, vec![ThumbnailType::SmallSquare]);
}

#[test]
fn album_thumbnails_are_400_wide() {
    let jobs = album_thumbnails_to_create(&vec![(AlbumId(1), FileId(10)), (AlbumId(2), FileId(20))]);
    assert_eq!(jobs.len(), 2);
    assert_eq!(jobs[1].album_id, AlbumId(2));
    assert_eq!(jobs[1].file_id, FileId(20));
    assert_eq!(jobs[1].size, 400);
}
