use myrti::model::{DbAssetType, AssetType, IsOriginalStreamable, Size};
use myrti::processing::ffmpeg::ffmpeg_args;
use myrti::processing::gpac::{
    dash_mp4_name, dasher_output_arg, ghi_input_arg, ghi_output_arg, manifest_input_arg,
    manifest_output_arg, segment_input_arg, DasherOptions, NoTrackSelected,
};
use myrti::processing::image::{thumbnail_dimension, OutDimension};
use myrti::processing::ffprobe::{AudioStream, FFProbeStreams, VideoStream};
use myrti::processing::indexing::{create_asset_video, indexed_file_type, media_kind, video_display_size, MediaKind};
use myrti::processing::shaka::{media_info_key, shaka_stream_arg, RepresentationType};

#[test]
fn media_kinds() {
    assert_eq!(media_kind(Some("video/mp4")), MediaKind::Video);
    assert_eq!(media_kind(Some("image/jpeg")), MediaKind::Image);
    assert_eq!(media_kind(Some("image/VND.fpx")), MediaKind::Ignored);
    assert_eq!(media_kind(Some("application/pdf")), MediaKind::Ignored);
    assert_eq!(media_kind(None), MediaKind::Ignored);
}

#[test]
fn rotated_videos_swap_sides() {
    assert_eq!(video_display_size(1920, 1080, Some(-90)), Size { width: 1080, height: 1920 });
    assert_eq!(video_display_size(1920, 1080, Some(270)), Size { width: 1080, height: 1920 });
    assert_eq!(video_display_size(1920, 1080, Some(180)), Size { width: 1920, height: 1080 });
    assert_eq!(video_display_size(1920, 1080, Some(45)), Size { width: 1920, height: 1080 });
    assert_eq!(video_display_size(1920, 1080, None), Size { width: 1920, height: 1080 });
}

#[test]
fn gpac_arguments() {
    assert_eq!(
        ghi_input_arg("in.mp4", Some("v1"), None).unwrap(),
        "in.mp4:#Representation=(video)v1:tkid=video"
    );
    assert_eq!(
        ghi_input_arg("in.mp4", None, Some("a1")).unwrap(),
        "in.mp4:#Representation=(video)ignored,(audio)a1"
    );
    assert_eq!(
        ghi_input_arg("in.mp4", Some("v"), Some("a")).unwrap(),
        "in.mp4:#Representation=(video)v,(audio)a"
    );
    assert_eq!(ghi_input_arg("in.mp4", None, None), Err(NoTrackSelected));
    assert_eq!(ghi_output_arg("/x/idx.ghi", 4), "/x/idx.ghi:stl=true:segdur=4");
    assert_eq!(manifest_input_arg("/x/idx.ghi"), "/x/idx.ghi:gm=all");
    assert_eq!(manifest_output_arg("/x/s.mpd", None), "/x/s.mpd:stl=true:profile=live");
    assert_eq!(manifest_output_arg("/x/s.mpd", Some("/api/")), "/x/s.mpd:base=/api/:stl=true");
    assert_eq!(segment_input_arg("g.ghi", "v1", 0), "g.ghi:rep=v1:gm=init");
    assert_eq!(segment_input_arg("g.ghi", "v1", 12), "g.ghi:rep=v1:sn=12");
    let opts = DasherOptions { mpd_name: "stream.mpd", base_url: Some("b/"), segment_duration: 2 };
    assert_eq!(dasher_output_arg(&opts), "stream.mpd:profile=onDemand:base=b/:segdur=2");
    let opts = DasherOptions { mpd_name: "s.mpd", base_url: None, segment_duration: 5 };
    assert_eq!(dasher_output_arg(&opts), "s.mpd:profile=onDemand:segdur=5");
    assert_eq!(dash_mp4_name("clip"), "clip_dashinit.mp4");
}

#[test]
fn ffmpeg_and_shaka_arguments() {
    let args = ffmpeg_args("in.mov", "out.mp4", &vec!["-f".to_owned(), "lavfi".to_owned()], &vec!["-c:a".to_owned(), "flac".to_owned()]);
    assert_eq!(args, ["-nostdin", "-y", "-f", "lavfi", "-i", "in.mov", "-c:a", "flac", "out.mp4"]);
    assert_eq!(
        shaka_stream_arg("/in.mp4", RepresentationType::Audio, "a.mp4"),
        "in=/in.mp4,stream=audio,output=a.mp4"
    );
    assert_eq!(media_info_key("dash/1/v.mp4"), "dash/1/v.mp4.media_info");
}

#[test]
fn thumbnail_dimensions() {
    assert_eq!(thumbnail_dimension(OutDimension::KeepAspect { width: 300 }), (300, 0, true));
    assert_eq!(thumbnail_dimension(OutDimension::Crop { width: 200, height: 100 }), (200, 100, false));
}

#[test]
fn model_conversions() {
    assert_eq!(AssetType::from(DbAssetType::Video), AssetType::Video);
    assert_eq!(DbAssetType::from(AssetType::Image), DbAssetType::Image);
    assert_eq!(DbAssetType::Video.db_value(), 2);
    assert!(IsOriginalStreamable::VideoAudio.includes_video());
    assert!(!IsOriginalStreamable::VideoOnly.includes_audio());
}

#[test]
fn video_asset_record() {
    let streams = FFProbeStreams {
        video: VideoStream {
            codec_name: "HEVC".to_owned(),
            width: 1920,
            height: 1440,
            bitrate: Some(14850437),
            rotation: Some(-90),
            duration_ms: Some(2005),
            avg_frame_rate: Some((11600, 401)),
        },
        audio: Some(AudioStream { codec_name: "PCM_S16LE".to_owned(), sample_rate: 44100, bitrate: None, channels: 1 }),
    };
    let (rec, size) = create_asset_video(streams, b"{}".to_vec(), Some(1000));
    assert_eq!(rec.video_codec_name, "hevc");
    assert_eq!(rec.audio_codec_name.as_deref(), Some("pcm_s16le"));
    assert_eq!(rec.video_bitrate, Some(14850437));
    assert_eq!(rec.video_duration_ms, Some(2005));
    assert_eq!(rec.frame_rate, Some((11600, 401)));
    assert_eq!(rec.max_iframe_interval, Some(1000));
    assert_eq!(rec.ffprobe_output, b"{}".to_vec());
    assert_eq!(size, Size { width: 1440, height: 1920 });
    assert_eq!(indexed_file_type(Some("MP4")).as_deref(), Some("mp4"));
    assert_eq!(indexed_file_type(None), None);
}
