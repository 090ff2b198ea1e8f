use myrti::catalog::encoding_target::av1::{AV1Target, FastDecode};
use myrti::catalog::encoding_target::avc::{AVCTarget, Crf, Preset, Tune};
use myrti::catalog::encoding_target::{
    av1, audio_codec_name, codec_name, AudioEncodingTarget, CodecTarget, OutOfRange, Scale,
    VideoEncodingTarget,
};
use myrti::processing::transcode::{ffmpeg_audio_flags, ffmpeg_video_flags};

#[test]
fn ffmpeg_avc_flags_assembled_correctly() {
    let codec = CodecTarget::AVC(AVCTarget {
        preset: Preset::Medium,
        tune: Some(Tune::Zerolatency),
        crf: Crf::try_from(24).unwrap(),
        max_bitrate: Some(10_000_000),
    });
    let scale = Some(Scale::WidthKeepAspect { width: 1280 });
    let expected = [
        "-c:v",
        "libx264",
        "-crf",
        "24",
        "-preset",
        "medium",
        "-tune",
        "zerolatency",
        "-maxrate",
        "10000000",
        "-vf",
        "scale=1280:-2",
    ];
    let actual = ffmpeg_video_flags(&VideoEncodingTarget {
        codec,
        scale,
        force_keyframe_interval: None,
    });
    assert_eq!(expected.as_slice(), &actual);
}

#[test]
fn ffmpeg_av1_command_assembled_correctly() {
    let codec = CodecTarget::AV1(AV1Target {
        preset: Some(av1::Preset::try_from(8).unwrap()),
        crf: av1::Crf::try_from(45).unwrap(),
        max_bitrate: Some(4_000_000),
        fast_decode: Some(FastDecode::try_from(1).unwrap()),
    });
    let scale: Option<Scale> = Some(Scale::HeightKeepAspect { height: 500 });
    let expected = [
        "-c:v",
        "libsvtav1",
        "-crf",
        "45",
        "-preset",
        "8",
        "-maxrate",
        "4000000",
        "-svtav1-params",
        "fast-decode=1",
        "-vf",
        "scale=-2:500",
    ];
    let actual = ffmpeg_video_flags(&VideoEncodingTarget {
        codec,
        scale,
        force_keyframe_interval: None,
    });
    assert_eq!(expected.as_slice(), &actual);
}

#[test]
fn crf_and_preset_ranges_are_checked() {
    assert_eq!(Crf::try_from(52), Err(OutOfRange(52)));
    assert_eq!(Crf::try_from(-1), Err(OutOfRange(-1)));
    assert_eq!(Crf::try_from(51).unwrap().crf(), 51);
    assert_eq!(av1::Crf::try_from(64), Err(OutOfRange(64)));
    assert_eq!(av1::Crf::try_from(63).unwrap().crf(), 63);
    assert_eq!(av1::Preset::try_from(14), Err(OutOfRange(14)));
    assert_eq!(FastDecode::try_from(3), Err(OutOfRange(3)));
    assert_eq!(FastDecode::try_from(2).unwrap().fast_decode(), 2);
}

#[test]
fn default_targets() {
    let avc = AVCTarget::default();
    assert_eq!(avc.preset, Preset::Medium);
    assert_eq!(avc.tune, None);
    assert_eq!(avc.crf.crf(), 23);
    let av1 = AV1Target::default();
    assert_eq!(av1.crf.crf(), 35);
}

#[test]
fn codec_names() {
    assert_eq!(codec_name(&CodecTarget::AVC(AVCTarget::default())), "h264");
    assert_eq!(codec_name(&CodecTarget::AV1(AV1Target::default())), "av1");
    assert_eq!(audio_codec_name(&AudioEncodingTarget::AAC), "aac");
    assert_eq!(audio_codec_name(&AudioEncodingTarget::OPUS), "opus");
}

#[test]
fn audio_flags_name_the_encoder() {
    assert_eq!(ffmpeg_audio_flags(&AudioEncodingTarget::FLAC), ["-c:a", "flac"]);
    assert_eq!(ffmpeg_audio_flags(&AudioEncodingTarget::MP3), ["-c:a", "libmp3lame"]);
    assert_eq!(ffmpeg_audio_flags(&AudioEncodingTarget::AAC), ["-c:a", "libopus"]);
    assert_eq!(ffmpeg_audio_flags(&AudioEncodingTarget::OPUS), ["-c:a", "aac"]);
}

#[test]
fn keyframe_interval_is_forced_for_avc() {
    let flags = ffmpeg_video_flags(&VideoEncodingTarget {
        codec: CodecTarget::AVC(AVCTarget::default()),
        scale: None,
        force_keyframe_interval: Some(30),
    });
    let expected = [
        "-c:v",
        "libx264",
        "-crf",
        "23",
        "-preset",
        "medium",
        "-g",
        "30",
        "-keyint_min",
        "30",
        "-force_key_frames",
        "expr:gte(t,n_forced*30)",
        "-sc_threshold",
        "0",
    ];
    assert_eq!(expected.as_slice(), &flags);
}

#[test]
fn keyframe_interval_is_set_for_av1() {
    let flags = ffmpeg_video_flags(&VideoEncodingTarget {
        codec: CodecTarget::AV1(AV1Target::default()),
        scale: None,
        force_keyframe_interval: Some(60),
    });
    let expected = ["-c:v", "libsvtav1", "-crf", "35", "-g", "60", "-keyint_min", "60"];
    assert_eq!(expected.as_slice(), &flags);
}
