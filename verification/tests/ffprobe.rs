use myrti::processing::ffprobe::{
    parse_ffprobe_streams, parse_frame_rate, parse_i64, select_streams, AudioStream,
    FFProbeAudioStream, FFProbeSideData, FFProbeStreamType, FFProbeStreams, FFProbeVideoStream,
    StreamType, StreamsError, VideoStream,
};

fn raw_video() -> FFProbeVideoStream {
    FFProbeVideoStream {
        codec_name: "h264".to_owned(),
        duration_ms: Some(26285),
        width: 1920,
        height: 1080,
        bit_rate: Some("28034318".to_owned()),
        side_data_list: Some(vec![
            FFProbeSideData::FrameCropping { crop_top: Some(0), crop_bottom: Some(0), crop_left: None, crop_right: None },
            FFProbeSideData::DisplayMatrix { rotation: None },
            FFProbeSideData::DisplayMatrix { rotation: Some(-90) },
        ]),
        avg_frame_rate: "15770000/262847".to_owned(),
    }
}

fn raw_audio() -> FFProbeAudioStream {
    FFProbeAudioStream {
        codec_name: "aac".to_owned(),
        sample_rate: "48000".to_owned(),
        bit_rate: Some("256017".to_owned()),
        channels: 2,
    }
}

fn expected_video() -> VideoStream {
    VideoStream {
        codec_name: "h264".into(),
        width: 1920,
        height: 1080,
        bitrate: Some(28034318),
        rotation: Some(-90),
        duration_ms: Some(26285),
        avg_frame_rate: Some((15770000, 262847)),
    }
}

fn expected_audio() -> AudioStream {
    AudioStream { codec_name: "aac".into(), sample_rate: 48000, bitrate: Some(256017), channels: 2 }
}

#[test]
fn video_and_audio_streams_are_read() {
    let raw = vec![
        FFProbeStreamType::Video(raw_video()),
        FFProbeStreamType::Other,
        FFProbeStreamType::Audio(raw_audio()),
    ];
    let streams = parse_ffprobe_streams(raw).unwrap();
    assert_eq!(streams, vec![StreamType::Video(expected_video()), StreamType::Audio(expected_audio())]);
    assert_eq!(
        select_streams(streams),
        Ok(FFProbeStreams { video: expected_video(), audio: Some(expected_audio()) })
    );
}

#[test]
fn garbage_frame_rate_is_dropped() {
    assert_eq!(parse_frame_rate("0/0"), Some((0, 0)));
    assert_eq!(parse_frame_rate("25/1"), Some((25, 1)));
    assert_eq!(parse_frame_rate("25"), None);
    assert_eq!(parse_frame_rate("a/1"), None);
    let mut v = raw_video();
    v.avg_frame_rate = "N/A".to_owned();
    v.side_data_list = None;
    v.bit_rate = None;
    let streams = parse_ffprobe_streams(vec![FFProbeStreamType::Video(v)]).unwrap();
    match &streams[0] {
        StreamType::Video(s) => {
            assert_eq!(s.avg_frame_rate, None);
            assert_eq!(s.rotation, None);
            assert_eq!(s.bitrate, None);
        }
        _ => panic!("expected a video stream"),
    }
}

#[test]
fn bad_numbers_are_errors() {
    let mut v = raw_video();
    v.bit_rate = Some("fast".to_owned());
    assert_eq!(
        parse_ffprobe_streams(vec![FFProbeStreamType::Video(v)]),
        Err(StreamsError::InvalidBitRate("fast".to_owned()))
    );
    let mut a = raw_audio();
    a.sample_rate = "48k".to_owned();
    assert_eq!(
        parse_ffprobe_streams(vec![FFProbeStreamType::Audio(a)]),
        Err(StreamsError::InvalidSampleRate("48k".to_owned()))
    );
    assert_eq!(parse_i64("-12"), Some(-12));
    assert_eq!(parse_i64("9223372036854775808"), None);
}

#[test]
fn first_streams_are_kept_and_video_is_required() {
    let mut second = expected_video();
    second.codec_name = "hevc".into();
    let streams = vec![
        StreamType::Audio(expected_audio()),
        StreamType::Video(expected_video()),
        StreamType::Video(second),
    ];
    assert_eq!(select_streams(streams).unwrap().video, expected_video());
    assert_eq!(select_streams(vec![StreamType::Audio(expected_audio())]), Err(StreamsError::NoVideoStream));
}
