use std::collections::HashSet;

use serde_json::Value;

use myrti::processing::ffprobe::{
    parse_ffprobe_streams, AudioStream, FFProbeAudioStream, FFProbeSideData, FFProbeStreamType,
    FFProbeVideoStream, StreamType, StreamsError, VideoStream,
};

fn side_data(sd: &Value) -> FFProbeSideData {
    let int = |k: &str| sd.get(k).and_then(|v| v.as_i64()).map(|v| v as i32);
    match sd["side_data_type"].as_str() {
        Some("Display Matrix") => FFProbeSideData::DisplayMatrix { rotation: int("rotation") },
        Some("Frame Cropping") => FFProbeSideData::FrameCropping {
            crop_top: int("crop_top"),
            crop_bottom: int("crop_bottom"),
            crop_left: int("crop_left"),
            crop_right: int("crop_right"),
        },
        _ => FFProbeSideData::Other,
    }
}

fn text(s: &Value, k: &str) -> Option<String> {
    s.get(k).and_then(|v| v.as_str()).map(|v| v.to_owned())
}

fn raw_stream(s: &Value) -> FFProbeStreamType {
    match s["codec_type"].as_str() {
        Some("video") => FFProbeStreamType::Video(FFProbeVideoStream {
            codec_name: text(s, "codec_name").unwrap(),
            duration_ms: text(s, "duration")
                .and_then(|d| d.parse::<f32>().ok())
                .map(|n| (n * 1000.0).round() as i64),
            width: s["width"].as_i64().unwrap() as i32,
            height: s["height"].as_i64().unwrap() as i32,
            bit_rate: text(s, "bit_rate"),
            side_data_list: s
                .get("side_data_list")
                .and_then(|l| l.as_array())
                .map(|l| l.iter().map(side_data).collect()),
            avg_frame_rate: text(s, "avg_frame_rate").unwrap(),
        }),
        Some("audio") => FFProbeStreamType::Audio(FFProbeAudioStream {
            codec_name: text(s, "codec_name").unwrap(),
            sample_rate: text(s, "sample_rate").unwrap(),
            bit_rate: text(s, "bit_rate"),
            channels: s["channels"].as_i64().unwrap() as i32,
        }),
        _ => FFProbeStreamType::Other,
    }
}

/// Decodes ffprobe's JSON as the server does, then reads the streams.
fn parse_ffprobe_output(json: &[u8]) -> Result<Vec<StreamType>, StreamsError> {
    let v: Value = serde_json::from_slice(json).unwrap();
    let raw = v["streams"].as_array().unwrap().iter().map(raw_stream).collect();
    parse_ffprobe_streams(raw)
}

#[test]
fn ffprobe_output_parsed_correctly() {

    let output_video_audio = r#"
{
    "streams": [
        {
            "index": 0,
            "codec_name": "h264",
            "codec_long_name": "H.264 / AVC / MPEG-4 AVC / MPEG-4 part 10",
            "profile": "High",
            "codec_type": "video",
            "codec_tag_string": "avc1",
            "codec_tag": "0x31637661",
            "width": 1920,
            "height": 1080,
            "coded_width": 1920,
            "coded_height": 1080,
            "closed_captions": 0,
            "film_grain": 0,
            "has_b_frames": 0,
            "sample_aspect_ratio": "1:1",
            "display_aspect_ratio": "16:9",
            "pix_fmt": "yuv420p",
            "level": 41,
            "color_range": "tv",
            "color_space": "bt709",
            "color_transfer": "bt709",
            "color_primaries": "bt709",
            "chroma_location": "left",
            "field_order": "progressive",
            "refs": 1,
            "is_avc": "true",
            "nal_length_size": "4",
            "id": "0x1",
            "r_frame_rate": "60/1",
            "avg_frame_rate": "15770000/262847",
            "time_base": "1/90000",
            "start_pts": 0,
            "start_time": "0.000000",
            "duration_ts": 2365623,
            "duration": "26.284700",
            "bit_rate": "28034318",
            "bits_per_raw_sample": "8",
            "nb_frames": "1577",
            "extradata_size": 34,
            "side_data_list": [
                {
                    "side_data_type": "Display Matrix",
                    "displaymatrix": "\n00000000:            0       65536           0\n00000001:       -65536           0           0\n00000002:            0           0  1073741824\n",
                    "rotation": -90
                }
            ]
        },
        {
            "index": 1,
            "codec_name": "aac",
            "codec_long_name": "AAC (Advanced Audio Coding)",
            "profile": "LC",
            "codec_type": "audio",
            "codec_tag_string": "mp4a",
            "codec_tag": "0x6134706d",
            "sample_fmt": "fltp",
            "sample_rate": "48000",
            "channels": 2,
            "channel_layout": "stereo",
            "bits_per_sample": 0,
            "initial_padding": 0,
            "id": "0x2",
            "r_frame_rate": "0/0",
            "avg_frame_rate": "0/0",
            "time_base": "1/48000",
            "start_pts": 0,
            "start_time": "0.000000",
            "duration_ts": 1261568,
            "duration": "26.282667",
            "bit_rate": "256017",
            "nb_frames": "1232",
            "extradata_size": 2
        }
    ]
}
    "#;
    let expected_video_audio: HashSet<StreamType> = [
        StreamType::Video(VideoStream {
            codec_name: "h264".into(),
            width: 1920,
            height: 1080,
            bitrate: Some(28034318),
            rotation: Some(-90),
            duration_ms: Some(26285),
            avg_frame_rate: Some((15770000, 262847)),
        }),
        StreamType::Audio(AudioStream {
            codec_name: "aac".into(),
            sample_rate: 48000,
            bitrate: Some(256017),
            channels: 2,
        }),
    ]
    .into_iter()
    .collect();
    let parsed_video_audio: HashSet<_> =
        parse_ffprobe_output(output_video_audio.as_bytes()).unwrap()
            .into_iter()
            .collect();
    assert_eq!(parsed_video_audio, expected_video_audio);

    let output_video_only = r#"
{
    "streams": [
        {
            "index": 0,
            "codec_name": "h264",
            "codec_long_name": "H.264 / AVC / MPEG-4 AVC / MPEG-4 part 10",
            "profile": "Constrained Baseline",
            "codec_type": "video",
            "codec_tag_string": "H264",
            "codec_tag": "0x34363248",
            "width": 1280,
            "height": 720,
            "coded_width": 1280,
            "coded_height": 720,
            "closed_captions": 0,
            "film_grain": 0,
            "has_b_frames": 0,
            "sample_aspect_ratio": "1:1",
            "display_aspect_ratio": "16:9",
            "pix_fmt": "yuv420p",
            "level": 41,
            "chroma_location": "left",
            "field_order": "progressive",
            "refs": 1,
            "is_avc": "false",
            "nal_length_size": "0",
            "r_frame_rate": "25/1",
            "avg_frame_rate": "25/1",
            "time_base": "1/25",
            "start_pts": 0,
            "start_time": "0.000000",
            "duration_ts": 752,
            "duration": "30.080000",
            "bit_rate": "11841634",
            "bits_per_raw_sample": "8",
            "nb_frames": "752",
            "extradata_size": 34
        }
    ]
}
    "#;
    let expected_video_only: HashSet<StreamType> = [StreamType::Video(VideoStream {
        codec_name: "h264".into(),
        width: 1280,
        height: 720,
        bitrate: Some(11841634),
        rotation: None,
        duration_ms: Some(30080),
        avg_frame_rate: Some((25, 1)),
    })]
    .into_iter()
    .collect();
    let parsed_video_only: HashSet<_> =
        parse_ffprobe_output(output_video_only.as_bytes()).unwrap()
            .into_iter()
            .collect();
    assert_eq!(parsed_video_only, expected_video_only);

    // make sure we don't choke on unexpected codec_type values
    let output_video_and_unknown = r#"
{
    "streams": [
        {
            "index": 0,
            "codec_name": "h264",
            "codec_long_name": "H.264 / AVC / MPEG-4 AVC / MPEG-4 part 10",
            "profile": "Constrained Baseline",
            "codec_type": "video",
            "codec_tag_string": "H264",
            "codec_tag": "0x34363248",
            "width": 1280,
            "height": 720,
            "coded_width": 1280,
            "coded_height": 720,
            "closed_captions": 0,
            "film_grain": 0,
            "has_b_frames": 0,
            "sample_aspect_ratio": "1:1",
            "display_aspect_ratio": "16:9",
            "pix_fmt": "yuv420p",
            "level": 41,
            "chroma_location": "left",
            "field_order": "progressive",
            "refs": 1,
            "is_avc": "false",
            "nal_length_size": "0",
            "r_frame_rate": "25/1",
            "avg_frame_rate": "25/1",
            "time_base": "1/25",
            "start_pts": 0,
            "start_time": "0.000000",
            "duration_ts": 752,
            "duration": "30.080000",
            "bit_rate": "11841634",
            "bits_per_raw_sample": "8",
            "nb_frames": "752",
            "extradata_size": 34
        },
        {
            "index": 1,
            "codec_type": "couldbeanythingreally"
        }
    ]
}
    "#;
    let parsed_video_and_unknown: HashSet<_> =
        parse_ffprobe_output(output_video_and_unknown.as_bytes()).unwrap()
            .into_iter()
            .collect();
    assert_eq!(parsed_video_and_unknown, expected_video_only);
}

#[test]
fn ffprobe_parse_iphone_motion_photo_mov() {
    let output = r#"
{
"streams": [
        {
            "index": 0,
            "codec_name": "hevc",
            "codec_long_name": "H.265 / HEVC (High Efficiency Video Coding)",
            "profile": "Main",
            "codec_type": "video",
            "codec_tag_string": "hvc1",
            "codec_tag": "0x31637668",
            "width": 1920,
            "height": 1440,
            "coded_width": 1920,
            "coded_height": 1440,
            "has_b_frames": 2,
            "pix_fmt": "yuvj420p",
            "level": 150,
            "color_range": "pc",
            "color_space": "smpte170m",
            "color_transfer": "bt709",
            "color_primaries": "smpte432",
            "chroma_location": "left",
            "view_ids_available": "",
            "view_pos_available": "",
            "id": "0x1",
            "r_frame_rate": "240/1",
            "avg_frame_rate": "11600/401",
            "time_base": "1/600",
            "start_pts": 0,
            "start_time": "0.000000",
            "duration_ts": 1203,
            "duration": "2.005000",
            "bit_rate": "14850437",
            "nb_frames": "58",
            "extradata_size": 104,
            "disposition": {
                "default": 1,
                "dub": 0,
                "original": 0,
                "comment": 0,
                "lyrics": 0,
                "karaoke": 0,
                "forced": 0,
                "hearing_impaired": 0,
                "visual_impaired": 0,
                "clean_effects": 0,
                "attached_pic": 0,
                "timed_thumbnails": 0,
                "non_diegetic": 0,
                "captions": 0,
                "descriptions": 0,
                "metadata": 0,
                "dependent": 0,
                "still_image": 0,
                "multilayer": 0
            },
            "tags": {
                "creation_time": "2024-09-06T16:08:07.000000Z",
                "language": "und",
                "handler_name": "Core Media Video",
                "vendor_id": "[0][0][0][0]",
                "encoder": "HEVC"
            },
            "side_data_list": [
                {
                    "side_data_type": "Frame Cropping",
                    "crop_top": 66,
                    "crop_bottom": 66,
                    "crop_left": 88,
                    "crop_right": 88
                },
                {
                    "side_data_type": "Display Matrix",
                    "displaymatrix": "\n00000000:            0       65536           0\n00000001:       -65536           0           0\n00000002:     94371840           0  1073741824\n",
                    "rotation": -90
                }
            ]
        },
        {
            "index": 1,
            "codec_name": "pcm_s16le",
            "codec_long_name": "PCM signed 16-bit little-endian",
            "codec_type": "audio",
            "codec_tag_string": "lpcm",
            "codec_tag": "0x6d63706c",
            "sample_fmt": "s16",
            "sample_rate": "44100",
            "channels": 1,
            "bits_per_sample": 16,
            "initial_padding": 0,
            "id": "0x2",
            "r_frame_rate": "0/0",
            "avg_frame_rate": "0/0",
            "time_base": "1/44100",
            "start_pts": 0,
            "start_time": "0.000000",
            "duration_ts": 88421,
            "duration": "2.005011",
            "bit_rate": "705600",
            "nb_frames": "88445",
            "disposition": {
                "default": 1,
                "dub": 0,
                "original": 0,
                "comment": 0,
                "lyrics": 0,
                "karaoke": 0,
                "forced": 0,
                "hearing_impaired": 0,
                "visual_impaired": 0,
                "clean_effects": 0,
                "attached_pic": 0,
                "timed_thumbnails": 0,
                "non_diegetic": 0,
                "captions": 0,
                "descriptions": 0,
                "metadata": 0,
                "dependent": 0,
                "still_image": 0,
                "multilayer": 0
            },
            "tags": {
                "creation_time": "2024-09-06T16:08:07.000000Z",
                "language": "und",
                "handler_name": "Core Media Audio",
                "vendor_id": "[0][0][0][0]"
            }
        },
        {
            "index": 2,
            "codec_type": "data",
            "codec_tag_string": "mebx",
            "codec_tag": "0x7862656d",
            "id": "0x3",
            "r_frame_rate": "0/0",
            "avg_frame_rate": "0/0",
            "time_base": "1/600",
            "start_pts": 0,
            "start_time": "0.000000",
            "duration_ts": 1203,
            "duration": "2.005000",
            "bit_rate": "39",
            "nb_frames": "1",
            "disposition": {
                "default": 1,
                "dub": 0,
                "original": 0,
                "comment": 0,
                "lyrics": 0,
                "karaoke": 0,
                "forced": 0,
                "hearing_impaired": 0,
                "visual_impaired": 0,
                "clean_effects": 0,
                "attached_pic": 0,
                "timed_thumbnails": 0,
                "non_diegetic": 0,
                "captions": 0,
                "descriptions": 0,
                "metadata": 0,
                "dependent": 0,
                "still_image": 0,
                "multilayer": 0
            },
            "tags": {
                "creation_time": "2024-09-06T16:08:07.000000Z",
                "language": "und",
                "handler_name": "Core Media Metadata"
            }
        },
        {
            "index": 3,
            "codec_type": "data",
            "codec_tag_string": "mebx",
            "codec_tag": "0x7862656d",
            "id": "0x4",
            "r_frame_rate": "0/0",
            "avg_frame_rate": "0/0",
            "time_base": "1/600",
            "start_pts": 0,
            "start_time": "0.000000",
            "duration_ts": 1203,
            "duration": "2.005000",
            "bit_rate": "34856",
            "nb_frames": "58",
            "disposition": {
                "default": 1,
                "dub": 0,
                "original": 0,
                "comment": 0,
                "lyrics": 0,
                "karaoke": 0,
                "forced": 0,
                "hearing_impaired": 0,
                "visual_impaired": 0,
                "clean_effects": 0,
                "attached_pic": 0,
                "timed_thumbnails": 0,
                "non_diegetic": 0,
                "captions": 0,
                "descriptions": 0,
                "metadata": 0,
                "dependent": 0,
                "still_image": 0,
                "multilayer": 0
            },
            "tags": {
                "creation_time": "2024-09-06T16:08:07.000000Z",
                "language": "und",
                "handler_name": "Core Media Metadata"
            }
        },
        {
            "index": 4,
            "codec_type": "data",
            "codec_tag_string": "mebx",
            "codec_tag": "0x7862656d",
            "id": "0x5",
            "r_frame_rate": "0/0",
            "avg_frame_rate": "0/0",
            "time_base": "1/600",
            "start_pts": 820,
            "start_time": "1.366667",
            "duration_ts": 1,
            "duration": "0.001667",
            "bit_rate": "504000",
            "nb_frames": "1",
            "disposition": {
                "default": 1,
                "dub": 0,
                "original": 0,
                "comment": 0,
                "lyrics": 0,
                "karaoke": 0,
                "forced": 0,
                "hearing_impaired": 0,
                "visual_impaired": 0,
                "clean_effects": 0,
                "attached_pic": 0,
                "timed_thumbnails": 0,
                "non_diegetic": 0,
                "captions": 0,
                "descriptions": 0,
                "metadata": 0,
                "dependent": 0,
                "still_image": 0,
                "multilayer": 0
            },
            "tags": {
                "creation_time": "2024-09-06T16:08:07.000000Z",
                "language": "und",
                "handler_name": "Core Media Metadata"
            }
        }
    ]
}
"#;
    let expected: HashSet<StreamType> = [
        StreamType::Video(VideoStream {
            codec_name: "hevc".into(),
            width: 1920,
            height: 1440,
            bitrate: Some(14850437),
            rotation: Some(-90),
            duration_ms: Some(2005),
            avg_frame_rate: Some((11600, 401)),
        }),
        StreamType::Audio(AudioStream {
            codec_name: "pcm_s16le".into(),
            sample_rate: 44100,
            bitrate: Some(705600),
            channels: 1,
        }),
    ]
    .into_iter()
    .collect();
    let parsed: HashSet<_> = parse_ffprobe_output(output.as_bytes()).unwrap()
        .into_iter()
        .collect();
    assert_eq!(parsed, expected);
}

#[test]
fn ffprobe_parse_mpeg2_mod() {
    let output = r#"
{
"streams": [
        {
            "index": 0,
            "codec_name": "mpeg2video",
            "codec_long_name": "MPEG-2 video",
            "profile": "Main",
            "codec_type": "video",
            "codec_tag_string": "[0][0][0][0]",
            "codec_tag": "0x0000",
            "width": 720,
            "height": 576,
            "coded_width": 0,
            "coded_height": 0,
            "has_b_frames": 1,
            "sample_aspect_ratio": "64:45",
            "display_aspect_ratio": "16:9",
            "pix_fmt": "yuv420p",
            "level": 8,
            "color_range": "tv",
            "color_space": "bt470bg",
            "color_transfer": "bt470bg",
            "color_primaries": "bt470bg",
            "chroma_location": "left",
            "field_order": "tt",
            "id": "0x1e0",
            "r_frame_rate": "25/1",
            "avg_frame_rate": "25/1",
            "time_base": "1/90000",
            "start_pts": 30800,
            "start_time": "0.342222",
            "duration_ts": 17532000,
            "duration": "194.800000",
            "extradata_size": 98,
            "disposition": {
                "default": 0,
                "dub": 0,
                "original": 0,
                "comment": 0,
                "lyrics": 0,
                "karaoke": 0,
                "forced": 0,
                "hearing_impaired": 0,
                "visual_impaired": 0,
                "clean_effects": 0,
                "attached_pic": 0,
                "timed_thumbnails": 0,
                "non_diegetic": 0,
                "captions": 0,
                "descriptions": 0,
                "metadata": 0,
                "dependent": 0,
                "still_image": 0,
                "multilayer": 0
            },
            "side_data_list": [
                {
                    "side_data_type": "CPB properties",
                    "max_bitrate": 9286000,
                    "min_bitrate": 0,
                    "avg_bitrate": 0,
                    "buffer_size": 1835008,
                    "vbv_delay": -1
                }
            ]
        },
        {
            "index": 1,
            "codec_name": "mp2",
            "codec_long_name": "MP2 (MPEG audio layer 2)",
            "codec_type": "audio",
            "codec_tag_string": "[0][0][0][0]",
            "codec_tag": "0x0000",
            "mime_codec_string": "mp4a.40.33",
            "sample_fmt": "s16p",
            "sample_rate": "48000",
            "channels": 2,
            "channel_layout": "stereo",
            "bits_per_sample": 0,
            "initial_padding": 0,
            "id": "0x1c0",
            "r_frame_rate": "0/0",
            "avg_frame_rate": "0/0",
            "time_base": "1/90000",
            "start_pts": 23600,
            "start_time": "0.262222",
            "duration_ts": 17539200,
            "duration": "194.880000",
            "bit_rate": "256000",
            "disposition": {
                "default": 0,
                "dub": 0,
                "original": 0,
                "comment": 0,
                "lyrics": 0,
                "karaoke": 0,
                "forced": 0,
                "hearing_impaired": 0,
                "visual_impaired": 0,
                "clean_effects": 0,
                "attached_pic": 0,
                "timed_thumbnails": 0,
                "non_diegetic": 0,
                "captions": 0,
                "descriptions": 0,
                "metadata": 0,
                "dependent": 0,
                "still_image": 0,
                "multilayer": 0
            }
        }
    ]
}"#;
    let expected: HashSet<StreamType> = [
        StreamType::Video(VideoStream {
            codec_name: "mpeg2video".into(),
            width: 720,
            height: 576,
            bitrate: None,
            rotation: None,
            duration_ms: Some(194800),
            avg_frame_rate: Some((25, 1)),
        }),
        StreamType::Audio(AudioStream {
            codec_name: "mp2".into(),
            sample_rate: 48000,
            bitrate: Some(256000),
            channels: 2,
        }),
    ]
    .into_iter()
    .collect();
    let parsed: HashSet<_> = parse_ffprobe_output(output.as_bytes()).unwrap()
        .into_iter()
        .collect();
    assert_eq!(parsed, expected);
}
