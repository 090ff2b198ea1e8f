//! FFmpeg command line flags for encoding targets.
use vstd::prelude::*;

use crate::catalog::encoding_target::avc::{preset_name, tune_name};
use crate::catalog::encoding_target::{AudioEncodingTarget, CodecTarget, Scale, VideoEncodingTarget};
use crate::text::{int_decimal, nat_decimal, write_i64, write_u64};

verus! {

/// The characters of each string, in order.
pub open spec fn strs(v: Seq<String>) -> Seq<Seq<char>> {
    v.map_values(|s: String| s@)
}

/// Flags that force a keyframe every `i` frames (H.264).
pub open spec fn avc_keyframe_flags(i: i32) -> Seq<Seq<char>> {
    seq![
        "-g"@,
        int_decimal(i as int),
        "-keyint_min"@,
        int_decimal(i as int),
        "-force_key_frames"@,
        "expr:gte(t,n_forced*"@ + int_decimal(i as int) + ")"@,
        "-sc_threshold"@,
        "0"@,
    ]
}

/// Flags that set the keyframe interval to `i` frames (AV1).
pub open spec fn av1_keyframe_flags(i: i32) -> Seq<Seq<char>> {
    seq!["-g"@, int_decimal(i as int), "-keyint_min"@, int_decimal(i as int)]
}

/// The flags of an optional value: `f(v)` for `Some(v)`, nothing for `None`.
pub open spec fn opt_flags<T>(o: Option<T>, f: spec_fn(T) -> Seq<Seq<char>>) -> Seq<Seq<char>> {
    match o {
        Some(v) => f(v),
        None => Seq::empty(),
    }
}

/// Codec flags of a video encoding.
pub open spec fn codec_flags(t: VideoEncodingTarget) -> Seq<Seq<char>> {
    match t.codec {
        CodecTarget::AVC(a) => seq![
            "-c:v"@,
            "libx264"@,
            "-crf"@,
            nat_decimal(a.crf@ as nat),
            "-preset"@,
            preset_name(a.preset),
        ] + opt_flags(t.force_keyframe_interval, |i: i32| avc_keyframe_flags(i)) + opt_flags(
            a.tune,
            |tu| seq!["-tune"@, tune_name(tu)],
        ) + opt_flags(a.max_bitrate, |b: u64| seq!["-maxrate"@, nat_decimal(b as nat)]),
        CodecTarget::AV1(a) => seq!["-c:v"@, "libsvtav1"@, "-crf"@, nat_decimal(a.crf@ as nat)]
            + opt_flags(a.preset, |p: crate::catalog::encoding_target::av1::Preset| seq!["-preset"@, nat_decimal(p@ as nat)])
            + opt_flags(a.max_bitrate, |b: u64| seq!["-maxrate"@, nat_decimal(b as nat)])
            + opt_flags(
            a.fast_decode,
            |f: crate::catalog::encoding_target::av1::FastDecode| seq!["-svtav1-params"@, "fast-decode="@ + nat_decimal(f@ as nat)],
        ) + opt_flags(t.force_keyframe_interval, |i: i32| av1_keyframe_flags(i)),
    }
}

/// Scaling flags of a video encoding (the free dimension is rounded to a multiple of 2).
pub open spec fn scale_flags(t: VideoEncodingTarget) -> Seq<Seq<char>> {
    match t.scale {
        Some(Scale::HeightKeepAspect { height }) => seq![
            "-vf"@,
            "scale=-2:"@ + int_decimal(height as int),
        ],
        Some(Scale::WidthKeepAspect { width }) => seq![
            "-vf"@,
            "scale="@ + int_decimal(width as int) + ":-2"@,
        ],
        None => Seq::empty(),
    }
}

/// All flags of a video encoding.
pub open spec fn video_flags_spec(t: VideoEncodingTarget) -> Seq<Seq<char>> {
    codec_flags(t) + scale_flags(t)
}

/// The scaling flags come last and do not depend on the codec: a height is kept as
/// `-vf scale=-2:<height>`, a width as `-vf scale=<width>:-2` (the other side following the
/// aspect ratio), and without scaling nothing follows the codec's flags. Removing the scaling
/// from a target removes exactly these two flags.
pub proof fn lemma_scale_flags_last(t: VideoEncodingTarget)
    ensures
        ({
            let f = video_flags_spec(t);
            let unscaled = video_flags_spec(VideoEncodingTarget { scale: None, ..t });
            match t.scale {
                Some(Scale::HeightKeepAspect { height }) => {
                    &&& f.len() == unscaled.len() + 2
                    &&& f.subrange(0, unscaled.len() as int) == unscaled
                    &&& f[f.len() - 2] == "-vf"@
                    &&& f[f.len() - 1] == "scale=-2:"@ + int_decimal(height as int)
                },
                Some(Scale::WidthKeepAspect { width }) => {
                    &&& f.len() == unscaled.len() + 2
                    &&& f.subrange(0, unscaled.len() as int) == unscaled
                    &&& f[f.len() - 2] == "-vf"@
                    &&& f[f.len() - 1] == "scale="@ + int_decimal(width as int) + ":-2"@
                },
                None => f == unscaled,
            }
        }),
{
    let u = VideoEncodingTarget { scale: None, ..t };
    assert(codec_flags(u) == codec_flags(t));
    assert(scale_flags(u) =~= Seq::<Seq<char>>::empty());
    assert(video_flags_spec(u) =~= codec_flags(t));
    let f = video_flags_spec(t);
    assert(f.subrange(0, codec_flags(t).len() as int) =~= codec_flags(t));
}

/// The flags start by choosing the encoder and its quality: `-c:v libx264 -crf <crf>` for
/// H.264 and `-c:v libsvtav1 -crf <crf>` for AV1.
pub proof fn lemma_video_flags_start(t: VideoEncodingTarget)
    ensures
        ({
            let f = video_flags_spec(t);
            &&& f.len() >= 4
            &&& f[0] == "-c:v"@
            &&& f[2] == "-crf"@
            &&& match t.codec {
                CodecTarget::AVC(a) => f[1] == "libx264"@ && f[3] == nat_decimal(a.crf@ as nat),
                CodecTarget::AV1(a) => f[1] == "libsvtav1"@ && f[3] == nat_decimal(a.crf@ as nat),
            }
        }),
{
}

/// The audio encoder that a target selects.
pub open spec fn audio_encoder_name(a: AudioEncodingTarget) -> Seq<char> {
    match a {
        AudioEncodingTarget::AAC => "libopus"@,
        AudioEncodingTarget::OPUS => "aac"@,
        AudioEncodingTarget::FLAC => "flac"@,
        AudioEncodingTarget::MP3 => "libmp3lame"@,
    }
}

fn push_lit(v: &mut Vec<String>, s: &str)
    ensures
        strs(final(v)@) == strs(old(v)@).push(s@),
{
    v.push(s.to_owned());
    proof {
        assert(strs(final(v)@) =~= strs(old(v)@).push(s@));
    }
}

fn push_string(v: &mut Vec<String>, s: String)
    ensures
        strs(final(v)@) == strs(old(v)@).push(s@),
{
    let ghost sv = s@;
    v.push(s);
    proof {
        assert(strs(final(v)@) =~= strs(old(v)@).push(sv));
    }
}

fn dec_u64(n: u64) -> (s: String)
    ensures
        s@ == nat_decimal(n as nat),
{
    let mut s = String::new();
    write_u64(&mut s, n);
    proof {
        assert(s@ =~= nat_decimal(n as nat));
    }
    s
}

fn dec_i32(n: i32) -> (s: String)
    ensures
        s@ == int_decimal(n as int),
{
    let mut s = String::new();
    write_i64(&mut s, n as i64);
    proof {
        assert(s@ =~= int_decimal(n as int));
    }
    s
}

fn push_avc_keyframes(f: &mut Vec<String>, interv: i32)
    ensures
        strs(final(f)@) == strs(old(f)@) + avc_keyframe_flags(interv),
{
    push_lit(f, "-g");
    push_string(f, dec_i32(interv));
    push_lit(f, "-keyint_min");
    push_string(f, dec_i32(interv));
    push_lit(f, "-force_key_frames");
    let mut e = "expr:gte(t,n_forced*".to_owned();
    write_i64(&mut e, interv as i64);
    e.append(")");
    push_string(f, e);
    push_lit(f, "-sc_threshold");
    push_lit(f, "0");
    proof {
        assert(strs(final(f)@) =~= strs(old(f)@) + avc_keyframe_flags(interv));
    }
}

fn push_av1_keyframes(f: &mut Vec<String>, interv: i32)
    ensures
        strs(final(f)@) == strs(old(f)@) + av1_keyframe_flags(interv),
{
    push_lit(f, "-g");
    push_string(f, dec_i32(interv));
    push_lit(f, "-keyint_min");
    push_string(f, dec_i32(interv));
    proof {
        assert(strs(final(f)@) =~= strs(old(f)@) + av1_keyframe_flags(interv));
    }
}

fn push_maxrate(f: &mut Vec<String>, m: Option<u64>)
    ensures
        strs(final(f)@) == strs(old(f)@) + opt_flags(m, |b: u64| seq!["-maxrate"@, nat_decimal(b as nat)]),
{
    if let Some(max_bitrate) = m {
        push_lit(f, "-maxrate");
        push_string(f, dec_u64(max_bitrate));
        proof {
            assert(strs(final(f)@) =~= strs(old(f)@) + seq!["-maxrate"@, nat_decimal(max_bitrate as nat)]);
        }
    } else {
        proof {
            assert(strs(final(f)@) =~= strs(old(f)@) + Seq::<Seq<char>>::empty());
        }
    }
}

fn avc_flags(t: &VideoEncodingTarget, a: crate::catalog::encoding_target::avc::AVCTarget) -> (f: Vec<String>)
    requires
        t.codec == CodecTarget::AVC(a),
    ensures
        strs(f@) == codec_flags(*t),
{
    let mut f: Vec<String> = Vec::new();
    push_lit(&mut f, "-c:v");
    push_lit(&mut f, "libx264");
    push_lit(&mut f, "-crf");
    push_string(&mut f, dec_u64(a.crf.crf() as u64));
    push_lit(&mut f, "-preset");
    push_lit(&mut f, a.preset.as_str());
    let ghost base = strs(f@);
    if let Some(interv) = t.force_keyframe_interval {
        push_avc_keyframes(&mut f, interv);
    } else {
        proof {
            assert(strs(f@) =~= base + Seq::<Seq<char>>::empty());
        }
    }
    let ghost base2 = strs(f@);
    if let Some(tune) = a.tune {
        push_lit(&mut f, "-tune");
        push_lit(&mut f, tune.as_str());
        proof {
            assert(strs(f@) =~= base2 + seq!["-tune"@, tune_name(tune)]);
        }
    } else {
        proof {
            assert(strs(f@) =~= base2 + Seq::<Seq<char>>::empty());
        }
    }
    push_maxrate(&mut f, a.max_bitrate);
    proof {
        assert(strs(f@) =~= codec_flags(*t));
    }
    f
}

fn av1_flags(t: &VideoEncodingTarget, a: crate::catalog::encoding_target::av1::AV1Target) -> (f: Vec<String>)
    requires
        t.codec == CodecTarget::AV1(a),
    ensures
        strs(f@) == codec_flags(*t),
{
    let mut f: Vec<String> = Vec::new();
    push_lit(&mut f, "-c:v");
    push_lit(&mut f, "libsvtav1");
    push_lit(&mut f, "-crf");
    push_string(&mut f, dec_u64(a.crf.crf() as u64));
    let ghost base = strs(f@);
    if let Some(preset) = a.preset {
        push_lit(&mut f, "-preset");
        push_string(&mut f, dec_u64(preset.preset() as u64));
        proof {
            assert(strs(f@) =~= base + seq!["-preset"@, nat_decimal(preset@ as nat)]);
        }
    } else {
        proof {
            assert(strs(f@) =~= base + Seq::<Seq<char>>::empty());
        }
    }
    push_maxrate(&mut f, a.max_bitrate);
    let ghost base3 = strs(f@);
    if let Some(fast_decode) = a.fast_decode {
        push_lit(&mut f, "-svtav1-params");
        let mut e = "fast-decode=".to_owned();
        write_u64(&mut e, fast_decode.fast_decode() as u64);
        push_string(&mut f, e);
        proof {
            assert(strs(f@) =~= base3 + seq![
                "-svtav1-params"@,
                "fast-decode="@ + nat_decimal(fast_decode@ as nat),
            ]);
        }
    } else {
        proof {
            assert(strs(f@) =~= base3 + Seq::<Seq<char>>::empty());
        }
    }
    let ghost base4 = strs(f@);
    if let Some(interv) = t.force_keyframe_interval {
        push_av1_keyframes(&mut f, interv);
    } else {
        proof {
            assert(strs(f@) =~= base4 + Seq::<Seq<char>>::empty());
        }
    }
    proof {
        assert(strs(f@) =~= codec_flags(*t));
    }
    f
}

/// The FFmpeg flags that encode video as `encoding_target` describes.
pub fn ffmpeg_video_flags(encoding_target: &VideoEncodingTarget) -> (flags: Vec<String>)
    ensures
        strs(flags@) == video_flags_spec(*encoding_target),
{
    let t = *encoding_target;
    let mut f = match t.codec {
        CodecTarget::AVC(a) => avc_flags(&t, a),
        CodecTarget::AV1(a) => av1_flags(&t, a),
    };
    let ghost codec_part = strs(f@);
    match t.scale {
        Some(Scale::HeightKeepAspect { height }) => {
            push_lit(&mut f, "-vf");
            let mut e = "scale=-2:".to_owned();
            write_i64(&mut e, height as i64);
            push_string(&mut f, e);
        },
        Some(Scale::WidthKeepAspect { width }) => {
            push_lit(&mut f, "-vf");
            let mut e = "scale=".to_owned();
            write_i64(&mut e, width as i64);
            e.append(":-2");
            push_string(&mut f, e);
        },
        None => {},
    }
    proof {
        assert(strs(f@) =~= codec_part + scale_flags(t));
    }
    f
}

/// The FFmpeg flags that encode audio as `encoding_target` describes.
pub fn ffmpeg_audio_flags(encoding_target: &AudioEncodingTarget) -> (flags: Vec<String>)
    ensures
        strs(flags@) == seq!["-c:a"@, audio_encoder_name(*encoding_target)],
{
    let mut f: Vec<String> = Vec::new();
    push_lit(&mut f, "-c:a");
    match encoding_target {
        AudioEncodingTarget::AAC => push_lit(&mut f, "libopus"),
        AudioEncodingTarget::OPUS => push_lit(&mut f, "aac"),
        AudioEncodingTarget::FLAC => push_lit(&mut f, "flac"),
        AudioEncodingTarget::MP3 => push_lit(&mut f, "libmp3lame"),
    }
    proof {
        assert(strs(f@) =~= seq!["-c:a"@, audio_encoder_name(*encoding_target)]);
    }
    f
}

} // verus!
