//! Video and audio encoding targets.
use vstd::prelude::*;

pub mod av1;
pub mod avc;

verus! {

/// A value outside the range that a parameter allows.
#[derive(Debug, Clone, Copy, PartialEq, Eq, Structural)]
pub struct OutOfRange(pub i32);

/// Codec and codec parameters of a video encoding.
#[derive(Debug, Clone, Copy, PartialEq, Eq, Structural)]
pub enum CodecTarget {
    AVC(avc::AVCTarget),
    AV1(av1::AV1Target),
}

/// Scaling of a video, keeping its aspect ratio.
#[derive(Debug, Clone, Copy, PartialEq, Eq, Structural)]
pub enum Scale {
    HeightKeepAspect { height: i32 },
    WidthKeepAspect { width: i32 },
}

/// A video encoding: codec, optional scaling, optional fixed keyframe interval (frames).
#[derive(Debug, Clone, Copy, PartialEq, Eq, Structural)]
pub struct VideoEncodingTarget {
    pub codec: CodecTarget,
    pub scale: Option<Scale>,
    pub force_keyframe_interval: Option<i32>,
}

/// An audio encoding.
#[derive(Debug, Clone, Copy, PartialEq, Eq, Structural)]
pub enum AudioEncodingTarget {
    AAC,
    OPUS,
    FLAC,
    MP3,
}

/// Name of a video codec.
pub open spec fn codec_name_spec(c: CodecTarget) -> Seq<char> {
    match c {
        CodecTarget::AVC(_) => seq!['h', '2', '6', '4'],
        CodecTarget::AV1(_) => seq!['a', 'v', '1'],
    }
}

/// Name of an audio codec.
pub open spec fn audio_codec_name_spec(a: AudioEncodingTarget) -> Seq<char> {
    match a {
        AudioEncodingTarget::AAC => seq!['a', 'a', 'c'],
        AudioEncodingTarget::OPUS => seq!['o', 'p', 'u', 's'],
        AudioEncodingTarget::FLAC => seq!['f', 'l', 'a', 'c'],
        AudioEncodingTarget::MP3 => seq!['m', 'p', '3'],
    }
}

/// Name of the codec of a video encoding.
pub fn codec_name(c: &CodecTarget) -> (s: String)
    ensures
        s@ == codec_name_spec(*c),
{
    let s = match c {
        CodecTarget::AVC(_) => "h264".to_owned(),
        CodecTarget::AV1(_) => "av1".to_owned(),
    };
    proof {
        reveal_strlit("h264");
        reveal_strlit("av1");
        assert(s@ =~= codec_name_spec(*c));
    }
    s
}

/// Name of the codec of an audio encoding.
pub fn audio_codec_name(a: &AudioEncodingTarget) -> (s: String)
    ensures
        s@ == audio_codec_name_spec(*a),
{
    let s = match a {
        AudioEncodingTarget::AAC => "aac".to_owned(),
        AudioEncodingTarget::OPUS => "opus".to_owned(),
        AudioEncodingTarget::FLAC => "flac".to_owned(),
        AudioEncodingTarget::MP3 => "mp3".to_owned(),
    };
    proof {
        reveal_strlit("aac");
        reveal_strlit("opus");
        reveal_strlit("flac");
        reveal_strlit("mp3");
        assert(s@ =~= audio_codec_name_spec(*a));
    }
    s
}

} // verus!
