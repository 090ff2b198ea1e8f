//! H.264 (libx264) encoding parameters.
use vstd::prelude::*;

use super::OutOfRange;

verus! {

/// Speed preset of the encoder.
#[derive(Debug, Clone, Copy, PartialEq, Eq, Structural)]
pub enum Preset {
    Ultrafast,
    Superfast,
    Veryfast,
    Faster,
    Fast,
    Medium,
    Slow,
    Slower,
    Veryslow,
    Placebo,
}

/// Tuning of the encoder.
#[derive(Debug, Clone, Copy, PartialEq, Eq, Structural)]
pub enum Tune {
    Film,
    Animation,
    Grain,
    Stillimage,
    Fastdecode,
    Zerolatency,
}

/// Name of a preset as the encoder takes it.
pub open spec fn preset_name(p: Preset) -> Seq<char> {
    match p {
        Preset::Ultrafast => "ultrafast"@,
        Preset::Superfast => "superfast"@,
        Preset::Veryfast => "veryfast"@,
        Preset::Faster => "faster"@,
        Preset::Fast => "fast"@,
        Preset::Medium => "medium"@,
        Preset::Slow => "slow"@,
        Preset::Slower => "slower"@,
        Preset::Veryslow => "veryslow"@,
        Preset::Placebo => "placebo"@,
    }
}

/// Name of a tuning as the encoder takes it.
pub open spec fn tune_name(t: Tune) -> Seq<char> {
    match t {
        Tune::Film => "film"@,
        Tune::Animation => "animation"@,
        Tune::Grain => "grain"@,
        Tune::Stillimage => "stillimage"@,
        Tune::Fastdecode => "fastdecode"@,
        Tune::Zerolatency => "zerolatency"@,
    }
}

impl Preset {
    /// Name of the preset as the encoder takes it.
    pub fn as_str(&self) -> (s: &'static str)
        ensures
            s@ == preset_name(*self),
    {
        match self {
            Preset::Ultrafast => "ultrafast",
            Preset::Superfast => "superfast",
            Preset::Veryfast => "veryfast",
            Preset::Faster => "faster",
            Preset::Fast => "fast",
            Preset::Medium => "medium",
            Preset::Slow => "slow",
            Preset::Slower => "slower",
            Preset::Veryslow => "veryslow",
            Preset::Placebo => "placebo",
        }
    }
}

impl Tune {
    /// Name of the tuning as the encoder takes it.
    pub fn as_str(&self) -> (s: &'static str)
        ensures
            s@ == tune_name(*self),
    {
        match self {
            Tune::Film => "film",
            Tune::Animation => "animation",
            Tune::Grain => "grain",
            Tune::Stillimage => "stillimage",
            Tune::Fastdecode => "fastdecode",
            Tune::Zerolatency => "zerolatency",
        }
    }
}

/// Constant rate factor, 0 to 51.
#[derive(Debug, Clone, Copy, PartialEq, Eq, Structural)]
pub struct Crf(u8);

impl View for Crf {
    type V = int;

    closed spec fn view(&self) -> int {
        self.0 as int
    }
}

impl vstd::std_specs::convert::TryFromSpecImpl<i32> for Crf {
    open spec fn obeys_try_from_spec() -> bool {
        true
    }

    closed spec fn try_from_spec(value: i32) -> Result<Self, OutOfRange> {
        if 0 <= value <= 51 {
            Ok(Crf(value as u8))
        } else {
            Err(OutOfRange(value))
        }
    }
}

impl TryFrom<i32> for Crf {
    type Error = OutOfRange;

    fn try_from(value: i32) -> (r: Result<Self, Self::Error>)
        ensures
            0 <= value <= 51 ==> (r matches Ok(c) && c@ == value),
            !(0 <= value <= 51) ==> r == Err::<Self, OutOfRange>(OutOfRange(value)),
    {
        if 0 <= value && value <= 51 {
            Ok(Crf(value as u8))
        } else {
            Err(OutOfRange(value))
        }
    }
}

impl Default for Crf {
    fn default() -> (c: Self)
        ensures
            c@ == 23,
    {
        Crf(23)
    }
}

impl Crf {
    #[verifier::type_invariant]
    spec fn in_range(self) -> bool {
        self.0 <= 51
    }

    /// The rate factor.
    pub fn crf(&self) -> (v: u8)
        ensures
            v == self@,
            v <= 51,
    {
        proof {
            use_type_invariant(self);
        }
        self.0
    }
}

/// Parameters of an H.264 encoding.
#[derive(Debug, Clone, Copy, PartialEq, Eq, Structural)]
pub struct AVCTarget {
    pub preset: Preset,
    pub tune: Option<Tune>,
    pub crf: Crf,
    pub max_bitrate: Option<u64>,
}

impl Default for AVCTarget {
    fn default() -> (t: Self)
        ensures
            t.preset == Preset::Medium,
            t.tune is None,
            t.crf@ == 23,
            t.max_bitrate is None,
    {
        AVCTarget { preset: Preset::Medium, tune: None, crf: Crf::default(), max_bitrate: None }
    }
}

} // verus!
