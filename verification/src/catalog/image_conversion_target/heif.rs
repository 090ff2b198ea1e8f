//! HEIF (AVIF) encoding parameters of an image representation.
use vstd::prelude::*;

use crate::catalog::encoding_target::OutOfRange;

verus! {

/// Bits per colour channel.
#[derive(Debug, Clone, Copy, PartialEq, Eq, Hash, Structural)]
pub enum BitDepth {
    Eight,
    Ten,
    Twelve,
}

/// Compression inside the HEIF container.
#[derive(Debug, Clone, Copy, PartialEq, Eq, Hash, Structural)]
pub enum Compression {
    HEVC,
    AVC,
    JPEG,
    AV1,
}

/// HEIF quality factor, 1 to 100.
#[derive(Debug, Clone, Copy, PartialEq, Eq, Hash, Structural)]
pub struct QualityFactor(i32);

/// Encoder effort, 0 to 9.
#[derive(Debug, Clone, Copy, PartialEq, Eq, Hash, Structural)]
pub struct Effort(i32);

impl View for QualityFactor {
    type V = int;

    closed spec fn view(&self) -> int {
        self.0 as int
    }
}

impl View for Effort {
    type V = int;

    closed spec fn view(&self) -> int {
        self.0 as int
    }
}

impl QualityFactor {
    #[verifier::type_invariant]
    spec fn in_range(self) -> bool {
        1 <= self.0 <= 100
    }

    /// The quality factor, which lies in `1..=100`.
    pub fn value(&self) -> (v: i32)
        ensures
            v == self@,
            1 <= v <= 100,
    {
        proof {
            use_type_invariant(self);
        }
        self.0
    }
}

impl Effort {
    #[verifier::type_invariant]
    spec fn in_range(self) -> bool {
        0 <= self.0 <= 9
    }

    /// The effort, which lies in `0..=9`.
    pub fn value(&self) -> (v: i32)
        ensures
            v == self@,
            0 <= v <= 9,
    {
        proof {
            use_type_invariant(self);
        }
        self.0
    }
}

impl vstd::std_specs::convert::TryFromSpecImpl<i32> for QualityFactor {
    open spec fn obeys_try_from_spec() -> bool {
        true
    }

    closed spec fn try_from_spec(value: i32) -> Result<Self, OutOfRange> {
        if 1 <= value <= 100 {
            Ok(QualityFactor(value))
        } else {
            Err(OutOfRange(value))
        }
    }
}

impl TryFrom<i32> for QualityFactor {
    type Error = OutOfRange;

    fn try_from(value: i32) -> (r: Result<Self, Self::Error>)
        ensures
            1 <= value <= 100 ==> (r matches Ok(q) && q@ == value),
            !(1 <= value <= 100) ==> r == Err::<Self, OutOfRange>(OutOfRange(value)),
    {
        if 1 <= value && value <= 100 {
            Ok(QualityFactor(value))
        } else {
            Err(OutOfRange(value))
        }
    }
}

impl vstd::std_specs::convert::FromSpecImpl<QualityFactor> for i32 {
    open spec fn obeys_from_spec() -> bool {
        true
    }

    closed spec fn from_spec(v: QualityFactor) -> i32 {
        v.0
    }
}

impl From<QualityFactor> for i32 {
    fn from(val: QualityFactor) -> (r: i32)
        ensures
            r == val@,
    {
        val.0
    }
}

impl Default for QualityFactor {
    fn default() -> (q: Self)
        ensures
            q@ == 50,
    {
        QualityFactor(50)
    }
}

impl vstd::std_specs::convert::TryFromSpecImpl<i32> for Effort {
    open spec fn obeys_try_from_spec() -> bool {
        true
    }

    closed spec fn try_from_spec(value: i32) -> Result<Self, OutOfRange> {
        if 0 <= value <= 9 {
            Ok(Effort(value))
        } else {
            Err(OutOfRange(value))
        }
    }
}

impl TryFrom<i32> for Effort {
    type Error = OutOfRange;

    fn try_from(value: i32) -> (r: Result<Self, Self::Error>)
        ensures
            0 <= value <= 9 ==> (r matches Ok(e) && e@ == value),
            !(0 <= value <= 9) ==> r == Err::<Self, OutOfRange>(OutOfRange(value)),
    {
        if 0 <= value && value <= 9 {
            Ok(Effort(value))
        } else {
            Err(OutOfRange(value))
        }
    }
}

impl vstd::std_specs::convert::FromSpecImpl<Effort> for i32 {
    open spec fn obeys_from_spec() -> bool {
        true
    }

    closed spec fn from_spec(v: Effort) -> i32 {
        v.0
    }
}

impl From<Effort> for i32 {
    fn from(val: Effort) -> (r: i32)
        ensures
            r == val@,
    {
        val.0
    }
}

impl Default for Effort {
    fn default() -> (e: Self)
        ensures
            e@ == 7,
    {
        Effort(7)
    }
}

/// Parameters of an AVIF encoding.
#[derive(Debug, Clone, Copy, PartialEq, Eq, Hash, Structural)]
pub struct AvifTarget {
    pub quality: QualityFactor,
    pub lossless: bool,
    pub bit_depth: BitDepth,
    pub compression: Compression,
    pub effort: Effort,
}

impl Default for AvifTarget {
    fn default() -> (t: Self)
        ensures
            t.quality@ == 50,
            !t.lossless,
            t.bit_depth == BitDepth::Eight,
            t.compression == Compression::AV1,
            t.effort@ == 7,
    {
        AvifTarget {
            quality: QualityFactor::default(),
            lossless: false,
            bit_depth: BitDepth::Eight,
            compression: Compression::AV1,
            effort: Effort::default(),
        }
    }
}

/// Save parameters of a HEIF image as the image library takes them.
#[derive(Debug, Clone, Copy, PartialEq, Eq, Hash, Structural)]
pub struct HeifSaveParams {
    pub quality: i32,
    pub lossless: i32,
    pub bit_depth: i32,
    pub compression: i32,
}

/// Number of bits per channel.
pub open spec fn bit_depth_bits(b: BitDepth) -> int {
    match b {
        BitDepth::Eight => 8,
        BitDepth::Ten => 10,
        BitDepth::Twelve => 12,
    }
}

/// Code of a compression as the image library takes it.
pub open spec fn compression_code(c: Compression) -> int {
    match c {
        Compression::HEVC => 1,
        Compression::AVC => 2,
        Compression::JPEG => 3,
        Compression::AV1 => 4,
    }
}

/// The save parameters of an AVIF target.
pub fn to_wrapper_heif_params(t: &AvifTarget) -> (p: HeifSaveParams)
    ensures
        p.quality == t.quality@,
        p.lossless == (if t.lossless { 1int } else { 0int }),
        p.bit_depth == bit_depth_bits(t.bit_depth),
        p.compression == compression_code(t.compression),
{
    HeifSaveParams {
        quality: i32::from(t.quality),
        lossless: if t.lossless { 1 } else { 0 },
        bit_depth: match t.bit_depth {
            BitDepth::Eight => 8,
            BitDepth::Ten => 10,
            BitDepth::Twelve => 12,
        },
        compression: match t.compression {
            Compression::HEVC => 1,
            Compression::AVC => 2,
            Compression::JPEG => 3,
            Compression::AV1 => 4,
        },
    }
}

} // verus!
