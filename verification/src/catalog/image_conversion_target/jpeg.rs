//! JPEG encoding parameters of an image representation.
use vstd::prelude::*;

use crate::catalog::encoding_target::OutOfRange;

verus! {

/// JPEG quality factor, 1 to 100.
#[derive(Debug, Clone, Copy, PartialEq, Eq, Hash, Structural)]
pub struct QualityFactor(i32);

impl View for QualityFactor {
    type V = int;

    closed spec fn view(&self) -> int {
        self.0 as int
    }
}

impl QualityFactor {
    #[verifier::type_invariant]
    spec fn in_range(self) -> bool {
        1 <= self.0 <= 100
    }

    /// The quality factor, which lies in `1..=100`.
    pub fn value(&self) -> (v: i32)
        ensures
            v == self@,
            1 <= v <= 100,
    {
        proof {
            use_type_invariant(self);
        }
        self.0
    }
}

impl vstd::std_specs::convert::TryFromSpecImpl<i32> for QualityFactor {
    open spec fn obeys_try_from_spec() -> bool {
        true
    }

    closed spec fn try_from_spec(value: i32) -> Result<Self, OutOfRange> {
        if 1 <= value <= 100 {
            Ok(QualityFactor(value))
        } else {
            Err(OutOfRange(value))
        }
    }
}

impl TryFrom<i32> for QualityFactor {
    type Error = OutOfRange;

    fn try_from(value: i32) -> (r: Result<Self, Self::Error>)
        ensures
            1 <= value <= 100 ==> (r matches Ok(q) && q@ == value),
            !(1 <= value <= 100) ==> r == Err::<Self, OutOfRange>(OutOfRange(value)),
    {
        if 1 <= value && value <= 100 {
            Ok(QualityFactor(value))
        } else {
            Err(OutOfRange(value))
        }
    }
}

impl vstd::std_specs::convert::FromSpecImpl<QualityFactor> for i32 {
    open spec fn obeys_from_spec() -> bool {
        true
    }

    closed spec fn from_spec(v: QualityFactor) -> i32 {
        v.0
    }
}

impl From<QualityFactor> for i32 {
    fn from(val: QualityFactor) -> (r: i32)
        ensures
            r == val@,
    {
        val.0
    }
}

impl Default for QualityFactor {
    fn default() -> (q: Self)
        ensures
            q@ == 75,
    {
        QualityFactor(75)
    }
}

/// Parameters of a JPEG encoding.
#[derive(Debug, Clone, Copy, PartialEq, Eq, Hash, Structural)]
pub struct JpegTarget {
    pub quality: QualityFactor,
}

impl Default for JpegTarget {
    fn default() -> (t: Self)
        ensures
            t.quality@ == 75,
    {
        JpegTarget { quality: QualityFactor::default() }
    }
}

/// Save parameters of a JPEG image as the image library takes them.
#[derive(Debug, Clone, Copy, PartialEq, Eq, Hash, Structural)]
pub struct JpegSaveParams {
    pub quality: i32,
}

/// The save parameters of a JPEG target.
pub fn to_wrapper_jpeg_params(t: &JpegTarget) -> (p: JpegSaveParams)
    ensures
        p.quality == t.quality@,
{
    JpegSaveParams { quality: i32::from(t.quality) }
}

} // verus!
