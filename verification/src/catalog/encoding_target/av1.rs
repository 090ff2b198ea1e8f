//! AV1 (SVT-AV1) encoding parameters.
use vstd::prelude::*;

use super::OutOfRange;

verus! {

/// Constant rate factor, 0 to 63.
#[derive(Debug, Clone, Copy, PartialEq, Eq, Structural)]
pub struct Crf(u8);

/// Speed preset, 0 (slowest) to 13 (fastest).
#[derive(Debug, Clone, Copy, PartialEq, Eq, Structural)]
pub struct Preset(u8);

/// Fast-decode level, 0 to 2.
#[derive(Debug, Clone, Copy, PartialEq, Eq, Structural)]
pub struct FastDecode(u8);

impl View for Crf {
    type V = int;

    closed spec fn view(&self) -> int {
        self.0 as int
    }
}

impl View for Preset {
    type V = int;

    closed spec fn view(&self) -> int {
        self.0 as int
    }
}

impl View for FastDecode {
    type V = int;

    closed spec fn view(&self) -> int {
        self.0 as int
    }
}

impl vstd::std_specs::convert::TryFromSpecImpl<i32> for Crf {
    open spec fn obeys_try_from_spec() -> bool {
        true
    }

    closed spec fn try_from_spec(value: i32) -> Result<Self, OutOfRange> {
        if 0 <= value <= 63 {
            Ok(Crf(value as u8))
        } else {
            Err(OutOfRange(value))
        }
    }
}

impl TryFrom<i32> for Crf {
    type Error = OutOfRange;

    fn try_from(value: i32) -> (r: Result<Self, Self::Error>)
        ensures
            0 <= value <= 63 ==> (r matches Ok(c) && c@ == value),
            !(0 <= value <= 63) ==> r == Err::<Self, OutOfRange>(OutOfRange(value)),
    {
        if 0 <= value && value <= 63 {
            Ok(Crf(value as u8))
        } else {
            Err(OutOfRange(value))
        }
    }
}

impl vstd::std_specs::convert::TryFromSpecImpl<i32> for Preset {
    open spec fn obeys_try_from_spec() -> bool {
        true
    }

    closed spec fn try_from_spec(value: i32) -> Result<Self, OutOfRange> {
        if 0 <= value <= 13 {
            Ok(Preset(value as u8))
        } else {
            Err(OutOfRange(value))
        }
    }
}

impl TryFrom<i32> for Preset {
    type Error = OutOfRange;

    fn try_from(value: i32) -> (r: Result<Self, Self::Error>)
        ensures
            0 <= value <= 13 ==> (r matches Ok(p) && p@ == value),
            !(0 <= value <= 13) ==> r == Err::<Self, OutOfRange>(OutOfRange(value)),
    {
        if 0 <= value && value <= 13 {
            Ok(Preset(value as u8))
        } else {
            Err(OutOfRange(value))
        }
    }
}

impl vstd::std_specs::convert::TryFromSpecImpl<i32> for FastDecode {
    open spec fn obeys_try_from_spec() -> bool {
        true
    }

    closed spec fn try_from_spec(value: i32) -> Result<Self, OutOfRange> {
        if 0 <= value <= 2 {
            Ok(FastDecode(value as u8))
        } else {
            Err(OutOfRange(value))
        }
    }
}

impl TryFrom<i32> for FastDecode {
    type Error = OutOfRange;

    fn try_from(value: i32) -> (r: Result<Self, Self::Error>)
        ensures
            0 <= value <= 2 ==> (r matches Ok(f) && f@ == value),
            !(0 <= value <= 2) ==> r == Err::<Self, OutOfRange>(OutOfRange(value)),
    {
        if 0 <= value && value <= 2 {
            Ok(FastDecode(value as u8))
        } else {
            Err(OutOfRange(value))
        }
    }
}

impl Default for Crf {
    fn default() -> (c: Self)
        ensures
            c@ == 35,
    {
        Crf(35)
    }
}

impl Crf {
    #[verifier::type_invariant]
    spec fn in_range(self) -> bool {
        self.0 <= 63
    }

    /// The rate factor.
    pub fn crf(&self) -> (v: u8)
        ensures
            v == self@,
            v <= 63,
    {
        proof {
            use_type_invariant(self);
        }
        self.0
    }
}

impl Preset {
    #[verifier::type_invariant]
    spec fn in_range(self) -> bool {
        self.0 <= 13
    }

    /// The preset number.
    pub fn preset(&self) -> (v: u8)
        ensures
            v == self@,
            v <= 13,
    {
        proof {
            use_type_invariant(self);
        }
        self.0
    }
}

impl FastDecode {
    #[verifier::type_invariant]
    spec fn in_range(self) -> bool {
        self.0 <= 2
    }

    /// The fast-decode level.
    pub fn fast_decode(&self) -> (v: u8)
        ensures
            v == self@,
            v <= 2,
    {
        proof {
            use_type_invariant(self);
        }
        self.0
    }
}

/// Parameters of an AV1 encoding.
#[derive(Debug, Clone, Copy, PartialEq, Eq, Structural)]
pub struct AV1Target {
    pub crf: Crf,
    pub fast_decode: Option<FastDecode>,
    pub preset: Option<Preset>,
    pub max_bitrate: Option<u64>,
}

impl Default for AV1Target {
    fn default() -> (t: Self)
        ensures
            t.crf@ == 35,
            t.fast_decode is None,
            t.preset is None,
            t.max_bitrate is None,
    {
        AV1Target { crf: Crf::default(), fast_decode: None, preset: None, max_bitrate: None }
    }
}

} // verus!
