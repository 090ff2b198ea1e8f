//! Parameters of thumbnail creation by the image library.
use vstd::prelude::*;

use crate::model::Size;

verus! {

/// The size of a thumbnail: a width keeping the aspect ratio, or a crop to width x height.
#[derive(Debug, Clone, Copy, PartialEq, Eq, Structural)]
pub enum OutDimension {
    KeepAspect { width: i32 },
    Crop { width: i32, height: i32 },
}

/// What a thumbnail creation reports back: the size the thumbnail got.
#[derive(Debug, Clone, Copy, PartialEq, Eq, Structural)]
pub struct VipsThumbailResult {
    pub actual_size: Size,
}

/// The width, height and aspect flag the image library takes for a thumbnail size: a height
/// of 0 when the aspect ratio is kept.
pub open spec fn thumbnail_dimension_spec(d: OutDimension) -> (i32, i32, bool) {
    match d {
        OutDimension::KeepAspect { width } => (width, 0, true),
        OutDimension::Crop { width, height } => (width, height, false),
    }
}

/// The width, height and aspect flag the image library takes for a thumbnail size.
pub fn thumbnail_dimension(d: OutDimension) -> (r: (i32, i32, bool))
    ensures
        r == thumbnail_dimension_spec(d),
{
    match d {
        OutDimension::KeepAspect { width } => (width, 0, true),
        OutDimension::Crop { width, height } => (width, height, false),
    }
}

} // verus!
