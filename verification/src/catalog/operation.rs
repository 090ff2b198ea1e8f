//! Operations that create derived files: image conversions and thumbnails.
use vstd::prelude::*;

use crate::catalog::image_conversion_target::ImageFormatTarget;
use crate::model::{AlbumId, FileId, ThumbnailFormat, ThumbnailType};

verus! {

/// Conversion of an image file to a representation in another format, stored under
/// `output_file_key`. The image is not scaled.
#[derive(Debug, Clone, PartialEq, Eq)]
pub struct ConvertImage {
    pub file_id: FileId,
    pub format: ImageFormatTarget,
    pub output_file_key: String,
}

/// Creation of the thumbnails of a file: each of `thumbnail_types` in each of `formats`.
#[derive(Debug, Clone, PartialEq, Eq)]
pub struct CreateAssetThumbnail {
    pub file_id: FileId,
    pub formats: Vec<ThumbnailFormat>,
    pub thumbnail_types: Vec<ThumbnailType>,
}

/// Creation of the thumbnail of an album from one of its files, `size` pixels wide.
#[derive(Debug, Clone, Copy, PartialEq, Eq, Structural)]
pub struct CreateAlbumThumbnail {
    pub album_id: AlbumId,
    pub file_id: FileId,
    pub size: i32,
}

} // verus!
