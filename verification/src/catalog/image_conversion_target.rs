//! Image formats that image representations are converted to.
use vstd::prelude::*;

pub mod heif;
pub mod jpeg;

verus! {

/// Format, with its parameters, of an image representation.
#[derive(Debug, Clone, Copy, PartialEq, Eq, Hash, Structural)]
pub enum ImageFormatTarget {
    AVIF(heif::AvifTarget),
    JPEG(jpeg::JpegTarget),
    WEBP,
}

/// Name of an image format, as stored with a representation.
pub open spec fn format_name_spec(f: ImageFormatTarget) -> Seq<char> {
    match f {
        ImageFormatTarget::AVIF(_) => "avif"@,
        ImageFormatTarget::JPEG(_) => "jpeg"@,
        ImageFormatTarget::WEBP => "webp"@,
    }
}

/// File extension of an image format.
pub open spec fn file_extension_spec(f: ImageFormatTarget) -> Seq<char> {
    match f {
        ImageFormatTarget::AVIF(_) => "avif"@,
        ImageFormatTarget::JPEG(_) => "jpg"@,
        ImageFormatTarget::WEBP => "webp"@,
    }
}

/// Name of an image format, as stored with a representation.
pub fn image_format_name(format_target: &ImageFormatTarget) -> (s: &'static str)
    ensures
        s@ == format_name_spec(*format_target),
{
    match format_target {
        ImageFormatTarget::AVIF(_) => "avif",
        ImageFormatTarget::JPEG(_) => "jpeg",
        ImageFormatTarget::WEBP => "webp",
    }
}

/// File extension of an image format.
pub fn image_file_extension(target: &ImageFormatTarget) -> (s: &'static str)
    ensures
        s@ == file_extension_spec(*target),
{
    match target {
        ImageFormatTarget::JPEG(_) => "jpg",
        ImageFormatTarget::AVIF(_) => "avif",
        ImageFormatTarget::WEBP => "webp",
    }
}

} // verus!
