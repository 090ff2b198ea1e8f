//! What the image processor's jobs produce: the thumbnail files and records of a file, the
//! source of a thumbhash, and the record of a converted image.
use vstd::prelude::*;

use crate::catalog::image_conversion_target::{format_name_spec, heif, image_format_name, ImageFormatTarget};
use crate::catalog::storage_key::{thumbnail, thumbnail_key};
use crate::model::{AssetThumbnail, AssetThumbnailId, FileId, Size, ThumbnailFormat, ThumbnailType};

verus! {

/// The image format a thumbnail format is encoded with: WebP, or AVIF at quality 50 and
/// effort 7 (the other AVIF parameters at their defaults).
pub open spec fn is_thumbnail_target(format: ThumbnailFormat, target: ImageFormatTarget) -> bool {
    match format {
        ThumbnailFormat::Webp => target == ImageFormatTarget::WEBP,
        ThumbnailFormat::Avif => target matches ImageFormatTarget::AVIF(t) && t.quality@ == 50
            && t.effort@ == 7 && !t.lossless && t.bit_depth == heif::BitDepth::Eight
            && t.compression == heif::Compression::AV1,
    }
}

/// The image format a thumbnail format is encoded with.
pub fn thumbnail_target(format: ThumbnailFormat) -> (t: ImageFormatTarget)
    ensures
        is_thumbnail_target(format, t),
{
    match format {
        ThumbnailFormat::Webp => ImageFormatTarget::WEBP,
        ThumbnailFormat::Avif => ImageFormatTarget::AVIF(heif::AvifTarget::default()),
    }
}

/// A thumbnail file to write: its format, storage key and encoding.
#[derive(Debug, Clone, PartialEq, Eq)]
pub struct ThumbnailOutput {
    pub format: ThumbnailFormat,
    pub file_key: String,
    pub target: ImageFormatTarget,
}

/// The thumbnail files of kind `ty` of a file, one for each of `formats`, in order.
pub fn thumbnail_outputs(file_id: FileId, ty: ThumbnailType, formats: &Vec<ThumbnailFormat>) -> (outs: Vec<ThumbnailOutput>)
    ensures
        outs@.len() == formats@.len(),
        forall|i: int|
            0 <= i < outs@.len() ==> {
                &&& (#[trigger] outs@[i]).format == formats@[i]
                &&& outs@[i].file_key@ == thumbnail_key(file_id, ty, formats@[i])
                &&& is_thumbnail_target(formats@[i], outs@[i].target)
            },
{
    let mut outs: Vec<ThumbnailOutput> = Vec::new();
    let mut i: usize = 0;
    while i < formats.len()
        invariant
            i <= formats@.len(),
            outs@.len() == i,
            forall|k: int|
                0 <= k < i ==> {
                    &&& (#[trigger] outs@[k]).format == formats@[k]
                    &&& outs@[k].file_key@ == thumbnail_key(file_id, ty, formats@[k])
                    &&& is_thumbnail_target(formats@[k], outs@[k].target)
                },
        decreases formats@.len() - i,
    {
        let format = formats[i];
        outs.push(
            ThumbnailOutput {
                format,
                file_key: thumbnail(file_id, ty, format),
                target: thumbnail_target(format),
            },
        );
        i = i + 1;
    }
    outs
}

/// The records of the thumbnails of kind `ty` created for a file in each of `formats`, all of
/// the size the thumbnail got (their ids are assigned when stored).
pub fn thumbnail_records(file_id: FileId, ty: ThumbnailType, formats: &Vec<ThumbnailFormat>, actual_size: Size) -> (recs: Vec<AssetThumbnail>)
    ensures
        recs@.len() == formats@.len(),
        forall|i: int|
            0 <= i < recs@.len() ==> #[trigger] recs@[i] == (AssetThumbnail {
                id: AssetThumbnailId(0),
                file_id,
                ty,
                size: actual_size,
                format: formats@[i],
            }),
{
    let mut recs: Vec<AssetThumbnail> = Vec::new();
    let mut i: usize = 0;
    while i < formats.len()
        invariant
            i <= formats@.len(),
            recs@.len() == i,
            forall|k: int|
                0 <= k < i ==> #[trigger] recs@[k] == (AssetThumbnail {
                    id: AssetThumbnailId(0),
                    file_id,
                    ty,
                    size: actual_size,
                    format: formats@[k],
                }),
        decreases formats@.len() - i,
    {
        recs.push(
            AssetThumbnail {
                id: AssetThumbnailId(0),
                file_id,
                ty,
                size: actual_size,
                format: formats[i],
            },
        );
        i = i + 1;
    }
    recs
}

/// Index of the first large thumbnail among `thumbnails`, if any.
pub open spec fn first_large_thumbnail(thumbnails: Seq<AssetThumbnail>) -> Option<int>
    decreases thumbnails.len(),
{
    if thumbnails.len() == 0 {
        None
    } else {
        match first_large_thumbnail(thumbnails.drop_last()) {
            Some(k) => Some(k),
            None => if thumbnails.last().ty == ThumbnailType::LargeOrigAspect {
                Some(thumbnails.len() - 1)
            } else {
                None
            },
        }
    }
}

proof fn lemma_first_large_prefix(s: Seq<AssetThumbnail>, n: nat)
    requires
        n <= s.len(),
        first_large_thumbnail(s.subrange(0, n as int)) is Some,
    ensures
        first_large_thumbnail(s) == first_large_thumbnail(s.subrange(0, n as int)),
    decreases s.len() - n,
{
    if n < s.len() {
        let p = s.subrange(0, n + 1int);
        assert(p.drop_last() =~= s.subrange(0, n as int));
        lemma_first_large_prefix(s, n + 1);
    } else {
        assert(s.subrange(0, n as int) =~= s);
    }
}

/// The storage key of the thumbnail that the thumbhash of a video is computed from: its first
/// large thumbnail; `None` while it has none.
pub fn video_thumbhash_source(file_id: FileId, thumbnails: &Vec<AssetThumbnail>) -> (key: Option<String>)
    ensures
        match first_large_thumbnail(thumbnails@) {
            None => key is None,
            Some(k) => key matches Some(s) && s@ == thumbnail_key(
                file_id,
                thumbnails@[k].ty,
                thumbnails@[k].format,
            ),
        },
{
    let mut i: usize = 0;
    while i < thumbnails.len()
        invariant
            i <= thumbnails@.len(),
            first_large_thumbnail(thumbnails@.subrange(0, i as int)) is None,
        decreases thumbnails@.len() - i,
    {
        let ghost p = thumbnails@.subrange(0, i + 1);
        proof {
            assert(p.drop_last() =~= thumbnails@.subrange(0, i as int));
            assert(p.last() == thumbnails@[i as int]);
        }
        let t = thumbnails[i];
        if t.ty == ThumbnailType::LargeOrigAspect {
            proof {
                lemma_first_large_prefix(thumbnails@, (i + 1) as nat);
            }
            return Some(thumbnail(file_id, t.ty, t.format));
        }
        i = i + 1;
    }
    proof {
        assert(thumbnails@.subrange(0, i as int) =~= thumbnails@);
    }
    None
}

/// The record of an image representation.
#[derive(Debug, Clone, PartialEq, Eq)]
pub struct ImageRepresentation {
    pub file_id: FileId,
    pub format_name: String,
    pub file_key: String,
    pub file_size: i64,
    pub width: i32,
    pub height: i32,
}

/// The record of an image converted to `format` and stored under `file_key` with
/// `file_size` bytes: its size is the scaled size where the conversion scaled it, else the
/// original's.
pub fn converted_image_record(
    file_id: FileId,
    format: &ImageFormatTarget,
    file_key: String,
    file_size: u64,
    scaled_size: Option<Size>,
    original_size: Size,
) -> (rep: ImageRepresentation)
    requires
        file_size <= i64::MAX,
    ensures
        ({
            let size = match scaled_size {
                Some(s) => s,
                None => original_size,
            };
            &&& rep.file_id == file_id
            &&& rep.format_name@ == format_name_spec(*format)
            &&& rep.file_key == file_key
            &&& rep.file_size == file_size
            &&& rep.width == size.width
            &&& rep.height == size.height
        }),
{
    let size = match scaled_size {
        Some(s) => s,
        None => original_size,
    };
    ImageRepresentation {
        file_id,
        format_name: image_format_name(format).to_owned(),
        file_key,
        file_size: file_size as i64,
        width: size.width,
        height: size.height,
    }
}

} // verus!
