use myrti::catalog::image_conversion_target::heif::AvifTarget;
use myrti::catalog::image_conversion_target::ImageFormatTarget;
use myrti::model::{AssetThumbnail, AssetThumbnailId, FileId, Size, ThumbnailFormat, ThumbnailType};
use myrti::scheduling::image_jobs::{
    converted_image_record, thumbnail_outputs, thumbnail_records, video_thumbhash_source,
};

#[test]
fn thumbnail_outputs_per_format() {
    let outs = thumbnail_outputs(
        FileId(4),
        ThumbnailType::SmallSquare,
        &vec![ThumbnailFormat::Webp, ThumbnailFormat::Avif],
    );
    assert_eq!(outs.len(), 2);
    assert_eq!(outs[0].file_key, "thumb/4_sm.webp");
    assert_eq!(outs[0].target, ImageFormatTarget::WEBP);
    assert_eq!(outs[1].file_key, "thumb/4_sm.avif");
    assert_eq!(outs[1].target, ImageFormatTarget::AVIF(AvifTarget::default()));
}

#[test]
fn thumbnail_records_share_the_size() {
    let size = Size { width: 300, height: 200 };
    let recs = thumbnail_records(FileId(4), ThumbnailType::LargeOrigAspect, &vec![ThumbnailFormat::Avif], size);
    assert_eq!(
        recs,
        vec![AssetThumbnail {
            id: AssetThumbnailId(0),
            file_id: FileId(4),
            ty: ThumbnailType::LargeOrigAspect,
            size,
            format: ThumbnailFormat::Avif,
        }]
    );
}

#[test]
fn thumbhash_of_video_uses_large_thumbnail() {
    let small = AssetThumbnail {
        id: AssetThumbnailId(1),
        file_id: FileId(6),
        ty: ThumbnailType::SmallSquare,
        size: Size { width: 200, height: 200 },
        format: ThumbnailFormat::Webp,
    };
    let large = AssetThumbnail { ty: ThumbnailType::LargeOrigAspect, format: ThumbnailFormat::Avif, ..small };
    assert_eq!(video_thumbhash_source(FileId(6), &vec![small]), None);
    assert_eq!(video_thumbhash_source(FileId(6), &vec![small, large]), Some("thumb/6.avif".to_owned()));
}

#[test]
fn converted_image_size() {
    let original = Size { width: 4000, height: 3000 };
    let rec = converted_image_record(FileId(2), &ImageFormatTarget::WEBP, "image/2.webp".to_owned(), 1234, None, original);
    assert_eq!(rec.format_name, "webp");
    assert_eq!(rec.file_size, 1234);
    assert_eq!((rec.width, rec.height), (4000, 3000));
    let scaled = Size { width: 400, height: 300 };
    let rec = converted_image_record(FileId(2), &ImageFormatTarget::WEBP, "k".to_owned(), 1, Some(scaled), original);
    assert_eq!((rec.width, rec.height), (400, 300));
}
