use myrti::catalog::image_conversion_target::heif::AvifTarget;
use myrti::catalog::image_conversion_target::jpeg::JpegTarget;
use myrti::catalog::image_conversion_target::ImageFormatTarget;
use myrti::catalog::storage_key::{
    album_thumbnail, dash_file, image_representation, mpd_manifest, thumbnail,
};
use myrti::model::{AlbumId, FileId, ThumbnailFormat, ThumbnailType};

#[test]
fn dash_file_key() {
    assert_eq!(dash_file(FileId(42), "720p.mp4"), "dash/42/720p.mp4");
    assert_eq!(dash_file(FileId(-3), "x"), "dash/-3/x");
}

#[test]
fn mpd_manifest_is_a_dash_file_key() {
    assert_eq!(mpd_manifest(FileId(7)), "dash/7/stream.mpd");
    assert_eq!(mpd_manifest(FileId(7)), dash_file(FileId(7), "stream.mpd"));
}

#[test]
fn thumbnail_keys() {
    assert_eq!(
        thumbnail(FileId(3), ThumbnailType::SmallSquare, ThumbnailFormat::Avif),
        "thumb/3_sm.avif"
    );
    assert_eq!(
        thumbnail(FileId(3), ThumbnailType::LargeOrigAspect, ThumbnailFormat::Webp),
        "thumb/3.webp"
    );
}

#[test]
fn thumbnail_keys_of_different_thumbnails_differ() {
    let mut keys = Vec::new();
    for id in [1, 12, 123] {
        for ty in [ThumbnailType::SmallSquare, ThumbnailType::LargeOrigAspect] {
            for format in [ThumbnailFormat::Webp, ThumbnailFormat::Avif] {
                keys.push(thumbnail(FileId(id), ty, format));
            }
        }
    }
    let n = keys.len();
    keys.sort();
    keys.dedup();
    assert_eq!(keys.len(), n);
}

#[test]
fn album_thumbnail_key() {
    assert_eq!(album_thumbnail(AlbumId(9), ThumbnailFormat::Webp), "album_thumb/9.webp");
    assert_eq!(album_thumbnail(AlbumId(9), ThumbnailFormat::Avif), "album_thumb/9.avif");
}

#[test]
fn image_representation_keys() {
    let avif = ImageFormatTarget::AVIF(AvifTarget::default());
    let jpeg = ImageFormatTarget::JPEG(JpegTarget::default());
    assert_eq!(image_representation(FileId(5), &avif, None), "image/5.avif");
    assert_eq!(image_representation(FileId(5), &jpeg, None), "image/5.jpg");
    assert_eq!(image_representation(FileId(5), &ImageFormatTarget::WEBP, Some("0.5")), "image/5_0.5x.webp");
}
