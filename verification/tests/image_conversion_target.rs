use myrti::catalog::encoding_target::OutOfRange;
use myrti::catalog::image_conversion_target::heif::{
    to_wrapper_heif_params, AvifTarget, BitDepth, Compression, Effort, HeifSaveParams,
};
use myrti::catalog::image_conversion_target::jpeg::{to_wrapper_jpeg_params, JpegTarget};
use myrti::catalog::image_conversion_target::{
    heif, image_file_extension, image_format_name, jpeg, ImageFormatTarget,
};

#[test]
fn format_names_and_extensions() {
    let avif = ImageFormatTarget::AVIF(AvifTarget::default());
    let jpeg = ImageFormatTarget::JPEG(JpegTarget::default());
    assert_eq!(image_format_name(&avif), "avif");
    assert_eq!(image_format_name(&jpeg), "jpeg");
    assert_eq!(image_format_name(&ImageFormatTarget::WEBP), "webp");
    assert_eq!(image_file_extension(&jpeg), "jpg");
    assert_eq!(image_file_extension(&avif), "avif");
}

#[test]
fn quality_factor_ranges() {
    assert_eq!(jpeg::QualityFactor::try_from(0), Err(OutOfRange(0)));
    assert_eq!(jpeg::QualityFactor::try_from(101), Err(OutOfRange(101)));
    assert_eq!(i32::from(jpeg::QualityFactor::try_from(100).unwrap()), 100);
    assert_eq!(heif::QualityFactor::try_from(0), Err(OutOfRange(0)));
    assert_eq!(i32::from(heif::QualityFactor::try_from(1).unwrap()), 1);
    assert_eq!(Effort::try_from(10), Err(OutOfRange(10)));
    assert_eq!(i32::from(Effort::try_from(0).unwrap()), 0);
}

#[test]
fn defaults() {
    assert_eq!(i32::from(jpeg::QualityFactor::default()), 75);
    assert_eq!(i32::from(heif::QualityFactor::default()), 50);
    assert_eq!(i32::from(Effort::default()), 7);
    let a = AvifTarget::default();
    assert!(!a.lossless);
    assert_eq!(a.bit_depth, BitDepth::Eight);
    assert_eq!(a.compression, Compression::AV1);
}

#[test]
fn save_params() {
    let a = AvifTarget {
        quality: heif::QualityFactor::try_from(80).unwrap(),
        lossless: true,
        bit_depth: BitDepth::Ten,
        compression: Compression::HEVC,
        effort: Effort::default(),
    };
    assert_eq!(
        to_wrapper_heif_params(&a),
        HeifSaveParams { quality: 80, lossless: 1, bit_depth: 10, compression: 1 }
    );
    let d = to_wrapper_heif_params(&AvifTarget::default());
    assert_eq!(d, HeifSaveParams { quality: 50, lossless: 0, bit_depth: 8, compression: 4 });
    assert_eq!(to_wrapper_jpeg_params(&JpegTarget::default()).quality, 75);
}
