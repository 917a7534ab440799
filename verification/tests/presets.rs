use image_pipeline::encode::clamp_quality;
use image_pipeline::encode::png_preset;
use image_pipeline::encode::quantize_channel;
use image_pipeline::encode::webp_bit_depth;
use image_pipeline::encode::EncodeFormat;
use image_pipeline::encode::FilterKind;
use image_pipeline::encode::PngCompression;
use image_pipeline::encode::PngFilter;
use image_pipeline::names::parse_format;
use image_pipeline::names::pick_filter;
use image_pipeline::ImgError;

#[test]
fn clamp_quality_bounds() {
    assert_eq!(clamp_quality(0), 1);
    assert_eq!(clamp_quality(1), 1);
    assert_eq!(clamp_quality(55), 55);
    assert_eq!(clamp_quality(100), 100);
    assert_eq!(clamp_quality(255), 100);
}

#[test]
fn webp_bit_depth_tiers() {
    assert_eq!(webp_bit_depth(100), 8);
    assert_eq!(webp_bit_depth(96), 8);
    assert_eq!(webp_bit_depth(95), 7);
    assert_eq!(webp_bit_depth(80), 7);
    assert_eq!(webp_bit_depth(79), 6);
    assert_eq!(webp_bit_depth(60), 6);
    assert_eq!(webp_bit_depth(59), 5);
    assert_eq!(webp_bit_depth(40), 5);
    assert_eq!(webp_bit_depth(39), 4);
    assert_eq!(webp_bit_depth(20), 4);
    assert_eq!(webp_bit_depth(19), 3);
    assert_eq!(webp_bit_depth(1), 3);
}

#[test]
fn png_preset_tiers() {
    assert_eq!(png_preset(100), (PngCompression::Best, PngFilter::Adaptive));
    assert_eq!(png_preset(90), (PngCompression::Best, PngFilter::Adaptive));
    assert_eq!(png_preset(89), (PngCompression::Best, PngFilter::Paeth));
    assert_eq!(png_preset(70), (PngCompression::Best, PngFilter::Paeth));
    assert_eq!(png_preset(69), (PngCompression::Standard, PngFilter::Paeth));
    assert_eq!(png_preset(50), (PngCompression::Standard, PngFilter::Paeth));
    assert_eq!(png_preset(49), (PngCompression::Fast, PngFilter::Sub));
    assert_eq!(png_preset(30), (PngCompression::Fast, PngFilter::Sub));
    assert_eq!(png_preset(29), (PngCompression::Fast, PngFilter::NoFilter));
    assert_eq!(png_preset(1), (PngCompression::Fast, PngFilter::NoFilter));
}

#[test]
fn quantize_channel_values() {
    assert_eq!(quantize_channel(255, 7), 255);
    assert_eq!(quantize_channel(0, 7), 0);
    assert_eq!(quantize_channel(100, 7), 109);
    assert_eq!(quantize_channel(100, 255), 100);
    assert_eq!(quantize_channel(100, 127), 100);
}

#[test]
fn parse_format_aliases() {
    assert_eq!(parse_format("jpg"), EncodeFormat::Jpeg);
    assert_eq!(parse_format("JPEG"), EncodeFormat::Jpeg);
    assert_eq!(parse_format("JpEg"), EncodeFormat::Jpeg);
    assert_eq!(parse_format("webp"), EncodeFormat::Webp);
    assert_eq!(parse_format("WebP"), EncodeFormat::Webp);
    assert_eq!(parse_format("png"), EncodeFormat::Png);
    assert_eq!(parse_format("gif"), EncodeFormat::Png);
    assert_eq!(parse_format(""), EncodeFormat::Png);
}

#[test]
fn pick_filter_names() {
    assert_eq!(pick_filter("nearest"), FilterKind::Nearest);
    assert_eq!(pick_filter("TRIANGLE"), FilterKind::Triangle);
    assert_eq!(pick_filter("CatmullRom"), FilterKind::CatmullRom);
    assert_eq!(pick_filter("catmull"), FilterKind::CatmullRom);
    assert_eq!(pick_filter("gaussian"), FilterKind::Gaussian);
    assert_eq!(pick_filter("lanczos3"), FilterKind::Lanczos3);
    assert_eq!(pick_filter("bogus"), FilterKind::Lanczos3);
    assert_eq!(pick_filter(""), FilterKind::Lanczos3);
}

#[test]
fn error_messages() {
    assert_eq!(ImgError::DecodeError.message(), "failed to decode image");
    assert_eq!(ImgError::InvalidRegion.message(), "invalid crop region");
    assert_eq!(ImgError::InvalidParameters.message(), "invalid parameters");
    assert_eq!(ImgError::EncodeError.message(), "failed to encode image");
}
