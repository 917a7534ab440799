use image_pipeline::codec::decode_image;
use image_pipeline::encode::encode_rgba;
use image_pipeline::encode::quantize_channel;
use image_pipeline::encode::EncodeFormat;
use image_pipeline::compress_image;
use image_pipeline::crop_image;
use image_pipeline::optimize_image;
use image_pipeline::perspective_crop;
use image_pipeline::resize_image;
use image_pipeline::ImgError;
use image_pipeline::PixelGrid;

/// A w-by-h RGBA buffer whose pixel (x, y) encodes its position in the
/// red and green channels, a constant blue, and the given alpha.
fn patterned(w: u32, h: u32, alpha: u8) -> Vec<u8> {
    let mut data = Vec::new();
    for y in 0..h {
        for x in 0..w {
            data.push((x * 17 % 256) as u8);
            data.push((y * 29 % 256) as u8);
            data.push(77);
            data.push(alpha);
        }
    }
    data
}

fn png_of(w: u32, h: u32, data: Vec<u8>) -> Vec<u8> {
    let g = PixelGrid::from_raw(w, h, data).unwrap();
    encode_rgba(&g, EncodeFormat::Png, 90).unwrap()
}

fn chan(g: &PixelGrid, x: u32, y: u32, c: u32) -> u8 {
    g.data[(4 * (y * g.width + x) + c) as usize]
}

#[test]
fn crop_identity_pixels() {
    let src = patterned(4, 4, 200);
    let bytes = png_of(4, 4, src.clone());
    let out = crop_image(&bytes, 1, 1, 2, 2).unwrap();
    let g = decode_image(&out).unwrap();
    assert_eq!((g.width, g.height), (2, 2));
    for j in 0..2u32 {
        for i in 0..2u32 {
            for c in 0..4u32 {
                let want = src[(4 * ((j + 1) * 4 + (i + 1)) + c) as usize];
                assert_eq!(chan(&g, i, j, c), want);
            }
        }
    }
}

#[test]
fn crop_clamps_overflowing_rectangle() {
    let bytes = png_of(4, 4, patterned(4, 4, 255));
    let out = crop_image(&bytes, 2, 3, 10, 10).unwrap();
    let g = decode_image(&out).unwrap();
    assert_eq!((g.width, g.height), (2, 1));
}

#[test]
fn crop_rejects_zero_size() {
    let bytes = png_of(4, 4, patterned(4, 4, 255));
    assert_eq!(crop_image(&bytes, 0, 0, 0, 2), Err(ImgError::InvalidRegion));
    assert_eq!(crop_image(&bytes, 0, 0, 2, 0), Err(ImgError::InvalidRegion));
}

#[test]
fn crop_rejects_origin_outside() {
    let bytes = png_of(4, 4, patterned(4, 4, 255));
    assert_eq!(crop_image(&bytes, 4, 0, 1, 1), Err(ImgError::InvalidRegion));
    assert_eq!(crop_image(&bytes, 0, 7, 1, 1), Err(ImgError::InvalidRegion));
}

#[test]
fn crop_rejects_garbage_bytes() {
    assert_eq!(crop_image(&[1, 2, 3, 4], 0, 0, 1, 1), Err(ImgError::DecodeError));
}

#[test]
fn resize_yields_exact_dimensions_for_every_filter() {
    let bytes = png_of(4, 4, patterned(4, 4, 200));
    for name in ["nearest", "triangle", "catmullrom", "catmull", "gaussian", "lanczos3", "bogus"] {
        let out = resize_image(&bytes, 3, 2, name).unwrap();
        let g = decode_image(&out).unwrap();
        assert_eq!((g.width, g.height), (3, 2));
        let up = resize_image(&bytes, 9, 5, name).unwrap();
        let g2 = decode_image(&up).unwrap();
        assert_eq!((g2.width, g2.height), (9, 5));
    }
}

#[test]
fn resize_rejects_zero_dimension() {
    let bytes = png_of(4, 4, patterned(4, 4, 255));
    assert_eq!(resize_image(&bytes, 0, 2, "nearest"), Err(ImgError::InvalidParameters));
    assert_eq!(resize_image(&bytes, 2, 0, "nearest"), Err(ImgError::InvalidParameters));
}

#[test]
fn png_roundtrip_is_lossless_at_every_tier() {
    let src = patterned(5, 3, 128);
    let bytes = png_of(5, 3, src.clone());
    for q in [0u8, 1, 29, 30, 49, 50, 69, 70, 89, 90, 100, 255] {
        let out = compress_image(&bytes, q, "png").unwrap();
        let g = decode_image(&out).unwrap();
        assert_eq!((g.width, g.height), (5, 3));
        assert_eq!(g.data, src);
    }
}

#[test]
fn jpeg_roundtrip_keeps_dimensions_and_drops_alpha() {
    let src = patterned(6, 4, 128);
    let bytes = png_of(6, 4, src);
    let out = compress_image(&bytes, 80, "jpeg").unwrap();
    let g = decode_image(&out).unwrap();
    assert_eq!((g.width, g.height), (6, 4));
    for p in 0..(6 * 4) {
        assert_eq!(g.data[4 * p + 3], 255);
    }
}

#[test]
fn webp_full_depth_roundtrip_is_exact() {
    let src = patterned(5, 4, 128);
    let bytes = png_of(5, 4, src.clone());
    let out = compress_image(&bytes, 100, "webp").unwrap();
    let g = decode_image(&out).unwrap();
    assert_eq!((g.width, g.height), (5, 4));
    assert_eq!(g.data, src);
}

#[test]
fn webp_reduced_depth_roundtrips_the_quantized_pixels() {
    let src = patterned(5, 4, 128);
    let bytes = png_of(5, 4, src.clone());
    let out = compress_image(&bytes, 50, "webp").unwrap();
    let g = decode_image(&out).unwrap();
    assert_eq!((g.width, g.height), (5, 4));
    let levels = 31u16;
    for (i, &b) in src.iter().enumerate() {
        let want = if i % 4 == 3 { b } else { quantize_channel(b, levels) };
        assert_eq!(g.data[i], want);
    }
}

#[test]
fn opaque_image_stays_opaque_through_png_and_webp() {
    let src = patterned(7, 5, 255);
    let bytes = png_of(7, 5, src);
    for (fmt, q) in [("png", 80u8), ("webp", 50), ("webp", 100)] {
        let out = compress_image(&bytes, q, fmt).unwrap();
        let g = decode_image(&out).unwrap();
        assert_eq!((g.width, g.height), (7, 5));
        for p in 0..(7 * 5) {
            assert_eq!(g.data[4 * p + 3], 255);
        }
    }
}

#[test]
fn compress_rejects_garbage_bytes() {
    assert_eq!(compress_image(&[0u8; 10], 80, "png"), Err(ImgError::DecodeError));
}

#[test]
fn optimize_without_upscale_keeps_source_dimensions() {
    let bytes = png_of(4, 6, patterned(4, 6, 255));
    let out = optimize_image(&bytes, 100, 100, 80, "png", false).unwrap();
    let g = decode_image(&out).unwrap();
    assert_eq!((g.width, g.height), (4, 6));
}

#[test]
fn optimize_rejects_two_zero_bounds() {
    let bytes = png_of(4, 4, patterned(4, 4, 255));
    assert_eq!(
        optimize_image(&bytes, 0, 0, 80, "webp", false),
        Err(ImgError::InvalidParameters)
    );
}

#[test]
fn optimize_scales_100x50_to_50x25_webp() {
    let bytes = png_of(100, 50, patterned(100, 50, 255));
    let out = optimize_image(&bytes, 50, 50, 80, "webp", false).unwrap();
    let g = decode_image(&out).unwrap();
    assert_eq!((g.width, g.height), (50, 25));
}

#[test]
fn optimize_zero_bound_is_unconstrained() {
    let bytes = png_of(8, 4, patterned(8, 4, 255));
    let out = optimize_image(&bytes, 4, 0, 80, "png", false).unwrap();
    let g = decode_image(&out).unwrap();
    assert_eq!((g.width, g.height), (4, 2));
}

#[test]
fn optimize_upscales_when_permitted() {
    let bytes = png_of(4, 4, patterned(4, 4, 255));
    let out = optimize_image(&bytes, 8, 8, 80, "png", true).unwrap();
    let g = decode_image(&out).unwrap();
    assert_eq!((g.width, g.height), (8, 8));
}

#[test]
fn perspective_identity_reproduces_the_source() {
    let src = patterned(3, 3, 200);
    let bytes = png_of(3, 3, src.clone());
    let s = 65536i64;
    let pts = vec![0, 0, 2 * s, 0, 2 * s, 2 * s, 0, 2 * s];
    let out = perspective_crop(&bytes, &pts, 3, 3).unwrap();
    let g = decode_image(&out).unwrap();
    assert_eq!((g.width, g.height), (3, 3));
    assert_eq!(g.data, src);
}

#[test]
fn perspective_rejects_wrong_point_count() {
    let pts = vec![0i64; 7];
    assert_eq!(
        perspective_crop(&[1, 2, 3], &pts, 3, 3),
        Err(ImgError::InvalidParameters)
    );
}

#[test]
fn perspective_rejects_zero_output() {
    let bytes = png_of(3, 3, patterned(3, 3, 255));
    let pts = vec![0i64; 8];
    assert_eq!(perspective_crop(&bytes, &pts, 0, 3), Err(ImgError::InvalidParameters));
    assert_eq!(perspective_crop(&bytes, &pts, 3, 0), Err(ImgError::InvalidParameters));
}

#[test]
fn perspective_collapsed_quad_samples_one_point() {
    let src = patterned(4, 4, 255);
    let bytes = png_of(4, 4, src.clone());
    let s = 65536i64;
    let pts = vec![s, s, s, s, s, s, s, s];
    let out = perspective_crop(&bytes, &pts, 2, 2).unwrap();
    let g = decode_image(&out).unwrap();
    assert_eq!((g.width, g.height), (2, 2));
    for j in 0..2u32 {
        for i in 0..2u32 {
            for c in 0..4u32 {
                let want = src[(4 * (1 * 4 + 1) + c) as usize];
                assert_eq!(chan(&g, i, j, c), want);
            }
        }
    }
}

#[test]
fn outputs_start_with_their_container_magic() {
    let bytes = png_of(4, 4, patterned(4, 4, 128));
    let png = compress_image(&bytes, 80, "png").unwrap();
    assert_eq!(&png[..4], &[0x89, 0x50, 0x4e, 0x47]);
    let jpeg = compress_image(&bytes, 80, "jpeg").unwrap();
    assert_eq!(&jpeg[..2], &[0xff, 0xd8]);
    let webp = compress_image(&bytes, 80, "webp").unwrap();
    assert_eq!(&webp[..4], b"RIFF");
    assert_eq!(&webp[8..12], b"WEBP");
}

#[test]
fn optimize_without_scaling_equals_compress() {
    let bytes = png_of(6, 3, patterned(6, 3, 128));
    for fmt in ["png", "jpeg", "webp"] {
        let via_optimize = optimize_image(&bytes, 10, 10, 70, fmt, false).unwrap();
        let via_compress = compress_image(&bytes, 70, fmt).unwrap();
        assert_eq!(via_optimize, via_compress);
    }
}

#[test]
fn compress_fails_only_past_the_format_limits() {
    let wide = png_of(20000, 1, patterned(20000, 1, 255));
    assert_eq!(compress_image(&wide, 80, "webp"), Err(ImgError::EncodeError));
    assert!(compress_image(&wide, 80, "jpeg").is_ok());
    assert!(compress_image(&wide, 80, "png").is_ok());
    let wider = png_of(70000, 1, patterned(70000, 1, 255));
    assert_eq!(compress_image(&wider, 80, "jpeg"), Err(ImgError::EncodeError));
    assert!(compress_image(&wider, 80, "png").is_ok());
}
