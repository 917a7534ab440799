//! The trusted boundary to the compressed-format codecs of the
//! `image` crate: decoding any supported container to RGBA, the PNG,
//! JPEG and WebP writers, and kernel-filtered resizing.
//!
//! Each wrapper's contract states what the called codec is relied on
//! for; the uninterpreted functions below give names to results whose
//! exact value only the codec defines.
use vstd::prelude::*;

use crate::encode::EncodeFormat;
use crate::encode::FilterKind;
use crate::encode::format_dims_ok;
use crate::encode::PngCompression;
use crate::encode::PngFilter;
use crate::encode::comp_id;
use crate::encode::filt_id;
use crate::encode::filter_id;
use crate::grid::PixelGrid;
use crate::grid::rgba_expand_spec;

use image::ImageEncoder;
use image::codecs::jpeg::JpegEncoder;
use image::codecs::png::CompressionType;
use image::codecs::png::FilterType;
use image::codecs::png::PngEncoder;
use image::codecs::webp::WebPEncoder;
use image::imageops::FilterType as Ft;

verus! {

/// Whether the auto-detecting decoder accepts these bytes as an image.
pub uninterp spec fn decode_ok(bytes: Seq<u8>) -> bool;

/// The pixel width of the image these bytes decode to.
pub uninterp spec fn decode_width(bytes: Seq<u8>) -> int;

/// The pixel height of the image these bytes decode to.
pub uninterp spec fn decode_height(bytes: Seq<u8>) -> int;

/// The RGBA pixel buffer these bytes decode to.
pub uninterp spec fn decode_pixels(bytes: Seq<u8>) -> Seq<u8>;

/// The PNG container written for a pixel buffer with the given
/// dimensions, compression preset, filter preset and color layout
/// (three bytes per pixel when `rgb`, else four).
pub uninterp spec fn png_bytes(pix: Seq<u8>, w: int, h: int, comp: int, filt: int, rgb: bool) -> Seq<u8>;

/// The JPEG container written for a three-byte-per-pixel buffer at the
/// given quality.
pub uninterp spec fn jpeg_bytes(pix: Seq<u8>, w: int, h: int, q: int) -> Seq<u8>;

/// The lossless WebP container written for a pixel buffer.
pub uninterp spec fn webp_bytes(pix: Seq<u8>, w: int, h: int, rgb: bool) -> Seq<u8>;

/// The RGBA buffer produced by resampling a grid to new dimensions
/// with the kernel named by `filt`.
pub uninterp spec fn resized_bytes(pix: Seq<u8>, sw: int, sh: int, tw: int, th: int, filt: int) -> Seq<u8>;

/// The auto-detecting decoder caps the decoded image's native buffer
/// at 512 MiB; only an output whose pixel buffer stays under that cap
/// is promised to decode again.
pub open spec fn redecodable(w: int, h: int) -> bool {
    4 * (w * h) < 0x2000_0000
}

/// The buffer begins with the PNG signature.
pub open spec fn png_magic(b: Seq<u8>) -> bool {
    b.len() >= 8 && b[0] == 0x89u8 && b[1] == 0x50u8 && b[2] == 0x4eu8 && b[3] == 0x47u8
}

/// The buffer begins with the JPEG start-of-image marker.
pub open spec fn jpeg_magic(b: Seq<u8>) -> bool {
    b.len() >= 2 && b[0] == 0xffu8 && b[1] == 0xd8u8
}

/// The buffer begins with a RIFF container tagged WEBP.
pub open spec fn webp_magic(b: Seq<u8>) -> bool {
    b.len() >= 12 && b[0] == 0x52u8 && b[1] == 0x49u8 && b[2] == 0x46u8 && b[3] == 0x46u8 && b[8]
        == 0x57u8 && b[9] == 0x45u8 && b[10] == 0x42u8 && b[11] == 0x50u8
}

/// Relies on `image::load_from_memory` and `DynamicImage::to_rgba8`:
/// the format is auto-detected from the bytes alone; success and the
/// decoded image are deterministic in the bytes; the RGBA buffer holds
/// exactly four bytes per pixel of the reported dimensions (grayscale
/// and indexed sources are expanded, opaque sources get alpha 255).
#[verifier::external_body]
fn decode_raw(data: &[u8]) -> (r: Option<PixelGrid>)
    ensures
        r is Some <==> decode_ok(data@),
        r matches Some(g) ==> g.wf() && g.width as int == decode_width(data@) && g.height as int
            == decode_height(data@) && g.data@ == decode_pixels(data@),
{
    match image::load_from_memory(data) {
        Ok(img) => {
            let rgba = img.to_rgba8();
            let width = rgba.width();
            let height = rgba.height();
            Some(PixelGrid { width, height, data: rgba.into_raw() })
        },
        Err(_) => None,
    }
}

/// Decodes an arbitrary compressed image into an RGBA grid, failing
/// with `DecodeError` on truncated, corrupt or unrecognized bytes.
pub fn decode_image(data: &[u8]) -> (r: Result<PixelGrid, crate::error::ImgError>)
    ensures
        r is Ok <==> decode_ok(data@),
        r matches Ok(g) ==> g.wf() && g.width as int == decode_width(data@) && g.height as int
            == decode_height(data@) && g.data@ == decode_pixels(data@),
        r matches Err(e) ==> e == crate::error::ImgError::DecodeError,
{
    match decode_raw(data) {
        Some(g) => Ok(g),
        None => Err(crate::error::ImgError::DecodeError),
    }
}

/// Relies on `PngEncoder::new_with_quality` and its `write_image`:
/// with a matching buffer and an in-memory sink the writer fails
/// exactly when a dimension is zero; the output is deterministic in
/// the pixels, dimensions, presets and color layout and starts with
/// the PNG signature; PNG is lossless at every preset, so decoding a
/// successfully written image under the decoder's 512 MiB cap
/// restores the written dimensions and pixels, with alpha 255
/// restored when three-channel data was written.
#[verifier::external_body]
pub(crate) fn png_write(
    pix: &Vec<u8>,
    w: u32,
    h: u32,
    comp: PngCompression,
    filt: PngFilter,
    rgb: bool,
) -> (r: Option<Vec<u8>>)
    requires
        rgb ==> pix@.len() == 3 * (w * h),
        !rgb ==> pix@.len() == 4 * (w * h),
    ensures
        r is Some <==> format_dims_ok(EncodeFormat::Png, w as int, h as int),
        r matches Some(b) ==> b@ == png_bytes(
            pix@,
            w as int,
            h as int,
            comp_id(comp),
            filt_id(filt),
            rgb,
        ) && png_magic(b@) && (redecodable(w as int, h as int) ==> decode_ok(b@)
            && decode_width(b@) == w && decode_height(b@) == h && decode_pixels(b@) == (if rgb {
            rgba_expand_spec(pix@)
        } else {
            pix@
        })),
{
    let mut cur = std::io::Cursor::new(Vec::new());
    let c = match comp { PngCompression::Fast => CompressionType::Fast, PngCompression::Standard => CompressionType::Default, PngCompression::Best => CompressionType::Best };
    let f = match filt { PngFilter::NoFilter => FilterType::NoFilter, PngFilter::Sub => FilterType::Sub, PngFilter::Paeth => FilterType::Paeth, PngFilter::Adaptive => FilterType::Adaptive };
    let color = if rgb { image::ExtendedColorType::Rgb8 } else { image::ExtendedColorType::Rgba8 };
    let enc = PngEncoder::new_with_quality(&mut cur, c, f);
    match enc.write_image(pix, w, h, color) { Ok(()) => Some(cur.into_inner()), Err(_) => None }
}

/// Relies on `JpegEncoder::new_with_quality` and `encode`: with a
/// matching buffer and an in-memory sink the writer fails exactly when
/// a dimension is outside `1..=65535`; the output is deterministic in
/// the pixels, dimensions and quality and starts with the
/// start-of-image marker; JPEG stores the exact dimensions and carries
/// no alpha channel, so decoding a successfully written image under
/// the decoder's 512 MiB cap restores the dimensions and expands every
/// pixel to full alpha. Color values are lossy and nothing is claimed
/// of them.
#[verifier::external_body]
pub(crate) fn jpeg_write(pix: &Vec<u8>, w: u32, h: u32, q: u8) -> (r: Option<Vec<u8>>)
    requires
        pix@.len() == 3 * (w * h),
        1 <= q <= 100,
    ensures
        r is Some <==> format_dims_ok(EncodeFormat::Jpeg, w as int, h as int),
        r matches Some(b) ==> b@ == jpeg_bytes(pix@, w as int, h as int, q as int) && jpeg_magic(
            b@,
        ) && (redecodable(w as int, h as int) ==> decode_ok(b@) && decode_width(b@) == w
            && decode_height(b@) == h && crate::grid::opaque_spec(decode_pixels(b@))),
{
    let mut cur = std::io::Cursor::new(Vec::new());
    let mut enc = JpegEncoder::new_with_quality(&mut cur, q);
    match enc.encode(pix, w, h, image::ExtendedColorType::Rgb8) { Ok(()) => Some(cur.into_inner()), Err(_) => None }
}

/// Relies on `WebPEncoder::new_lossless`: with a matching buffer and
/// an in-memory sink the writer fails exactly when a dimension is
/// outside `1..=16384`; VP8L lossless encoding, deterministic in its
/// inputs, starting with a RIFF container tagged WEBP; decoding a
/// successfully written image under the decoder's 512 MiB cap restores
/// the written dimensions and pixels, with alpha 255 restored when
/// three-channel data was written.
#[verifier::external_body]
pub(crate) fn webp_write(pix: &Vec<u8>, w: u32, h: u32, rgb: bool) -> (r: Option<Vec<u8>>)
    requires
        rgb ==> pix@.len() == 3 * (w * h),
        !rgb ==> pix@.len() == 4 * (w * h),
    ensures
        r is Some <==> format_dims_ok(EncodeFormat::Webp, w as int, h as int),
        r matches Some(b) ==> b@ == webp_bytes(pix@, w as int, h as int, rgb) && webp_magic(b@)
            && (redecodable(w as int, h as int) ==> decode_ok(b@) && decode_width(b@) == w
            && decode_height(b@) == h && decode_pixels(b@) == (if rgb {
            rgba_expand_spec(pix@)
        } else {
            pix@
        })),
{
    let mut cur = std::io::Cursor::new(Vec::new());
    let color = if rgb { image::ExtendedColorType::Rgb8 } else { image::ExtendedColorType::Rgba8 };
    match WebPEncoder::new_lossless(&mut cur).encode(pix, w, h, color) { Ok(()) => Some(cur.into_inner()), Err(_) => None }
}

/// Relies on `imageops::resize`: the result has exactly the requested
/// dimensions, resampled from the source with the chosen kernel, and
/// is deterministic in its inputs. The size bounds keep the resampler's
/// buffers addressable. The Gaussian and Lanczos kernels evaluate
/// `sin` and `exp` through the platform's math library, so the
/// byte-identity named by `resized_bytes` is fixed per build rather
/// than across differing math libraries.
#[verifier::external_body]
pub(crate) fn resize_raw(g: &PixelGrid, tw: u32, th: u32, filt: FilterKind) -> (r: PixelGrid)
    requires
        g.wf(),
        g.width >= 1,
        g.height >= 1,
        tw >= 1,
        th >= 1,
        16 * (g.width * th) <= usize::MAX,
        4 * (tw * th) <= usize::MAX,
    ensures
        r.wf(),
        r.width == tw,
        r.height == th,
        r.data@ == resized_bytes(
            g.data@,
            g.width as int,
            g.height as int,
            tw as int,
            th as int,
            filter_id(filt),
        ),
{
    let img = image::RgbaImage::from_raw(g.width, g.height, g.data.clone()).unwrap();
    let f = match filt { FilterKind::Nearest => Ft::Nearest, FilterKind::Triangle => Ft::Triangle, FilterKind::CatmullRom => Ft::CatmullRom, FilterKind::Gaussian => Ft::Gaussian, FilterKind::Lanczos3 => Ft::Lanczos3 };
    let out = image::imageops::resize(&img, tw, th, f);
    PixelGrid { width: tw, height: th, data: out.into_raw() }
}

} // verus!
