//! The adaptive encoder: format and filter name parsing, quality
//! clamping, quality-tier preset selection, opacity-aware channel
//! elision, and WebP channel quantization. The format writers
//! themselves live behind the trusted boundary in `codec`.
use vstd::prelude::*;

use crate::error::ImgError;
use crate::grid::PixelGrid;
use crate::grid::opaque_spec;
use crate::grid::rgb_of_spec;
use crate::grid::rgba_expand_spec;
use crate::grid::to_rgb;
use crate::grid::is_opaque;
use crate::codec::decode_ok;
use crate::codec::decode_width;
use crate::codec::decode_height;
use crate::codec::decode_pixels;
use crate::codec::png_bytes;
use crate::codec::png_magic;
use crate::codec::jpeg_magic;
use crate::codec::webp_magic;
use crate::codec::redecodable;
use crate::codec::jpeg_bytes;
use crate::codec::webp_bytes;
use crate::codec::png_write;
use crate::codec::jpeg_write;
use crate::codec::webp_write;
use vstd::arithmetic::div_mod::lemma_fundamental_div_mod_converse;

verus! {

/// The compressed container formats the encoder can produce.
#[derive(Clone, Copy, Debug, PartialEq, Eq, Structural)]
pub enum EncodeFormat {
    Png,
    Jpeg,
    Webp,
}

/// The resampling kernels the resize transform can use.
#[derive(Clone, Copy, Debug, PartialEq, Eq, Structural)]
pub enum FilterKind {
    Nearest,
    Triangle,
    CatmullRom,
    Gaussian,
    Lanczos3,
}

/// PNG DEFLATE effort presets.
#[derive(Clone, Copy, Debug, PartialEq, Eq, Structural)]
pub enum PngCompression {
    Fast,
    Standard,
    Best,
}

/// PNG scanline filter presets.
#[derive(Clone, Copy, Debug, PartialEq, Eq, Structural)]
pub enum PngFilter {
    NoFilter,
    Sub,
    Paeth,
    Adaptive,
}

/// A stable code for each resampling kernel, used to state what the
/// resize wrapper returns.
pub open spec fn filter_id(f: FilterKind) -> int {
    match f {
        FilterKind::Nearest => 0,
        FilterKind::Triangle => 1,
        FilterKind::CatmullRom => 2,
        FilterKind::Gaussian => 3,
        FilterKind::Lanczos3 => 4,
    }
}

/// A stable code for each PNG compression preset.
pub open spec fn comp_id(c: PngCompression) -> int {
    match c {
        PngCompression::Fast => 0,
        PngCompression::Standard => 1,
        PngCompression::Best => 2,
    }
}

/// A stable code for each PNG filter preset.
pub open spec fn filt_id(f: PngFilter) -> int {
    match f {
        PngFilter::NoFilter => 0,
        PngFilter::Sub => 1,
        PngFilter::Paeth => 2,
        PngFilter::Adaptive => 3,
    }
}

/// Quality clamped into `[1, 100]`; out-of-range values are never
/// rejected.
pub open spec fn clamp_q_spec(q: int) -> int {
    if q < 1 {
        1
    } else if q > 100 {
        100
    } else {
        q
    }
}

/// Clamps a requested quality into the accepted range.
pub fn clamp_quality(q: u8) -> (r: u8)
    ensures
        r as int == clamp_q_spec(q as int),
{
    if q < 1 {
        1
    } else if q > 100 {
        100
    } else {
        q
    }
}

/// Per-channel bit depth kept by the WebP path for a given quality.
pub open spec fn webp_bit_depth_spec(q: int) -> int {
    if q >= 96 {
        8
    } else if q >= 80 {
        7
    } else if q >= 60 {
        6
    } else if q >= 40 {
        5
    } else if q >= 20 {
        4
    } else {
        3
    }
}

/// Selects the WebP bit depth tier for a quality value.
pub fn webp_bit_depth(quality: u8) -> (r: u8)
    ensures
        r as int == webp_bit_depth_spec(quality as int),
{
    if quality >= 96 {
        8
    } else if quality >= 80 {
        7
    } else if quality >= 60 {
        6
    } else if quality >= 40 {
        5
    } else if quality >= 20 {
        4
    } else {
        3
    }
}

/// The number of quantization levels for a reduced bit depth:
/// `2^bits - 1`.
pub open spec fn webp_levels_spec(q: int) -> int {
    if webp_bit_depth_spec(q) == 7 {
        127
    } else if webp_bit_depth_spec(q) == 6 {
        63
    } else if webp_bit_depth_spec(q) == 5 {
        31
    } else if webp_bit_depth_spec(q) == 4 {
        15
    } else {
        7
    }
}

/// The PNG compression preset for a quality tier.
pub open spec fn png_comp_spec(q: int) -> PngCompression {
    if q >= 70 {
        PngCompression::Best
    } else if q >= 50 {
        PngCompression::Standard
    } else {
        PngCompression::Fast
    }
}

/// The PNG filter preset for a quality tier.
pub open spec fn png_filt_spec(q: int) -> PngFilter {
    if q >= 90 {
        PngFilter::Adaptive
    } else if q >= 50 {
        PngFilter::Paeth
    } else if q >= 30 {
        PngFilter::Sub
    } else {
        PngFilter::NoFilter
    }
}

/// Maps a quality tier to concrete PNG encoder presets: higher quality
/// trades encode time for better-filtered, smaller output; pixel
/// fidelity is unaffected since PNG is always lossless.
pub fn png_preset(quality: u8) -> (r: (PngCompression, PngFilter))
    ensures
        r.0 == png_comp_spec(quality as int),
        r.1 == png_filt_spec(quality as int),
{
    if quality >= 90 {
        (PngCompression::Best, PngFilter::Adaptive)
    } else if quality >= 70 {
        (PngCompression::Best, PngFilter::Paeth)
    } else if quality >= 50 {
        (PngCompression::Standard, PngFilter::Paeth)
    } else if quality >= 30 {
        (PngCompression::Fast, PngFilter::Sub)
    } else {
        (PngCompression::Fast, PngFilter::NoFilter)
    }
}

/// One color channel quantized to `levels` discrete steps by
/// rounding-bucket mapping; alpha is never passed through this.
pub open spec fn qc_spec(v: int, levels: int) -> int {
    if levels >= 255 {
        v
    } else {
        let b = (v * levels + 127) / 255;
        let s = (b * 255 + levels / 2) / levels;
        if s > 255 {
            255
        } else {
            s
        }
    }
}

/// Quantizes one color channel.
pub fn quantize_channel(value: u8, levels: u16) -> (r: u8)
    requires
        1 <= levels,
    ensures
        r as int == qc_spec(value as int, levels as int),
{
    if levels >= 255 {
        return value;
    }
    proof {
        assert((value as int) * (levels as int) <= 255 * 254) by (nonlinear_arith)
            requires
                value <= 255,
                levels <= 254;
    }
    let b: u32 = ((value as u32) * (levels as u32) + 127) / 255;
    let s: u32 = (b * 255 + (levels as u32) / 2) / (levels as u32);
    if s > 255 {
        255
    } else {
        s as u8
    }
}

/// A whole RGBA buffer with each color channel quantized and alpha
/// untouched.
pub open spec fn quantized_spec(pix: Seq<u8>, levels: int) -> Seq<u8> {
    Seq::new(
        pix.len(),
        |i: int|
            if i % 4 == 3 {
                pix[i]
            } else {
                qc_spec(pix[i] as int, levels) as u8
            },
    )
}

/// What the WebP path actually encodes: the pixels unchanged at full
/// bit depth, or the quantized copy at a reduced one.
pub open spec fn webp_source_spec(pix: Seq<u8>, q: int) -> Seq<u8> {
    if webp_bit_depth_spec(q) >= 8 {
        pix
    } else {
        quantized_spec(pix, webp_levels_spec(q))
    }
}

/// The dimensions each container format can carry: PNG takes any
/// positive size, JPEG stores dimensions in sixteen bits, WebP's
/// lossless frame in fourteen. The encoder succeeds exactly on these.
pub open spec fn format_dims_ok(f: EncodeFormat, w: int, h: int) -> bool {
    match f {
        EncodeFormat::Png => 1 <= w && 1 <= h,
        EncodeFormat::Jpeg => 1 <= w <= 65535 && 1 <= h <= 65535,
        EncodeFormat::Webp => 1 <= w <= 16384 && 1 <= h <= 16384,
    }
}

/// The buffer begins with the magic bytes of its container format.
pub open spec fn magic_ok(f: EncodeFormat, b: Seq<u8>) -> bool {
    match f {
        EncodeFormat::Png => png_magic(b),
        EncodeFormat::Jpeg => jpeg_magic(b),
        EncodeFormat::Webp => webp_magic(b),
    }
}

/// The compressed buffer the encoder produces for the given pixels,
/// dimensions, format and (clamped) quality, including the decision to
/// drop the alpha channel of an opaque image for PNG and WebP.
pub open spec fn encoded_spec(pix: Seq<u8>, w: int, h: int, format: EncodeFormat, q: int) -> Seq<
    u8,
> {
    match format {
        EncodeFormat::Png => {
            if opaque_spec(pix) {
                png_bytes(
                    rgb_of_spec(pix),
                    w,
                    h,
                    comp_id(png_comp_spec(q)),
                    filt_id(png_filt_spec(q)),
                    true,
                )
            } else {
                png_bytes(pix, w, h, comp_id(png_comp_spec(q)), filt_id(png_filt_spec(q)), false)
            }
        },
        EncodeFormat::Jpeg => jpeg_bytes(rgb_of_spec(pix), w, h, q),
        EncodeFormat::Webp => {
            let src = webp_source_spec(pix, q);
            if opaque_spec(src) {
                webp_bytes(rgb_of_spec(src), w, h, true)
            } else {
                webp_bytes(src, w, h, false)
            }
        },
    }
}

/// Copies a byte vector.
fn copy_bytes(v: &Vec<u8>) -> (r: Vec<u8>)
    ensures
        r@ == v@,
{
    let n = v.len();
    let mut out: Vec<u8> = Vec::new();
    let mut i: usize = 0;
    while i < n
        invariant
            0 <= i <= n,
            n == v@.len(),
            out@ == v@.take(i as int),
        decreases n - i,
    {
        out.push(v[i]);
        proof {
            assert(out@ =~= v@.take(i + 1));
        }
        i = i + 1;
    }
    proof {
        assert(out@ =~= v@);
    }
    out
}

/// The buffer handed to the WebP writer: the source itself at full bit
/// depth, or a fresh copy with every color channel quantized to the
/// tier's level count (alpha untouched). A new owned grid is produced
/// so the caller's grid can still be inspected afterwards.
pub fn prepare_webp_source(g: &PixelGrid, quality: u8) -> (r: PixelGrid)
    requires
        g.wf(),
    ensures
        r.wf(),
        r.width == g.width,
        r.height == g.height,
        r.data@ == webp_source_spec(g.data@, quality as int),
{
    let bits = webp_bit_depth(quality);
    if bits >= 8 {
        let data = copy_bytes(&g.data);
        return PixelGrid { width: g.width, height: g.height, data };
    }
    let levels: u16 = if bits == 7 {
        127
    } else if bits == 6 {
        63
    } else if bits == 5 {
        31
    } else if bits == 4 {
        15
    } else {
        7
    };
    let n = g.data.len();
    let mut out: Vec<u8> = Vec::new();
    let mut i: usize = 0;
    while i < n
        invariant
            0 <= i <= n,
            n == g.data@.len(),
            1 <= levels,
            out@.len() == i,
            forall|t: int|
                0 <= t < i ==> out@[t] == (if t % 4 == 3 {
                    g.data@[t]
                } else {
                    qc_spec(g.data@[t] as int, levels as int) as u8
                }),
        decreases n - i,
    {
        let b: u8 = g.data[i];
        if i % 4 == 3 {
            out.push(b);
        } else {
            out.push(quantize_channel(b, levels));
        }
        i = i + 1;
    }
    proof {
        assert(out@ =~= quantized_spec(g.data@, levels as int));
    }
    PixelGrid { width: g.width, height: g.height, data: out }
}

/// Opacity survives the encoder's whole pixel path: quantization never
/// touches alpha, and dropping then re-expanding the channels of an
/// opaque image restores it exactly. Together with the contract of
/// `encode_rgba` this says that an opaque image stays opaque when its
/// PNG or WebP encoding is decoded again.
pub proof fn lemma_opacity_preserved(pix: Seq<u8>, q: int)
    requires
        pix.len() % 4 == 0,
        opaque_spec(pix),
    ensures
        opaque_spec(webp_source_spec(pix, q)),
        rgba_expand_spec(rgb_of_spec(pix)) == pix,
{
    crate::grid::lemma_expand_rgb_of_opaque(pix);
    if webp_bit_depth_spec(q) < 8 {
        let ws = webp_source_spec(pix, q);
        assert forall|i: int| 0 <= i < ws.len() && i % 4 == 3 implies ws[i] == 255 by {
            assert(ws[i] == pix[i]);
        }
    }
}

/// Encodes a well-formed grid into the chosen format.
///
/// Quality is clamped to `[1, 100]` first. The image is scanned for
/// opacity: an all-opaque image is written without its alpha channel
/// for PNG and WebP (JPEG never carries alpha). The PNG path picks
/// effort presets from the quality tier and is lossless: decoding its
/// output restores the input pixels exactly. The WebP path quantizes
/// color channels at reduced bit depth, re-checks opacity, and writes
/// losslessly, so decoding its output restores exactly what was
/// quantized. Encoding succeeds exactly when the chosen format can
/// carry the grid's dimensions; the only failure is the format
/// writer's rejection, surfaced as `EncodeError`.
pub fn encode_rgba(g: &PixelGrid, format: EncodeFormat, quality: u8) -> (r: Result<
    Vec<u8>,
    ImgError,
>)
    requires
        g.wf(),
    ensures
        r is Ok <==> format_dims_ok(format, g.width as int, g.height as int),
        r matches Ok(b) ==> b@ == encoded_spec(
            g.data@,
            g.width as int,
            g.height as int,
            format,
            clamp_q_spec(quality as int),
        ) && magic_ok(format, b@) && (redecodable(g.width as int, g.height as int) ==> decode_ok(
            b@,
        ) && decode_width(b@) == g.width && decode_height(b@) == g.height && (format is Png
            ==> decode_pixels(b@) == g.data@) && (format is Jpeg ==> opaque_spec(decode_pixels(b@)))
            && (format is Webp ==> decode_pixels(b@) == webp_source_spec(
            g.data@,
            clamp_q_spec(quality as int),
        ))),
        r matches Err(e) ==> e == ImgError::EncodeError,
{
    let eq = clamp_quality(quality);
    proof {
        lemma_rgb_len(g.data@.len() as int, g.width as int, g.height as int);
    }
    match format {
        EncodeFormat::Png => {
            let (comp, filt) = png_preset(eq);
            let opaque = is_opaque(g);
            let written = if opaque {
                let rgb = to_rgb(g);
                png_write(&rgb, g.width, g.height, comp, filt, true)
            } else {
                png_write(&g.data, g.width, g.height, comp, filt, false)
            };
            match written {
                Some(b) => {
                    proof {
                        if opaque {
                            crate::grid::lemma_expand_rgb_of_opaque(g.data@);
                        }
                    }
                    Ok(b)
                },
                None => Err(ImgError::EncodeError),
            }
        },
        EncodeFormat::Jpeg => {
            let rgb = to_rgb(g);
            match jpeg_write(&rgb, g.width, g.height, eq) {
                Some(b) => Ok(b),
                None => Err(ImgError::EncodeError),
            }
        },
        EncodeFormat::Webp => {
            let src = prepare_webp_source(g, eq);
            let opaque = is_opaque(&src);
            let written = if opaque {
                let rgb = to_rgb(&src);
                webp_write(&rgb, src.width, src.height, true)
            } else {
                webp_write(&src.data, src.width, src.height, false)
            };
            match written {
                Some(b) => {
                    proof {
                        if opaque {
                            assert(src.data@.len() % 4 == 0) by {
                                lemma_fundamental_div_mod_converse(
                                    src.data@.len() as int,
                                    4,
                                    (src.width * src.height) as int,
                                    0,
                                );
                            }
                            crate::grid::lemma_expand_rgb_of_opaque(src.data@);
                        }
                    }
                    Ok(b)
                },
                None => Err(ImgError::EncodeError),
            }
        },
    }
}

/// A four-byte-per-pixel buffer shrinks to exactly three bytes per
/// pixel when alpha is dropped.
proof fn lemma_rgb_len(len: int, w: int, h: int)
    requires
        len == 4 * (w * h),
        0 <= w,
        0 <= h,
    ensures
        len / 4 * 3 == 3 * (w * h),
        len % 4 == 0,
{
    lemma_fundamental_div_mod_converse(len, 4, w * h, 0);
}

} // verus!
