//! The public pipeline operations: raw bytes in, raw bytes out.
//!
//! Each operation decodes, transforms in pixel space, and re-encodes;
//! every failure is detected before any output is produced.
use vstd::prelude::*;
use vstd::arithmetic::div_mod::lemma_div_is_ordered;
use vstd::arithmetic::div_mod::lemma_fundamental_div_mod_converse;
use vstd::arithmetic::div_mod::lemma_hoist_over_denominator;

use crate::codec::decode_height;
use crate::codec::decode_image;
use crate::codec::decode_ok;
use crate::codec::decode_pixels;
use crate::codec::decode_width;
use crate::codec::resize_raw;
use crate::codec::resized_bytes;
use crate::codec::redecodable;
use crate::encode::EncodeFormat;
use crate::encode::FilterKind;
use crate::encode::clamp_q_spec;
use crate::encode::format_dims_ok;
use crate::encode::magic_ok;
use crate::encode::encode_rgba;
use crate::encode::encoded_spec;
use crate::encode::filter_id;
use crate::encode::webp_source_spec;
use crate::error::ImgError;
use crate::grid::crop_dim;
use crate::grid::crop_grid;
use crate::grid::crop_pixels_spec;
use crate::grid::opaque_spec;
use crate::names::filter_of_name;
use crate::names::format_of_name;
use crate::names::parse_format;
use crate::names::pick_filter;
use crate::sample::warp_grid;
use crate::sample::warp_pixels_spec;

verus! {

/// A zero bound means "unconstrained": it defaults to the source's own
/// dimension.
pub open spec fn bound_or_src(bound: int, src: int) -> int {
    if bound == 0 {
        src
    } else {
        bound
    }
}

/// The numerator of the stricter of the two scale fractions
/// `tw / sw` and `th / sh` (compared by cross-multiplication).
pub open spec fn scale_num(sw: int, sh: int, tw: int, th: int) -> int {
    if tw * sh <= th * sw {
        tw
    } else {
        th
    }
}

/// The denominator of the stricter scale fraction.
pub open spec fn scale_den(sw: int, sh: int, tw: int, th: int) -> int {
    if tw * sh <= th * sw {
        sw
    } else {
        sh
    }
}

/// A source dimension scaled by `num / den` and rounded to nearest,
/// floored at one pixel.
pub open spec fn target_dim(src: int, num: int, den: int) -> int {
    let t = (2 * (src * num) + den) / (2 * den);
    if t < 1 {
        1
    } else {
        t
    }
}

/// The resampler's working buffers for this source and target stay
/// addressable.
pub open spec fn resize_fits(sw: int, tw: int, th: int) -> bool {
    16 * (sw * th) <= usize::MAX && 4 * (tw * th) <= usize::MAX
}

/// What a successful crop returns: a PNG whose decoded grid has the
/// clamped rectangle's dimensions and holds exactly the copied source
/// pixels.
pub open spec fn crop_output_ok(bytes: Seq<u8>, x: int, y: int, w: int, h: int, b: Seq<u8>) -> bool {
    let sw = decode_width(bytes);
    let sh = decode_height(bytes);
    let cw = crop_dim(w, x, sw);
    let ch = crop_dim(h, y, sh);
    let cropped = crop_pixels_spec(decode_pixels(bytes), sw, x, y, cw, ch);
    &&& b == encoded_spec(cropped, cw, ch, EncodeFormat::Png, 90)
    &&& magic_ok(EncodeFormat::Png, b)
    &&& (redecodable(cw, ch) ==> decode_ok(b) && decode_width(b) == cw && decode_height(b) == ch
        && decode_pixels(b) == cropped)
}

/// What a successful perspective crop returns: a PNG whose decoded
/// grid has the requested output dimensions and holds the warped,
/// bilinearly sampled pixels.
pub open spec fn persp_output_ok(
    bytes: Seq<u8>,
    pts: Seq<i64>,
    ow: int,
    oh: int,
    b: Seq<u8>,
) -> bool {
    let warped = warp_pixels_spec(
        decode_pixels(bytes),
        decode_width(bytes),
        decode_height(bytes),
        pts,
        ow,
        oh,
    );
    &&& b == encoded_spec(warped, ow, oh, EncodeFormat::Png, 90)
    &&& magic_ok(EncodeFormat::Png, b)
    &&& (redecodable(ow, oh) ==> decode_ok(b) && decode_width(b) == ow && decode_height(b) == oh
        && decode_pixels(b) == warped)
}

/// What a successful resize returns: a PNG whose decoded grid has
/// exactly the requested dimensions and holds the resampled pixels.
pub open spec fn resize_output_ok(
    bytes: Seq<u8>,
    tw: int,
    th: int,
    f: FilterKind,
    b: Seq<u8>,
) -> bool {
    let rs = resized_bytes(
        decode_pixels(bytes),
        decode_width(bytes),
        decode_height(bytes),
        tw,
        th,
        filter_id(f),
    );
    &&& b == encoded_spec(rs, tw, th, EncodeFormat::Png, 90)
    &&& magic_ok(EncodeFormat::Png, b)
    &&& (redecodable(tw, th) ==> decode_ok(b) && decode_width(b) == tw && decode_height(b) == th
        && decode_pixels(b) == rs)
}

/// What encoding the decoded image as-is returns: the adaptive
/// encoder's output for the chosen format at the clamped quality, with
/// the source's dimensions preserved and, for the lossless formats,
/// its pixels.
pub open spec fn encode_output_ok(bytes: Seq<u8>, f: EncodeFormat, q: int, b: Seq<u8>) -> bool {
    let pix = decode_pixels(bytes);
    let sw = decode_width(bytes);
    let sh = decode_height(bytes);
    &&& b == encoded_spec(pix, sw, sh, f, q)
    &&& magic_ok(f, b)
    &&& (redecodable(sw, sh) ==> decode_ok(b) && decode_width(b) == sw && decode_height(b) == sh
        && (f is Png ==> decode_pixels(b) == pix) && (f is Jpeg ==> opaque_spec(decode_pixels(b)))
        && (f is Webp ==> decode_pixels(b) == webp_source_spec(pix, q)))
}

/// The decoded input exists and is non-degenerate, and at least one
/// bound was supplied.
pub open spec fn optimize_good(bytes: Seq<u8>, max_w: int, max_h: int) -> bool {
    &&& !(max_w == 0 && max_h == 0)
    &&& decode_ok(bytes)
    &&& decode_width(bytes) >= 1
    &&& decode_height(bytes) >= 1
}

/// The stricter scale factor is at least one, so without permission to
/// upscale the source is encoded as-is.
pub open spec fn optimize_noscale(bytes: Seq<u8>, max_w: int, max_h: int, allow: bool) -> bool {
    let sw = decode_width(bytes);
    let sh = decode_height(bytes);
    let tw0 = bound_or_src(max_w, sw);
    let th0 = bound_or_src(max_h, sh);
    !allow && scale_num(sw, sh, tw0, th0) >= scale_den(sw, sh, tw0, th0)
}

/// The width the optimizer scales to.
pub open spec fn opt_target_w(bytes: Seq<u8>, max_w: int, max_h: int) -> int {
    let sw = decode_width(bytes);
    let sh = decode_height(bytes);
    let tw0 = bound_or_src(max_w, sw);
    let th0 = bound_or_src(max_h, sh);
    target_dim(sw, scale_num(sw, sh, tw0, th0), scale_den(sw, sh, tw0, th0))
}

/// The height the optimizer scales to.
pub open spec fn opt_target_h(bytes: Seq<u8>, max_w: int, max_h: int) -> int {
    let sw = decode_width(bytes);
    let sh = decode_height(bytes);
    let tw0 = bound_or_src(max_w, sw);
    let th0 = bound_or_src(max_h, sh);
    target_dim(sh, scale_num(sw, sh, tw0, th0), scale_den(sw, sh, tw0, th0))
}

/// What a successful scaling optimization returns: the chosen format's
/// encoding of the source resized (with Lanczos-3) to the computed
/// target dimensions.
pub open spec fn optimize_resized_ok(
    bytes: Seq<u8>,
    max_w: int,
    max_h: int,
    f: EncodeFormat,
    q: int,
    b: Seq<u8>,
) -> bool {
    let tw = opt_target_w(bytes, max_w, max_h);
    let th = opt_target_h(bytes, max_w, max_h);
    let rs = resized_bytes(
        decode_pixels(bytes),
        decode_width(bytes),
        decode_height(bytes),
        tw,
        th,
        4,
    );
    &&& b == encoded_spec(rs, tw, th, f, q)
    &&& magic_ok(f, b)
    &&& (redecodable(tw, th) ==> decode_ok(b) && decode_width(b) == tw && decode_height(b) == th
        && (f is Png ==> decode_pixels(b) == rs) && (f is Jpeg ==> opaque_spec(decode_pixels(b)))
        && (f is Webp ==> decode_pixels(b) == webp_source_spec(rs, q)))
}

/// Decodes the input, copies the clamped rectangle, and re-encodes it
/// as PNG at quality 90.
///
/// A zero-size rectangle, or an origin entirely outside the source, is
/// an `InvalidRegion`; a rectangle that partially overflows the source
/// is silently shrunk, and every such clamped request succeeds.
pub fn crop_image(data: &[u8], x: u32, y: u32, w: u32, h: u32) -> (r: Result<Vec<u8>, ImgError>)
    ensures
        w == 0 || h == 0 ==> r matches Err(ImgError::InvalidRegion),
        w >= 1 && h >= 1 && !decode_ok(data@) ==> r matches Err(ImgError::DecodeError),
        w >= 1 && h >= 1 && decode_ok(data@) && (x as int >= decode_width(data@) || y as int
            >= decode_height(data@)) ==> r matches Err(ImgError::InvalidRegion),
        w >= 1 && h >= 1 && decode_ok(data@) && (x as int) < decode_width(data@) && (y as int)
            < decode_height(data@) ==> (r matches Ok(b) && crop_output_ok(
            data@,
            x as int,
            y as int,
            w as int,
            h as int,
            b@,
        )),
{
    if w == 0 || h == 0 {
        return Err(ImgError::InvalidRegion);
    }
    let g = match decode_image(data) {
        Ok(g) => g,
        Err(e) => {
            return Err(e);
        },
    };
    if x >= g.width || y >= g.height {
        return Err(ImgError::InvalidRegion);
    }
    let cropped = match crop_grid(&g, x, y, w, h) {
        Ok(c) => c,
        Err(_) => {
            return Err(ImgError::EncodeError);
        },
    };
    match encode_rgba(&cropped, EncodeFormat::Png, 90) {
        Ok(b) => Ok(b),
        Err(e) => Err(e),
    }
}

/// Decodes the input, warps the quadrilateral given by the four
/// fixed-point corner points onto a fully populated output of the
/// requested size, and re-encodes as PNG at quality 90.
///
/// The point list must hold exactly eight values (x and y of the four
/// corners, ordered top-left, top-right, bottom-right, bottom-left);
/// any other length is an `InvalidParameters` before any decoding or
/// sampling is attempted, as is a zero output dimension or an output
/// too large to address. Every remaining request on a decodable image
/// succeeds: a degenerate quadrilateral still fills the output, and
/// out-of-range source coordinates are clamped, never an error.
pub fn perspective_crop(data: &[u8], points: &Vec<i64>, out_w: u32, out_h: u32) -> (r: Result<
    Vec<u8>,
    ImgError,
>)
    ensures
        points@.len() != 8 ==> r matches Err(ImgError::InvalidParameters),
        points@.len() == 8 && (out_w == 0 || out_h == 0) ==> r matches Err(
            ImgError::InvalidParameters,
        ),
        points@.len() == 8 && out_w >= 1 && out_h >= 1 && 4 * (out_w * out_h) > usize::MAX
            ==> r matches Err(ImgError::InvalidParameters),
        points@.len() == 8 && out_w >= 1 && out_h >= 1 && 4 * (out_w * out_h) <= usize::MAX
            && !decode_ok(data@) ==> r matches Err(ImgError::DecodeError),
        points@.len() == 8 && out_w >= 1 && out_h >= 1 && 4 * (out_w * out_h) <= usize::MAX
            && decode_ok(data@) && (decode_width(data@) <= 0 || decode_height(data@) <= 0)
            ==> r matches Err(ImgError::DecodeError),
        points@.len() == 8 && out_w >= 1 && out_h >= 1 && 4 * (out_w * out_h) <= usize::MAX
            && decode_ok(data@) && decode_width(data@) >= 1 && decode_height(data@) >= 1 ==> (
        r matches Ok(b) && persp_output_ok(data@, points@, out_w as int, out_h as int, b@)),
{
    if points.len() != 8 {
        return Err(ImgError::InvalidParameters);
    }
    if out_w == 0 || out_h == 0 {
        return Err(ImgError::InvalidParameters);
    }
    proof {
        assert((out_w as u128) * (out_h as u128) < 0x10000000000000000u128) by (nonlinear_arith)
            requires
                out_w <= 0xffff_ffffu32,
                out_h <= 0xffff_ffffu32;
    }
    let area: u128 = 4u128 * ((out_w as u128) * (out_h as u128));
    if area > usize::MAX as u128 {
        return Err(ImgError::InvalidParameters);
    }
    let g = match decode_image(data) {
        Ok(g) => g,
        Err(e) => {
            return Err(e);
        },
    };
    if g.width == 0 || g.height == 0 {
        return Err(ImgError::DecodeError);
    }
    let warped = warp_grid(&g, points, out_w, out_h);
    match encode_rgba(&warped, EncodeFormat::Png, 90) {
        Ok(b) => Ok(b),
        Err(e) => Err(e),
    }
}

/// Decodes the input, resamples it to exactly the requested dimensions
/// with the named kernel (unknown names select Lanczos-3), and
/// re-encodes as PNG at quality 90. Zero target dimensions are an
/// `InvalidParameters`; every other request on a decodable image
/// succeeds.
pub fn resize_image(data: &[u8], width: u32, height: u32, filter: &str) -> (r: Result<
    Vec<u8>,
    ImgError,
>)
    ensures
        width == 0 || height == 0 ==> r matches Err(ImgError::InvalidParameters),
        width >= 1 && height >= 1 && !decode_ok(data@) ==> r matches Err(ImgError::DecodeError),
        width >= 1 && height >= 1 && decode_ok(data@) && (decode_width(data@) <= 0
            || decode_height(data@) <= 0) ==> r matches Err(ImgError::DecodeError),
        width >= 1 && height >= 1 && decode_ok(data@) && decode_width(data@) >= 1
            && decode_height(data@) >= 1 && !resize_fits(
            decode_width(data@),
            width as int,
            height as int,
        ) ==> r matches Err(ImgError::InvalidParameters),
        width >= 1 && height >= 1 && decode_ok(data@) && decode_width(data@) >= 1
            && decode_height(data@) >= 1 && resize_fits(
            decode_width(data@),
            width as int,
            height as int,
        ) ==> (r matches Ok(b) && resize_output_ok(
            data@,
            width as int,
            height as int,
            filter_of_name(filter@),
            b@,
        )),
{
    if width == 0 || height == 0 {
        return Err(ImgError::InvalidParameters);
    }
    let g = match decode_image(data) {
        Ok(g) => g,
        Err(e) => {
            return Err(e);
        },
    };
    if g.width == 0 || g.height == 0 {
        return Err(ImgError::DecodeError);
    }
    let f = pick_filter(filter);
    proof {
        assert((g.width as u128) * (height as u128) < 0x10000000000000000u128 && (
        width as u128) * (height as u128) < 0x10000000000000000u128) by (nonlinear_arith)
            requires
                g.width <= 0xffff_ffffu32,
                width <= 0xffff_ffffu32,
                height <= 0xffff_ffffu32;
    }
    let mid: u128 = 16u128 * ((g.width as u128) * (height as u128));
    let fin: u128 = 4u128 * ((width as u128) * (height as u128));
    if mid > usize::MAX as u128 || fin > usize::MAX as u128 {
        return Err(ImgError::InvalidParameters);
    }
    let rg = resize_raw(&g, width, height, f);
    match encode_rgba(&rg, EncodeFormat::Png, 90) {
        Ok(b) => Ok(b),
        Err(e) => Err(e),
    }
}

/// Decodes the input and re-encodes it in the named format at the
/// given quality (clamped to `[1, 100]`; unknown format names default
/// to PNG). Succeeds exactly when the chosen format can carry the
/// decoded dimensions.
pub fn compress_image(data: &[u8], quality: u8, format: &str) -> (r: Result<Vec<u8>, ImgError>)
    ensures
        !decode_ok(data@) ==> r matches Err(ImgError::DecodeError),
        decode_ok(data@) ==> ((r is Ok <==> format_dims_ok(
            format_of_name(format@),
            decode_width(data@),
            decode_height(data@),
        )) && (r matches Ok(b) ==> encode_output_ok(
            data@,
            format_of_name(format@),
            clamp_q_spec(quality as int),
            b@,
        )) && (r matches Err(e) ==> e == ImgError::EncodeError)),
{
    let g = match decode_image(data) {
        Ok(g) => g,
        Err(e) => {
            return Err(e);
        },
    };
    let f = parse_format(format);
    match encode_rgba(&g, f, quality) {
        Ok(b) => Ok(b),
        Err(e) => Err(e),
    }
}

/// When both bounds cover the source (each at least its dimension),
/// the stricter scale factor is at least one; so with upscaling
/// forbidden the optimizer takes its as-is path and (by the contract
/// of `optimize_image`) the output keeps the source's unscaled
/// dimensions.
pub proof fn lemma_bounds_cover_no_upscale(sw: int, sh: int, tw: int, th: int)
    requires
        1 <= sw,
        1 <= sh,
        sw <= tw,
        sh <= th,
    ensures
        scale_num(sw, sh, tw, th) >= scale_den(sw, sh, tw, th),
{
}

/// A scaled dimension never exceeds the bound that drove the scale.
proof fn lemma_target_bounded(src: int, num: int, den: int, bound: int)
    requires
        1 <= den,
        0 <= num,
        1 <= src,
        0 <= bound,
        src * num <= bound * den,
    ensures
        (2 * (src * num) + den) / (2 * den) <= bound,
        target_dim(src, num, den) <= (if bound < 1 {
            1
        } else {
            bound
        }),
{
    assert(2 * (src * num) + den <= bound * (2 * den) + den) by (nonlinear_arith)
        requires
            src * num <= bound * den;
    lemma_div_is_ordered(2 * (src * num) + den, bound * (2 * den) + den, 2 * den);
    lemma_hoist_over_denominator(den, bound, (2 * den) as nat);
    lemma_fundamental_div_mod_converse(den, 2 * den, 0, den);
}

/// Computes both target dimensions for the chosen scale fraction,
/// each rounded to nearest and floored at one pixel.
fn scale_targets(sw: u32, sh: u32, num: u32, den: u32, bw: u32, bh: u32) -> (r: (u32, u32))
    requires
        1 <= sw,
        1 <= sh,
        1 <= num,
        1 <= den,
        (sw as int) * (num as int) <= (bw as int) * (den as int),
        (sh as int) * (num as int) <= (bh as int) * (den as int),
    ensures
        r.0 as int == target_dim(sw as int, num as int, den as int),
        r.1 as int == target_dim(sh as int, num as int, den as int),
{
    proof {
        assert((sw as int) * (num as int) < 0x10000000000000000 && (sh as int) * (num as int)
            < 0x10000000000000000) by (nonlinear_arith)
            requires
                sw <= 0xffff_ffffu32,
                sh <= 0xffff_ffffu32,
                num <= 0xffff_ffffu32;
        lemma_target_bounded(sw as int, num as int, den as int, bw as int);
        lemma_target_bounded(sh as int, num as int, den as int, bh as int);
    }
    let tn_w: u128 = (2u128 * ((sw as u128) * (num as u128)) + (den as u128)) / (2u128 * (
    den as u128));
    let tn_h: u128 = (2u128 * ((sh as u128) * (num as u128)) + (den as u128)) / (2u128 * (
    den as u128));
    let tw: u32 = if tn_w < 1 {
        1
    } else {
        tn_w as u32
    };
    let th: u32 = if tn_h < 1 {
        1
    } else {
        tn_h as u32
    };
    (tw, th)
}

/// Decodes the input, scales it uniformly to fit within the given
/// bounds (a zero bound is unconstrained; the stricter constraint
/// wins, preserving aspect ratio), and encodes the result in the named
/// format at the given quality.
///
/// With `allow_upscale` false, a scale of one or more leaves the
/// source unscaled: the image is never enlarged unless explicitly
/// permitted. Supplying no bound at all is an `InvalidParameters`.
#[verifier::rlimit(100)]
pub fn optimize_image(
    data: &[u8],
    max_width: u32,
    max_height: u32,
    quality: u8,
    format: &str,
    allow_upscale: bool,
) -> (r: Result<Vec<u8>, ImgError>)
    ensures
        max_width == 0 && max_height == 0 ==> r matches Err(ImgError::InvalidParameters),
        !(max_width == 0 && max_height == 0) && !decode_ok(data@) ==> r matches Err(
            ImgError::DecodeError,
        ),
        !(max_width == 0 && max_height == 0) && decode_ok(data@) && (decode_width(data@) <= 0
            || decode_height(data@) <= 0) ==> r matches Err(ImgError::DecodeError),
        optimize_good(data@, max_width as int, max_height as int) && optimize_noscale(
            data@,
            max_width as int,
            max_height as int,
            allow_upscale,
        ) ==> ((r is Ok <==> format_dims_ok(
            format_of_name(format@),
            decode_width(data@),
            decode_height(data@),
        )) && (r matches Ok(b) ==> encode_output_ok(
            data@,
            format_of_name(format@),
            clamp_q_spec(quality as int),
            b@,
        )) && (r matches Err(e) ==> e == ImgError::EncodeError)),
        optimize_good(data@, max_width as int, max_height as int) && !optimize_noscale(
            data@,
            max_width as int,
            max_height as int,
            allow_upscale,
        ) && !resize_fits(
            decode_width(data@),
            opt_target_w(data@, max_width as int, max_height as int),
            opt_target_h(data@, max_width as int, max_height as int),
        ) ==> r matches Err(ImgError::InvalidParameters),
        optimize_good(data@, max_width as int, max_height as int) && !optimize_noscale(
            data@,
            max_width as int,
            max_height as int,
            allow_upscale,
        ) && resize_fits(
            decode_width(data@),
            opt_target_w(data@, max_width as int, max_height as int),
            opt_target_h(data@, max_width as int, max_height as int),
        ) ==> ((r is Ok <==> format_dims_ok(
            format_of_name(format@),
            opt_target_w(data@, max_width as int, max_height as int),
            opt_target_h(data@, max_width as int, max_height as int),
        )) && (r matches Ok(b) ==> optimize_resized_ok(
            data@,
            max_width as int,
            max_height as int,
            format_of_name(format@),
            clamp_q_spec(quality as int),
            b@,
        )) && (r matches Err(e) ==> e == ImgError::EncodeError)),
{
    if max_width == 0 && max_height == 0 {
        return Err(ImgError::InvalidParameters);
    }
    let g = match decode_image(data) {
        Ok(g) => g,
        Err(e) => {
            return Err(e);
        },
    };
    if g.width == 0 || g.height == 0 {
        return Err(ImgError::DecodeError);
    }
    let sw = g.width;
    let sh = g.height;
    let f = parse_format(format);
    let tw0: u32 = if max_width == 0 {
        sw
    } else {
        max_width
    };
    let th0: u32 = if max_height == 0 {
        sh
    } else {
        max_height
    };
    proof {
        assert((tw0 as int) * (sh as int) <= 0xffff_fffe_0000_0001 && (th0 as int) * (sw as int)
            <= 0xffff_fffe_0000_0001) by (nonlinear_arith)
            requires
                tw0 <= 0xffff_ffffu32,
                sh <= 0xffff_ffffu32,
                th0 <= 0xffff_ffffu32,
                sw <= 0xffff_ffffu32;
    }
    let cross_w: u64 = (tw0 as u64) * (sh as u64);
    let cross_h: u64 = (th0 as u64) * (sw as u64);
    let num: u32 = if cross_w <= cross_h {
        tw0
    } else {
        th0
    };
    let den: u32 = if cross_w <= cross_h {
        sw
    } else {
        sh
    };
    if !allow_upscale && num >= den {
        return match encode_rgba(&g, f, quality) {
            Ok(b) => Ok(b),
            Err(e) => Err(e),
        };
    }
    proof {
        if cross_w <= cross_h {
            assert((sw as int) * (num as int) <= (tw0 as int) * (den as int) && (sh as int) * (
            num as int) <= (th0 as int) * (den as int)) by (nonlinear_arith)
                requires
                    num == tw0,
                    den == sw,
                    (tw0 as int) * (sh as int) <= (th0 as int) * (sw as int);
        } else {
            assert((sw as int) * (num as int) <= (tw0 as int) * (den as int) && (sh as int) * (
            num as int) <= (th0 as int) * (den as int)) by (nonlinear_arith)
                requires
                    num == th0,
                    den == sh,
                    (th0 as int) * (sw as int) <= (tw0 as int) * (sh as int);
        }
    }
    let (tw, th) = scale_targets(sw, sh, num, den, tw0, th0);
    proof {
        assert(tw as int == opt_target_w(data@, max_width as int, max_height as int));
        assert(th as int == opt_target_h(data@, max_width as int, max_height as int));
        assert((sw as u128) * (th as u128) < 0x10000000000000000u128 && (tw as u128) * (
        th as u128) < 0x10000000000000000u128) by (nonlinear_arith)
            requires
                sw <= 0xffff_ffffu32,
                tw <= 0xffff_ffffu32,
                th <= 0xffff_ffffu32;
    }
    let mid: u128 = 16u128 * ((sw as u128) * (th as u128));
    let fin: u128 = 4u128 * ((tw as u128) * (th as u128));
    if mid > usize::MAX as u128 || fin > usize::MAX as u128 {
        return Err(ImgError::InvalidParameters);
    }
    let rg = resize_raw(&g, tw, th, FilterKind::Lanczos3);
    match encode_rgba(&rg, f, quality) {
        Ok(b) => Ok(b),
        Err(e) => Err(e),
    }
}


} // verus!
