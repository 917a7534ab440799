//! Fixed-point bilinear sampling and four-corner (bilinear patch)
//! warping.
//!
//! Real-valued source coordinates are carried as signed fixed-point
//! numbers with sixteen fractional bits: the value `v` stands for the
//! real number `v / 65536`. Blending two fixed-point weights produces
//! thirty-two fractional bits, so a blended channel or coordinate is
//! rounded to nearest by adding half of `2^32` and dividing by `2^32`.
use vstd::prelude::*;
use vstd::arithmetic::div_mod::lemma_div_is_ordered;
use vstd::arithmetic::div_mod::lemma_fundamental_div_mod_converse;
use vstd::arithmetic::div_mod::lemma_hoist_over_denominator;
use vstd::arithmetic::div_mod::lemma_mod_bound;

use crate::grid::PixelGrid;
use crate::grid::lemma_flat_index;
use crate::grid::lemma_row_col;

verus! {

/// A value clamped into `[lo, hi]`.
pub open spec fn clamp_spec(v: int, lo: int, hi: int) -> int {
    if v < lo {
        lo
    } else if v > hi {
        hi
    } else {
        v
    }
}

/// Four-neighbor blend of one channel: linear interpolation along x at
/// the top and bottom rows, then along y, rounded to nearest.
pub open spec fn lerp2_spec(p00: int, p10: int, p01: int, p11: int, dx: int, dy: int) -> int {
    let top = p00 * (65536 - dx) + p10 * dx;
    let bot = p01 * (65536 - dx) + p11 * dx;
    (top * (65536 - dy) + bot * dy + 0x8000_0000) / 0x1_0000_0000
}

/// Channel `c` of the bilinear sample of a `w` by `h` grid at the
/// fixed-point coordinate `(x, y)`: the coordinate is clamped to the
/// grid, split into integer and fractional parts, and the four
/// neighboring pixels are blended. Edge pixels repeat past the border.
pub open spec fn sample_spec(pix: Seq<u8>, w: int, h: int, x: int, y: int, c: int) -> int {
    let cx = clamp_spec(x, 0, (w - 1) * 65536);
    let cy = clamp_spec(y, 0, (h - 1) * 65536);
    let x0 = cx / 65536;
    let y0 = cy / 65536;
    let dx = cx % 65536;
    let dy = cy % 65536;
    let x1 = if x0 + 1 < w {
        x0 + 1
    } else {
        w - 1
    };
    let y1 = if y0 + 1 < h {
        y0 + 1
    } else {
        h - 1
    };
    lerp2_spec(
        pix[4 * (y0 * w + x0) + c] as int,
        pix[4 * (y0 * w + x1) + c] as int,
        pix[4 * (y1 * w + x0) + c] as int,
        pix[4 * (y1 * w + x1) + c] as int,
        dx,
        dy,
    )
}

/// The sampled channel is always a byte.
pub proof fn lemma_sample_in_byte(pix: Seq<u8>, w: int, h: int, x: int, y: int, c: int)
    requires
        pix.len() == 4 * (w * h),
        w >= 1,
        h >= 1,
        0 <= c < 4,
    ensures
        0 <= sample_spec(pix, w, h, x, y, c) <= 255,
{
    let cx = clamp_spec(x, 0, (w - 1) * 65536);
    let cy = clamp_spec(y, 0, (h - 1) * 65536);
    let dx = cx % 65536;
    let dy = cy % 65536;
    lemma_mod_bound(cx, 65536);
    lemma_mod_bound(cy, 65536);
    let x0 = cx / 65536;
    let y0 = cy / 65536;
    let x1 = if x0 + 1 < w {
        x0 + 1
    } else {
        w - 1
    };
    let y1 = if y0 + 1 < h {
        y0 + 1
    } else {
        h - 1
    };
    let p00 = pix[4 * (y0 * w + x0) + c] as int;
    let p10 = pix[4 * (y0 * w + x1) + c] as int;
    let p01 = pix[4 * (y1 * w + x0) + c] as int;
    let p11 = pix[4 * (y1 * w + x1) + c] as int;
    lemma_lerp2_in_byte(p00, p10, p01, p11, dx, dy);
}

/// Blending byte channels with weights that sum to one whole unit
/// stays within a byte.
pub proof fn lemma_lerp2_in_byte(p00: int, p10: int, p01: int, p11: int, dx: int, dy: int)
    requires
        0 <= p00 <= 255,
        0 <= p10 <= 255,
        0 <= p01 <= 255,
        0 <= p11 <= 255,
        0 <= dx < 65536,
        0 <= dy < 65536,
    ensures
        0 <= lerp2_spec(p00, p10, p01, p11, dx, dy) <= 255,
{
    let top = p00 * (65536 - dx) + p10 * dx;
    let bot = p01 * (65536 - dx) + p11 * dx;
    assert(0 <= top <= 255 * 65536 && 0 <= bot <= 255 * 65536) by (nonlinear_arith)
        requires
            0 <= p00 <= 255,
            0 <= p10 <= 255,
            0 <= p01 <= 255,
            0 <= p11 <= 255,
            0 <= dx < 65536,
            top == p00 * (65536 - dx) + p10 * dx,
            bot == p01 * (65536 - dx) + p11 * dx;
    let num = top * (65536 - dy) + bot * dy + 0x8000_0000;
    assert(0 <= num < 256 * 0x1_0000_0000) by (nonlinear_arith)
        requires
            0 <= top <= 255 * 65536,
            0 <= bot <= 255 * 65536,
            0 <= dy < 65536,
            num == top * (65536 - dy) + bot * dy + 0x8000_0000;
    lemma_div_is_ordered(0, num, 0x1_0000_0000);
    lemma_div_is_ordered(num, 256 * 0x1_0000_0000 - 1, 0x1_0000_0000);
    lemma_fundamental_div_mod_converse(256 * 0x1_0000_0000 - 1, 0x1_0000_0000, 255, 0xffff_ffff);
}

/// Bilinear sample of one channel; the single interpolation primitive
/// reused by every geometric transform that is not a pixel-aligned
/// copy.
#[verifier::rlimit(60)]
pub fn sample_bilinear(g: &PixelGrid, x: i128, y: i128, c: usize) -> (v: u8)
    requires
        g.wf(),
        g.width >= 1,
        g.height >= 1,
        c < 4,
    ensures
        v as int == sample_spec(
            g.data@,
            g.width as int,
            g.height as int,
            x as int,
            y as int,
            c as int,
        ),
{
    let _data_len: usize = g.data.len();
    let w64 = g.width as u64;
    let h64 = g.height as u64;
    let hi_x: i128 = ((w64 - 1) as i128) * 65536;
    let hi_y: i128 = ((h64 - 1) as i128) * 65536;
    let cx: u64 = if x < 0 {
        0
    } else if x > hi_x {
        hi_x as u64
    } else {
        x as u64
    };
    let cy: u64 = if y < 0 {
        0
    } else if y > hi_y {
        hi_y as u64
    } else {
        y as u64
    };
    let x0: u64 = cx / 65536;
    let y0: u64 = cy / 65536;
    let dx: u64 = cx % 65536;
    let dy: u64 = cy % 65536;
    proof {
        lemma_div_is_ordered(cx as int, (g.width - 1) * 65536, 65536);
        lemma_fundamental_div_mod_converse((g.width - 1) * 65536, 65536, g.width - 1, 0);
        lemma_div_is_ordered(cy as int, (g.height - 1) * 65536, 65536);
        lemma_fundamental_div_mod_converse((g.height - 1) * 65536, 65536, g.height - 1, 0);
        lemma_mod_bound(cx as int, 65536);
        lemma_mod_bound(cy as int, 65536);
    }
    let x1: u64 = if x0 + 1 < w64 {
        x0 + 1
    } else {
        w64 - 1
    };
    let y1: u64 = if y0 + 1 < h64 {
        y0 + 1
    } else {
        h64 - 1
    };
    let sw = g.width as usize;
    proof {
        lemma_row_col(x0 as int, y0 as int, g.width as int, g.height as int);
        lemma_row_col(x1 as int, y0 as int, g.width as int, g.height as int);
        lemma_row_col(x0 as int, y1 as int, g.width as int, g.height as int);
        lemma_row_col(x1 as int, y1 as int, g.width as int, g.height as int);
    }
    let p00 = read_chan(g, x0 as usize, y0 as usize, c);
    let p10 = read_chan(g, x1 as usize, y0 as usize, c);
    let p01 = read_chan(g, x0 as usize, y1 as usize, c);
    let p11 = read_chan(g, x1 as usize, y1 as usize, c);
    proof {
        assert(0 <= (p00 as int) * (65536 - dx) + (p10 as int) * dx <= 255 * 65536 && 0 <= (
        p01 as int) * (65536 - dx) + (p11 as int) * dx <= 255 * 65536) by (nonlinear_arith)
            requires
                p00 <= 255,
                p10 <= 255,
                p01 <= 255,
                p11 <= 255,
                0 <= dx < 65536;
    }
    let top: u64 = (p00 as u64) * (65536 - dx) + (p10 as u64) * dx;
    let bot: u64 = (p01 as u64) * (65536 - dx) + (p11 as u64) * dx;
    proof {
        assert(0 <= (top as int) * (65536 - dy) + (bot as int) * dy < 256 * 0x1_0000_0000
            - 0x8000_0000) by (nonlinear_arith)
            requires
                0 <= top <= 255 * 65536,
                0 <= bot <= 255 * 65536,
                0 <= dy < 65536;
    }
    let num: u64 = top * (65536 - dy) + bot * dy + 0x8000_0000;
    let v64: u64 = num / 0x1_0000_0000;
    proof {
        lemma_div_is_ordered(num as int, 256 * 0x1_0000_0000 - 1, 0x1_0000_0000);
        lemma_fundamental_div_mod_converse(
            256 * 0x1_0000_0000 - 1,
            0x1_0000_0000,
            255,
            0xffff_ffff,
        );
    }
    v64 as u8
}

/// Reads channel `c` of the pixel at `(x, y)`.
fn read_chan(g: &PixelGrid, x: usize, y: usize, c: usize) -> (v: u8)
    requires
        g.wf(),
        x < g.width,
        y < g.height,
        c < 4,
    ensures
        v == g.chan(x as int, y as int, c as int),
{
    let _data_len: usize = g.data.len();
    proof {
        lemma_row_col(x as int, y as int, g.width as int, g.height as int);
    }
    let idx: usize = 4 * (y * (g.width as usize) + x) + c;
    g.data[idx]
}

/// Maps one normalized output coordinate (fixed-point, in `[0, 1]`)
/// through the bilinear patch defined by four corner values: the four
/// corners are weighted by the products of the normalized coordinate
/// and its complement, and the doubly-scaled sum is rounded back to
/// fixed point.
pub open spec fn warp_coord_spec(u: int, v: int, p0: int, p1: int, p2: int, p3: int) -> int {
    ((65536 - u) * (65536 - v) * p0 + u * (65536 - v) * p1 + u * v * p2 + (65536 - u) * v * p3
        + 0x8000_0000) / 0x1_0000_0000
}

/// Evaluates the patch mapping for one axis.
pub fn warp_coord(u: u64, v: u64, p0: i64, p1: i64, p2: i64, p3: i64) -> (r: i128)
    requires
        u <= 65536,
        v <= 65536,
    ensures
        r as int == warp_coord_spec(u as int, v as int, p0 as int, p1 as int, p2 as int, p3 as int),
{
    let su: i128 = (65536 - u) as i128;
    let sv: i128 = (65536 - v) as i128;
    let uu: i128 = u as i128;
    let vv: i128 = v as i128;
    proof {
        assert(0 <= su * sv <= 0x1_0000_0000 && 0 <= uu * sv <= 0x1_0000_0000 && 0 <= uu * vv
            <= 0x1_0000_0000 && 0 <= su * vv <= 0x1_0000_0000) by (nonlinear_arith)
            requires
                0 <= su <= 65536,
                0 <= sv <= 65536,
                0 <= uu <= 65536,
                0 <= vv <= 65536;
    }
    let w00: i128 = su * sv;
    let w10: i128 = uu * sv;
    let w11: i128 = uu * vv;
    let w01: i128 = su * vv;
    proof {
        lemma_warp_term(w00 as int, p0 as int);
        lemma_warp_term(w10 as int, p1 as int);
        lemma_warp_term(w11 as int, p2 as int);
        lemma_warp_term(w01 as int, p3 as int);
    }
    let num: i128 = w00 * (p0 as i128) + w10 * (p1 as i128) + w11 * (p2 as i128) + w01 * (
    p3 as i128) + 0x8000_0000;
    let adj: i128 = num + 0x10000000000000000000000000i128;
    proof {
        assert(adj >= 0);
    }
    let q: u128 = (adj as u128) / 0x1_0000_0000;
    proof {
        lemma_hoist_over_denominator(num as int, 0x100000000000000000, 0x1_0000_0000nat);
        assert(0x10000000000000000000000000 == 0x100000000000000000 * 0x1_0000_0000int);
        assert(q as int == num as int / 0x1_0000_0000 + 0x100000000000000000);
    }
    (q as i128) - 0x100000000000000000i128
}

/// A patch weight times a corner coordinate stays far inside the
/// 128-bit range.
proof fn lemma_warp_term(w: int, p: int)
    by (nonlinear_arith)
    requires
        0 <= w <= 0x1_0000_0000,
        -0x8000_0000_0000_0000 <= p <= 0x7fff_ffff_ffff_ffff,
    ensures
        -0x8000_0000_0000_0000_0000_0000 <= w * p <= 0x8000_0000_0000_0000_0000_0000,
{
}


/// The normalized fixed-point coordinate of output row or column `p`
/// out of `n`: `p / (n - 1)` in fixed point, or zero when the axis has
/// a single pixel.
pub open spec fn warp_u_spec(p: int, n: int) -> int {
    if n > 1 {
        (p * 65536) / (n - 1)
    } else {
        0
    }
}

/// The source x coordinate the patch maps output position `(i, j)` to.
pub open spec fn warp_sx_spec(pts: Seq<i64>, ow: int, oh: int, i: int, j: int) -> int {
    warp_coord_spec(
        warp_u_spec(i, ow),
        warp_u_spec(j, oh),
        pts[0] as int,
        pts[2] as int,
        pts[4] as int,
        pts[6] as int,
    )
}

/// The source y coordinate the patch maps output position `(i, j)` to.
pub open spec fn warp_sy_spec(pts: Seq<i64>, ow: int, oh: int, i: int, j: int) -> int {
    warp_coord_spec(
        warp_u_spec(i, ow),
        warp_u_spec(j, oh),
        pts[1] as int,
        pts[3] as int,
        pts[5] as int,
        pts[7] as int,
    )
}

/// Channel `c` of warped output pixel `(i, j)`: its normalized position
/// blended through the corner patch, then sampled bilinearly.
pub open spec fn warp_chan_spec(
    pix: Seq<u8>,
    sw: int,
    sh: int,
    pts: Seq<i64>,
    ow: int,
    oh: int,
    i: int,
    j: int,
    c: int,
) -> int {
    sample_spec(
        pix,
        sw,
        sh,
        warp_sx_spec(pts, ow, oh, i, j),
        warp_sy_spec(pts, ow, oh, i, j),
        c,
    )
}

/// Byte `t` of the warped output, by its flat offset.
pub open spec fn warp_byte_spec(
    pix: Seq<u8>,
    sw: int,
    sh: int,
    pts: Seq<i64>,
    ow: int,
    oh: int,
    t: int,
) -> int {
    warp_chan_spec(pix, sw, sh, pts, ow, oh, (t % (4 * ow)) / 4, t / (4 * ow), (t % (4 * ow)) % 4)
}

/// The whole pixel buffer of a warp output.
pub open spec fn warp_pixels_spec(
    pix: Seq<u8>,
    sw: int,
    sh: int,
    pts: Seq<i64>,
    ow: int,
    oh: int,
) -> Seq<u8> {
    Seq::new((4 * (ow * oh)) as nat, |t: int| warp_byte_spec(pix, sw, sh, pts, ow, oh, t) as u8)
}

/// Normalizing a position against its axis stays within one unit.
proof fn lemma_warp_u_bounds(p: int, n: int)
    requires
        0 <= p < n,
    ensures
        0 <= warp_u_spec(p, n) <= 65536,
{
    if n > 1 {
        lemma_div_is_ordered(0, p * 65536, n - 1);
        lemma_div_is_ordered(p * 65536, (n - 1) * 65536, n - 1);
        lemma_fundamental_div_mod_converse((n - 1) * 65536, n - 1, 65536, 0);
    }
}

/// Warps the quadrilateral region of the source given by the four
/// corner points (fixed-point, ordered top-left, top-right,
/// bottom-right, bottom-left as x,y pairs) onto a fully populated
/// rectangular output: each destination pixel takes its normalized
/// position, blends the corners to a source coordinate, and samples
/// the source bilinearly. Out-of-range source coordinates are clamped
/// by the sampler, never an error.
pub fn warp_grid(src: &PixelGrid, pts: &Vec<i64>, out_w: u32, out_h: u32) -> (r: PixelGrid)
    requires
        src.wf(),
        src.width >= 1,
        src.height >= 1,
        pts@.len() == 8,
        out_w >= 1,
        out_h >= 1,
        4 * (out_w * out_h) <= usize::MAX,
    ensures
        r.wf(),
        r.width == out_w,
        r.height == out_h,
        r.data@ == warp_pixels_spec(
            src.data@,
            src.width as int,
            src.height as int,
            pts@,
            out_w as int,
            out_h as int,
        ),
        forall|i: int, j: int, c: int|
            0 <= i < out_w && 0 <= j < out_h && 0 <= c < 4 ==> r.chan(i, j, c) as int
                == warp_chan_spec(
                src.data@,
                src.width as int,
                src.height as int,
                pts@,
                out_w as int,
                out_h as int,
                i,
                j,
                c,
            ),
{
    let ow = out_w as usize;
    let oh = out_h as usize;
    let p0x = pts[0];
    let p0y = pts[1];
    let p1x = pts[2];
    let p1y = pts[3];
    let p2x = pts[4];
    let p2y = pts[5];
    let p3x = pts[6];
    let p3y = pts[7];
    let ghost sw = src.width as int;
    let ghost sh = src.height as int;
    let mut out: Vec<u8> = Vec::new();
    let mut j: usize = 0;
    while j < oh
        invariant
            0 <= j <= oh,
            ow == out_w,
            oh == out_h,
            1 <= ow,
            1 <= oh,
            4 * (ow * oh) <= usize::MAX,
            src.wf(),
            src.width >= 1,
            src.height >= 1,
            sw == src.width as int,
            sh == src.height as int,
            pts@.len() == 8,
            p0x == pts@[0] && p0y == pts@[1] && p1x == pts@[2] && p1y == pts@[3],
            p2x == pts@[4] && p2y == pts@[5] && p3x == pts@[6] && p3y == pts@[7],
            out@.len() == 4 * (j * ow),
            forall|t: int|
                0 <= t < out@.len() ==> out@[t] as int == warp_byte_spec(
                    src.data@,
                    sw,
                    sh,
                    pts@,
                    ow as int,
                    oh as int,
                    t,
                ),
        decreases oh - j,
    {
        let v: u64 = if out_h > 1 {
            ((j as u64) * 65536) / ((out_h - 1) as u64)
        } else {
            0
        };
        proof {
            lemma_warp_u_bounds(j as int, oh as int);
            assert(v as int == warp_u_spec(j as int, oh as int));
        }
        let mut i: usize = 0;
        while i < ow
            invariant
                0 <= i <= ow,
                0 <= j < oh,
                ow == out_w,
                oh == out_h,
                1 <= ow,
                1 <= oh,
                4 * (ow * oh) <= usize::MAX,
                src.wf(),
                src.width >= 1,
                src.height >= 1,
                sw == src.width as int,
                sh == src.height as int,
                pts@.len() == 8,
                p0x == pts@[0] && p0y == pts@[1] && p1x == pts@[2] && p1y == pts@[3],
                p2x == pts@[4] && p2y == pts@[5] && p3x == pts@[6] && p3y == pts@[7],
                v as int == warp_u_spec(j as int, oh as int),
                v <= 65536,
                out@.len() == 4 * (j * ow + i),
                forall|t: int|
                    0 <= t < out@.len() ==> out@[t] as int == warp_byte_spec(
                        src.data@,
                        sw,
                        sh,
                        pts@,
                        ow as int,
                        oh as int,
                        t,
                    ),
            decreases ow - i,
        {
            let u: u64 = if out_w > 1 {
                ((i as u64) * 65536) / ((out_w - 1) as u64)
            } else {
                0
            };
            proof {
                lemma_warp_u_bounds(i as int, ow as int);
                assert(u as int == warp_u_spec(i as int, ow as int));
                lemma_row_col(i as int, j as int, ow as int, oh as int);
            }
            let sx: i128 = warp_coord(u, v, p0x, p1x, p2x, p3x);
            let sy: i128 = warp_coord(u, v, p0y, p1y, p2y, p3y);
            proof {
                assert(sx as int == warp_sx_spec(pts@, ow as int, oh as int, i as int, j as int));
                assert(sy as int == warp_sy_spec(pts@, ow as int, oh as int, i as int, j as int));
            }
            let mut c: usize = 0;
            while c < 4
                invariant
                    0 <= c <= 4,
                    0 <= i < ow,
                    0 <= j < oh,
                    ow == out_w,
                    oh == out_h,
                    1 <= ow,
                    1 <= oh,
                    4 * (ow * oh) <= usize::MAX,
                    j * ow + i < ow * oh,
                    src.wf(),
                    src.width >= 1,
                    src.height >= 1,
                    sw == src.width as int,
                    sh == src.height as int,
                    pts@.len() == 8,
                    sx as int == warp_sx_spec(pts@, ow as int, oh as int, i as int, j as int),
                    sy as int == warp_sy_spec(pts@, ow as int, oh as int, i as int, j as int),
                    out@.len() == 4 * (j * ow + i) + c,
                    forall|t: int|
                        0 <= t < out@.len() ==> out@[t] as int == warp_byte_spec(
                            src.data@,
                            sw,
                            sh,
                            pts@,
                            ow as int,
                            oh as int,
                            t,
                        ),
                decreases 4 - c,
            {
                let b: u8 = sample_bilinear(src, sx, sy, c);
                out.push(b);
                proof {
                    lemma_flat_index(j as int, i as int, c as int, ow as int);
                }
                c = c + 1;
            }
            i = i + 1;
        }
        proof {
            assert(4 * (j * ow + ow) == 4 * ((j + 1) * ow)) by (nonlinear_arith);
        }
        j = j + 1;
    }
    let grid = PixelGrid { width: out_w, height: out_h, data: out };
    proof {
        assert(grid.wf()) by {
            assert(grid.data@.len() == 4 * (oh as int * ow));
            assert(4 * (oh as int * ow) == 4 * (out_w * out_h)) by (nonlinear_arith)
                requires
                    ow == out_w,
                    oh == out_h;
        }
        assert(grid.data@ =~= warp_pixels_spec(
            src.data@,
            sw,
            sh,
            pts@,
            out_w as int,
            out_h as int,
        ));
        assert forall|i: int, j2: int, c: int|
            0 <= i < out_w && 0 <= j2 < out_h && 0 <= c < 4 implies grid.chan(i, j2, c) as int
            == warp_chan_spec(src.data@, sw, sh, pts@, out_w as int, out_h as int, i, j2, c) by {
            let t = 4 * (j2 * ow + i) + c;
            lemma_flat_index(j2, i, c, ow as int);
            assert(0 <= j2 * ow + i < oh as int * ow) by (nonlinear_arith)
                requires
                    0 <= i < ow as int,
                    0 <= j2 < oh as int;
            assert(0 <= t < grid.data@.len());
            assert(grid.chan(i, j2, c) == grid.data@[t]);
        }
    }
    grid
}

} // verus!
