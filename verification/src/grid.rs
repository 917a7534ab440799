//! The pixel grid: a fixed-size, row-major RGBA raster owned by the
//! component currently transforming it, together with the pure
//! pixel-format functions (opacity scan, alpha drop and re-expansion)
//! and the exact axis-aligned crop.
use vstd::prelude::*;
use vstd::arithmetic::div_mod::lemma_fundamental_div_mod;
use vstd::arithmetic::div_mod::lemma_fundamental_div_mod_converse;

use crate::error::ImgError;

verus! {

/// A decoded image: `width * height` pixels of four 8-bit channels
/// (red, green, blue, alpha), row-major, top-left origin.
pub struct PixelGrid {
    pub width: u32,
    pub height: u32,
    pub data: Vec<u8>,
}

impl PixelGrid {
    /// The buffer holds exactly four bytes per pixel.
    pub open spec fn wf(&self) -> bool {
        self.data@.len() == 4 * (self.width * self.height)
    }

    /// Channel `c` of the pixel at column `x`, row `y`.
    pub open spec fn chan(&self, x: int, y: int, c: int) -> u8 {
        self.data@[4 * (y * self.width + x) + c]
    }

    /// Builds a grid from raw RGBA bytes; rejects a buffer whose
    /// length does not match the dimensions.
    pub fn from_raw(width: u32, height: u32, data: Vec<u8>) -> (r: Option<PixelGrid>)
        ensures
            r matches Some(g) ==> g.wf() && g.width == width && g.height == height
                && g.data@ == data@,
            r is Some <==> data@.len() == 4 * (width * height),
    {
        proof {
            assert((width as u128) * (height as u128) < 0x10000000000000000u128)
                by (nonlinear_arith)
                requires
                    width <= 0xffff_ffffu32,
                    height <= 0xffff_ffffu32;
        }
        let need: u128 = 4u128 * ((width as u128) * (height as u128));
        if (data.len() as u128) == need {
            Some(PixelGrid { width, height, data })
        } else {
            None
        }
    }
}

/// Every pixel's alpha channel is at its maximum: every fourth byte,
/// the alpha of its pixel, is 255.
pub open spec fn opaque_spec(pix: Seq<u8>) -> bool {
    forall|i: int| 0 <= i < pix.len() && i % 4 == 3 ==> pix[i] == 255
}

/// The same pixels with the alpha channel dropped: three bytes per pixel.
pub open spec fn rgb_of_spec(pix: Seq<u8>) -> Seq<u8> {
    Seq::new(pix.len() / 4 * 3, |i: int| pix[i / 3 * 4 + i % 3])
}

/// Three-byte pixels re-expanded to four channels with full alpha.
pub open spec fn rgba_expand_spec(rgb: Seq<u8>) -> Seq<u8> {
    Seq::new(rgb.len() / 3 * 4, |i: int| if i % 4 == 3 { 255u8 } else { rgb[i / 4 * 3 + i % 4] })
}

/// A flat byte offset `4 * (row * cols + col) + chan` decomposes back
/// into its row, column and channel.
pub proof fn lemma_flat_index(j: int, i: int, c: int, cols: int)
    requires
        0 <= j,
        0 <= i < cols,
        0 <= c < 4,
    ensures
        (4 * (j * cols + i) + c) / (4 * cols) == j,
        ((4 * (j * cols + i) + c) % (4 * cols)) / 4 == i,
        ((4 * (j * cols + i) + c) % (4 * cols)) % 4 == c,
{
    let t = 4 * (j * cols + i) + c;
    let q = 4 * cols;
    let r = 4 * i + c;
    assert(t == j * q + r) by (nonlinear_arith)
        requires
            t == 4 * (j * cols + i) + c,
            q == 4 * cols,
            r == 4 * i + c;
    lemma_fundamental_div_mod_converse(t, q, j, r);
    lemma_fundamental_div_mod_converse(r, 4, i, c);
}

/// A pixel's position inside a grid lies inside the flat buffer.
pub proof fn lemma_row_col(x: int, y: int, w: int, h: int)
    by (nonlinear_arith)
    requires
        0 <= x < w,
        0 <= y < h,
    ensures
        0 <= y * w + x < w * h,
{
}

/// Dropping the alpha channel of an opaque image and re-expanding it
/// restores the image exactly; this is why the channel-drop encoding
/// optimization is invisible for opaque inputs.
pub proof fn lemma_expand_rgb_of_opaque(pix: Seq<u8>)
    requires
        pix.len() % 4 == 0,
        opaque_spec(pix),
    ensures
        rgba_expand_spec(rgb_of_spec(pix)) == pix,
{
    let rgb = rgb_of_spec(pix);
    let out = rgba_expand_spec(rgb);
    lemma_fundamental_div_mod(pix.len() as int, 4);
    lemma_fundamental_div_mod_converse(pix.len() as int, 4, pix.len() as int / 4, 0);
    assert(rgb.len() == pix.len() / 4 * 3);
    lemma_fundamental_div_mod_converse((pix.len() / 4 * 3) as int, 3, pix.len() as int / 4, 0);
    assert(out.len() == pix.len());
    assert forall|t: int| 0 <= t < pix.len() implies out[t] == pix[t] by {
        let j = t / 4;
        let c = t % 4;
        lemma_fundamental_div_mod(t, 4);
        if c == 3 {
            assert(pix[t] == 255);
        } else {
            let s = j * 3 + c;
            lemma_fundamental_div_mod_converse(s, 3, j, c);
            assert(s / 3 * 4 + s % 3 == 4 * j + c);
            assert(s < rgb.len()) by (nonlinear_arith)
                requires
                    s == j * 3 + c,
                    c < 3,
                    rgb.len() == pix.len() / 4 * 3,
                    j == t / 4,
                    0 <= t < pix.len(),
                    pix.len() % 4 == 0,
                    t == 4 * j + c;
            assert(out[t] == rgb[t / 4 * 3 + t % 4]);
            assert(rgb[s] == pix[4 * j + c]);
        }
    }
    assert(out =~= pix);
}

/// A multiple of four plus a remainder below four splits back apart.
pub proof fn lemma_mod4(i: int, r: int)
    requires
        0 <= i,
        0 <= r < 4,
    ensures
        (4 * i + r) % 4 == r,
        (4 * i + r) / 4 == i,
{
    lemma_fundamental_div_mod_converse(4 * i + r, 4, i, r);
}

/// Scans the grid; true exactly when every pixel is fully opaque.
pub fn is_opaque(g: &PixelGrid) -> (r: bool)
    requires
        g.wf(),
    ensures
        r == opaque_spec(g.data@),
{
    let _data_len: usize = g.data.len();
    let n: usize = (g.width as usize) * (g.height as usize);
    assert(4 * n == g.data@.len());
    let mut i: usize = 0;
    while i < n
        invariant
            0 <= i <= n,
            4 * n == g.data@.len(),
            g.data@.len() <= usize::MAX,
            forall|t: int| 0 <= t < 4 * i && t % 4 == 3 ==> g.data@[t] == 255,
        decreases n - i,
    {
        if *vec_index(&g.data, 4 * i + 3) != 255u8 {
            proof {
                lemma_mod4(i as int, 3);
                assert(!opaque_spec(g.data@));
            }
            return false;
        }
        proof {
            assert forall|t: int| 0 <= t < 4 * (i + 1) && t % 4 == 3 implies g.data@[t]
                == 255 by {
                if t >= 4 * i {
                    lemma_fundamental_div_mod(t, 4);
                    lemma_mod4(i as int, t - 4 * i);
                    assert(t == 4 * i + 3);
                }
            }
        }
        i = i + 1;
    }
    true
}

/// Reads one byte of a vector (explicit so contracts can name it).
fn vec_index(v: &Vec<u8>, i: usize) -> (r: &u8)
    requires
        i < v@.len(),
    ensures
        *r == v@[i as int],
{
    &v[i]
}

/// Copies the color channels out of an RGBA buffer, dropping alpha.
pub fn to_rgb(g: &PixelGrid) -> (r: Vec<u8>)
    requires
        g.wf(),
    ensures
        r@ == rgb_of_spec(g.data@),
{
    let _data_len: usize = g.data.len();
    let n: usize = (g.width as usize) * (g.height as usize);
    assert(4 * n == g.data@.len());
    let mut out: Vec<u8> = Vec::new();
    let mut i: usize = 0;
    while i < n
        invariant
            0 <= i <= n,
            4 * n == g.data@.len(),
            g.data@.len() <= usize::MAX,
            out@.len() == 3 * i,
            forall|t: int| 0 <= t < out@.len() ==> out@[t] == g.data@[t / 3 * 4 + t % 3],
        decreases n - i,
    {
        let mut c: usize = 0;
        while c < 3
            invariant
                0 <= c <= 3,
                0 <= i < n,
                4 * n == g.data@.len(),
                g.data@.len() <= usize::MAX,
                out@.len() == 3 * i + c,
                forall|t: int| 0 <= t < out@.len() ==> out@[t] == g.data@[t / 3 * 4 + t % 3],
            decreases 3 - c,
        {
            let b: u8 = *vec_index(&g.data, 4 * i + c);
            out.push(b);
            proof {
                lemma_fundamental_div_mod_converse(3 * i + c, 3, i as int, c as int);
            }
            c = c + 1;
        }
        i = i + 1;
    }
    proof {
        lemma_fundamental_div_mod_converse(4 * n as int, 4, n as int, 0);
        assert(out@ =~= rgb_of_spec(g.data@));
    }
    out
}

/// The source-buffer byte offset that output byte `t` of a crop with
/// output row width `cw` and origin `(x, y)` copies from.
pub open spec fn crop_src_index(t: int, sw: int, x: int, y: int, cw: int) -> int {
    4 * ((y + t / (4 * cw)) * sw + x + (t % (4 * cw)) / 4) + (t % (4 * cw)) % 4
}

/// The whole pixel buffer of a crop: each output byte copied from its
/// source offset.
pub open spec fn crop_pixels_spec(pix: Seq<u8>, sw: int, x: int, y: int, cw: int, ch: int) -> Seq<
    u8,
> {
    Seq::new((4 * (cw * ch)) as nat, |t: int| pix[crop_src_index(t, sw, x, y, cw)])
}

/// Exact, unfiltered pixel copy of a clamped rectangle.
///
/// A zero-size request or an origin entirely outside the source is an
/// `InvalidRegion`; a rectangle that partially overflows is silently
/// shrunk to fit. Every output pixel equals the corresponding source
/// pixel: no resampling, no blending.
#[verifier::rlimit(60)]
pub fn crop_grid(src: &PixelGrid, x: u32, y: u32, w: u32, h: u32) -> (r: Result<
    PixelGrid,
    ImgError,
>)
    requires
        src.wf(),
    ensures
        w == 0 || h == 0 ==> r matches Err(ImgError::InvalidRegion),
        w >= 1 && h >= 1 && (x >= src.width || y >= src.height) ==> r matches Err(
            ImgError::InvalidRegion,
        ),
        w >= 1 && h >= 1 && x < src.width && y < src.height ==> (r matches Ok(out) && out.wf()
            && out.width == crop_dim(w as int, x as int, src.width as int) && out.height
            == crop_dim(h as int, y as int, src.height as int) && out.data@ == crop_pixels_spec(
            src.data@,
            src.width as int,
            x as int,
            y as int,
            out.width as int,
            out.height as int,
        ) && forall|i: int, j: int, c: int|
            0 <= i < out.width && 0 <= j < out.height && 0 <= c < 4 ==> out.chan(i, j, c)
                == src.chan(x + i, y + j, c)),
{
    if w == 0 || h == 0 {
        return Err(ImgError::InvalidRegion);
    }
    if x >= src.width || y >= src.height {
        return Err(ImgError::InvalidRegion);
    }
    let cw: usize = if (w as usize) < (src.width - x) as usize {
        w as usize
    } else {
        (src.width - x) as usize
    };
    let ch: usize = if (h as usize) < (src.height - y) as usize {
        h as usize
    } else {
        (src.height - y) as usize
    };
    let sw = src.width as usize;
    let sh = src.height as usize;
    let _data_len: usize = src.data.len();
    let mut out: Vec<u8> = Vec::new();
    let mut j: usize = 0;
    while j < ch
        invariant
            0 <= j <= ch,
            1 <= cw <= sw - x,
            1 <= ch <= sh - y,
            x < sw,
            y < sh,
            sw == src.width,
            sh == src.height,
            src.wf(),
            src.data@.len() <= usize::MAX,
            out@.len() == 4 * (j * cw),
            forall|t: int|
                0 <= t < out@.len() ==> out@[t] == src.data@[crop_src_index(
                    t,
                    sw as int,
                    x as int,
                    y as int,
                    cw as int,
                )],
        decreases ch - j,
    {
        let mut i: usize = 0;
        while i < cw
            invariant
                0 <= i <= cw,
                0 <= j < ch,
                1 <= cw <= sw - x,
                1 <= ch <= sh - y,
                x < sw,
                y < sh,
                sw == src.width,
                sh == src.height,
                src.wf(),
                src.data@.len() <= usize::MAX,
                out@.len() == 4 * (j * cw + i),
                forall|t: int|
                    0 <= t < out@.len() ==> out@[t] == src.data@[crop_src_index(
                        t,
                        sw as int,
                        x as int,
                        y as int,
                        cw as int,
                    )],
            decreases cw - i,
        {
            proof {
                lemma_row_col(x as int + i, y as int + j, sw as int, sh as int);
            }
            let base: usize = 4 * ((y as usize + j) * sw + (x as usize + i));
            let mut c: usize = 0;
            while c < 4
                invariant
                    0 <= c <= 4,
                    0 <= i < cw,
                    0 <= j < ch,
                    x + i < sw,
                    y + j < sh,
                    sw == src.width,
                    sh == src.height,
                    src.wf(),
                    base == 4 * ((y as int + j) * sw + (x as int + i)),
                    base + 4 <= src.data@.len(),
                    out@.len() == 4 * (j * cw + i) + c,
                    forall|t: int|
                        0 <= t < out@.len() ==> out@[t] == src.data@[crop_src_index(
                            t,
                            sw as int,
                            x as int,
                            y as int,
                            cw as int,
                        )],
                decreases 4 - c,
            {
                let b: u8 = *vec_index(&src.data, base + c);
                out.push(b);
                proof {
                    let t = 4 * (j * cw + i) + c;
                    lemma_flat_index(j as int, i as int, c as int, cw as int);
                    assert(crop_src_index(t, sw as int, x as int, y as int, cw as int) == base + c);
                }
                c = c + 1;
            }
            i = i + 1;
        }
        proof {
            assert(4 * (j * cw + cw) == 4 * ((j + 1) * cw)) by (nonlinear_arith);
        }
        j = j + 1;
    }
    let grid = PixelGrid { width: cw as u32, height: ch as u32, data: out };
    proof {
        assert(grid.wf()) by {
            assert(grid.data@.len() == 4 * (ch as int * cw));
            assert(4 * (ch as int * cw) == 4 * (grid.width * grid.height)) by (nonlinear_arith)
                requires
                    grid.width == cw as u32,
                    grid.height == ch as u32,
                    cw <= u32::MAX,
                    ch <= u32::MAX;
        }
        assert(grid.data@ =~= crop_pixels_spec(
            src.data@,
            src.width as int,
            x as int,
            y as int,
            cw as int,
            ch as int,
        ));
        assert forall|i: int, j2: int, c: int|
            0 <= i < grid.width && 0 <= j2 < grid.height && 0 <= c < 4 implies grid.chan(i, j2, c)
            == src.chan(x as int + i, y as int + j2, c) by {
            let t = 4 * (j2 * cw + i) + c;
            lemma_flat_index(j2, i, c, cw as int);
            assert(0 <= j2 * cw + i < ch as int * cw) by (nonlinear_arith)
                requires
                    0 <= i < cw as int,
                    0 <= j2 < ch as int;
            assert(0 <= t < grid.data@.len());
            assert(grid.chan(i, j2, c) == grid.data@[t]);
            assert(crop_src_index(t, sw as int, x as int, y as int, cw as int) == 4 * ((y as int + j2) * sw + x as int + i)
                + c);
            assert(src.chan(x as int + i, y as int + j2, c) == src.data@[4 * ((y as int + j2) * src.width + (x as int + i))
                + c]);
        }
    }
    Ok(grid)
}

/// The clamped size of a crop along one axis: the requested size,
/// reduced to what remains of the source past the origin.
pub open spec fn crop_dim(req: int, origin: int, source: int) -> int {
    if req < source - origin {
        req
    } else {
        source - origin
    }
}

/// A rectangle that lies fully inside the source is not clamped: the
/// crop's output dimension equals the requested one exactly, so (with
/// the contract of `crop_grid`) a fully inside crop returns a grid of
/// exactly the requested size whose every pixel equals the
/// corresponding source pixel.
pub proof fn lemma_crop_inside(req: int, origin: int, source: int)
    requires
        0 <= origin,
        1 <= req,
        origin + req <= source,
    ensures
        crop_dim(req, origin, source) == req,
{
}

} // verus!
