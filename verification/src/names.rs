//! Case-insensitive matching of format and filter names.
//!
//! Unrecognized names are never an error: the format parser falls back
//! to PNG and the filter parser to Lanczos-3, a deliberate
//! permissiveness for interactive callers.
use vstd::prelude::*;
use vstd::string::StrSliceExecFns;

use crate::encode::EncodeFormat;
use crate::encode::FilterKind;

verus! {

/// `s` spells the keyword whose lowercase form is `low` and uppercase
/// form is `up`, with each character in either case.
pub open spec fn matches_ci(s: Seq<char>, low: Seq<char>, up: Seq<char>) -> bool {
    s.len() == low.len() && forall|i: int| 0 <= i < s.len() ==> s[i] == low[i] || s[i] == up[i]
}

/// Compares a string against a keyword, ignoring ASCII case.
pub fn str_eq_ci(s: &str, low: &str, up: &str) -> (r: bool)
    requires
        low@.len() == up@.len(),
    ensures
        r == matches_ci(s@, low@, up@),
{
    let n = s.unicode_len();
    if n != low.unicode_len() {
        return false;
    }
    let mut i: usize = 0;
    while i < n
        invariant
            0 <= i <= n,
            n == s@.len(),
            n == low@.len(),
            n == up@.len(),
            forall|k: int| 0 <= k < i ==> s@[k] == low@[k] || s@[k] == up@[k],
        decreases n - i,
    {
        let c = s.get_char(i);
        let cl = low.get_char(i);
        let cu = up.get_char(i);
        if !(c == cl || c == cu) {
            return false;
        }
        i = i + 1;
    }
    true
}

/// The format a name selects: the common JPEG and WebP aliases,
/// case-insensitively; anything else defaults to PNG.
pub open spec fn format_of_name(s: Seq<char>) -> EncodeFormat {
    if matches_ci(s, "jpg"@, "JPG"@) || matches_ci(s, "jpeg"@, "JPEG"@) {
        EncodeFormat::Jpeg
    } else if matches_ci(s, "webp"@, "WEBP"@) {
        EncodeFormat::Webp
    } else {
        EncodeFormat::Png
    }
}

/// Parses a target-format name.
pub fn parse_format(fmt: &str) -> (r: EncodeFormat)
    ensures
        r == format_of_name(fmt@),
{
    proof {
        reveal_strlit("jpg");
        reveal_strlit("JPG");
        reveal_strlit("jpeg");
        reveal_strlit("JPEG");
        reveal_strlit("webp");
        reveal_strlit("WEBP");
    }
    if str_eq_ci(fmt, "jpg", "JPG") || str_eq_ci(fmt, "jpeg", "JPEG") {
        EncodeFormat::Jpeg
    } else if str_eq_ci(fmt, "webp", "WEBP") {
        EncodeFormat::Webp
    } else {
        EncodeFormat::Png
    }
}

/// The resampling kernel a name selects; unrecognized names default to
/// Lanczos-3, the highest-quality kernel for downscaling.
pub open spec fn filter_of_name(s: Seq<char>) -> FilterKind {
    if matches_ci(s, "nearest"@, "NEAREST"@) {
        FilterKind::Nearest
    } else if matches_ci(s, "triangle"@, "TRIANGLE"@) {
        FilterKind::Triangle
    } else if matches_ci(s, "catmullrom"@, "CATMULLROM"@) || matches_ci(
        s,
        "catmull"@,
        "CATMULL"@,
    ) {
        FilterKind::CatmullRom
    } else if matches_ci(s, "gaussian"@, "GAUSSIAN"@) {
        FilterKind::Gaussian
    } else {
        FilterKind::Lanczos3
    }
}

/// Parses a resampling-kernel name.
pub fn pick_filter(name: &str) -> (r: FilterKind)
    ensures
        r == filter_of_name(name@),
{
    proof {
        reveal_strlit("nearest");
        reveal_strlit("NEAREST");
        reveal_strlit("triangle");
        reveal_strlit("TRIANGLE");
        reveal_strlit("catmullrom");
        reveal_strlit("CATMULLROM");
        reveal_strlit("catmull");
        reveal_strlit("CATMULL");
        reveal_strlit("gaussian");
        reveal_strlit("GAUSSIAN");
    }
    if str_eq_ci(name, "nearest", "NEAREST") {
        FilterKind::Nearest
    } else if str_eq_ci(name, "triangle", "TRIANGLE") {
        FilterKind::Triangle
    } else if str_eq_ci(name, "catmullrom", "CATMULLROM") || str_eq_ci(
        name,
        "catmull",
        "CATMULL",
    ) {
        FilterKind::CatmullRom
    } else if str_eq_ci(name, "gaussian", "GAUSSIAN") {
        FilterKind::Gaussian
    } else {
        FilterKind::Lanczos3
    }
}

} // verus!
