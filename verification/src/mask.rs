//! Mask rectangles and the symmetric enlargement that produces them.
//!
//! Before a detected region is handed to the overlay it is enlarged about
//! its own centre by a configured scale factor; the overlay then divides by
//! the display's DPI scale on its side.

use vstd::prelude::*;

use crate::rect::Rect;
use crate::scale::round_div;
use crate::scale::round_div_signed;
use crate::scale::round_div_signed_i64;
use crate::scale::Ratio;
use crate::scale::lemma_round_div_error;
use crate::scale::lemma_round_div_le;

verus! {

/// A mask rectangle ("mosaic") in native display pixels, ready for the
/// overlay.
#[derive(Debug, Clone, Copy, PartialEq, Eq, Structural)]
pub struct Mosaic {
    pub x: i32,
    pub y: i32,
    pub width: i32,
    pub height: i32,
}

/// The extent of a region after enlargement by `scale`, rounded to nearest.
pub open spec fn spec_scaled_len(len: int, scale: Ratio) -> int {
    round_div(len * scale.num as int, scale.den as int)
}

/// How far the near edge moves when a length grows from `len` to
/// `len * scale`: half the growth, rounded to nearest with halves away from
/// zero (negative when the scale shrinks).
pub open spec fn spec_edge_shift(len: int, scale: Ratio) -> int {
    round_div_signed(len * scale.num as int - len * scale.den as int, 2 * scale.den as int)
}

/// Extents no display will exceed; keeps scaled coordinates inside `i32`.
pub const MAX_EXTENT: i32 = 200_000;

/// Positions no display will exceed; keeps shifted coordinates inside `i32`.
pub const MAX_POSITION: i32 = 100_000_000;

/// Enlarge `rect` symmetrically about its own centre by `scale`, keeping the
/// centre in place up to rounding.
pub fn mosaic_from_rect(rect: &Rect, scale: Ratio) -> (m: Mosaic)
    requires
        scale.wf(),
        0 <= rect.width <= MAX_EXTENT,
        0 <= rect.height <= MAX_EXTENT,
        -MAX_POSITION <= rect.x <= MAX_POSITION,
        -MAX_POSITION <= rect.y <= MAX_POSITION,
    ensures
        m.width == spec_scaled_len(rect.width as int, scale),
        m.height == spec_scaled_len(rect.height as int, scale),
        m.x == rect.x - spec_edge_shift(rect.width as int, scale),
        m.y == rect.y - spec_edge_shift(rect.height as int, scale),
{
    let x = shift_edge(rect.x, rect.width, scale);
    let y = shift_edge(rect.y, rect.height, scale);
    let width = scaled_len(rect.width, scale);
    let height = scaled_len(rect.height, scale);
    Mosaic { x, y, width, height }
}

/// The enlarged extent, as machine integers.
fn scaled_len(len: i32, scale: Ratio) -> (r: i32)
    requires
        scale.wf(),
        0 <= len <= MAX_EXTENT,
    ensures
        r == spec_scaled_len(len as int, scale),
{
    proof {
        assert(len as int * scale.num as int <= 200_000 * 10_000) by (nonlinear_arith)
            requires
                0 <= len as int <= 200_000,
                0 <= scale.num as int <= 10_000,
        ;
        lemma_round_div_le(len as int * scale.num as int, scale.den as int);
    }
    let p: u64 = (len as u64) * (scale.num as u64);
    let r64: u64 = crate::scale::round_div_u64(p, scale.den as u64);
    r64 as i32
}

/// The near edge after the shift that keeps the centre in place.
fn shift_edge(pos: i32, len: i32, scale: Ratio) -> (r: i32)
    requires
        scale.wf(),
        0 <= len <= MAX_EXTENT,
        -MAX_POSITION <= pos <= MAX_POSITION,
    ensures
        r == pos - spec_edge_shift(len as int, scale),
{
    proof {
        assert(0 <= len as int * scale.num as int <= 2_000_000_000 && 0 <= len as int
            * scale.den as int <= 2_000_000_000) by (nonlinear_arith)
            requires
                0 <= len as int <= 200_000,
                1 <= scale.num as int <= 10_000,
                1 <= scale.den as int <= 10_000,
        ;
        let t = len as int * scale.num as int - len as int * scale.den as int;
        if t >= 0 {
            lemma_round_div_le(t, 2 * scale.den as int);
        } else {
            lemma_round_div_le(-t, 2 * scale.den as int);
        }
    }
    let t: i64 = (len as i64) * (scale.num as i64) - (len as i64) * (scale.den as i64);
    let shift: i64 = round_div_signed_i64(t, 2 * (scale.den as i64));
    ((pos as i64) - shift) as i32
}

/// Mask enlargement is symmetric: the centre of the enlarged rectangle stays
/// within half a pixel of the source centre (stated with doubled
/// coordinates, where the centre of a span `[x, x+w)` is `2x + w`), and the
/// extents are the source extents scaled and rounded to nearest.
pub proof fn lemma_mask_enlargement_symmetric(rect: Rect, scale: Ratio)
    requires
        scale.wf(),
        0 <= rect.width,
        0 <= rect.height,
    ensures
        ({
            let mx = rect.x - spec_edge_shift(rect.width as int, scale);
            let mw = spec_scaled_len(rect.width as int, scale);
            -1 <= (2 * mx + mw) - (2 * rect.x + rect.width) <= 1
        }),
        ({
            let my = rect.y - spec_edge_shift(rect.height as int, scale);
            let mh = spec_scaled_len(rect.height as int, scale);
            -1 <= (2 * my + mh) - (2 * rect.y + rect.height) <= 1
        }),
{
    lemma_edge_shift_balances(rect.width as int, scale);
    lemma_edge_shift_balances(rect.height as int, scale);
}

/// The edge shift compensates the rounded growth of one extent: doubling the
/// shift differs from the growth of the extent by at most one pixel.
proof fn lemma_edge_shift_balances(len: int, scale: Ratio)
    requires
        scale.wf(),
        0 <= len,
    ensures
        -1 <= spec_scaled_len(len, scale) - len - 2 * spec_edge_shift(len, scale) <= 1,
{
    let n = scale.num as int;
    let d = scale.den as int;
    let a = spec_scaled_len(len, scale);
    let t = len * n - len * d;
    let shift = spec_edge_shift(len, scale);

    lemma_round_div_error(len * n, d);
    assert(2 * d * a - d <= 2 * (len * n) <= 2 * d * a + d);

    if t >= 0 {
        lemma_round_div_error(t, 2 * d);
        assert(2 * (2 * d) * shift - 2 * d <= 2 * t <= 2 * (2 * d) * shift + 2 * d);
    } else {
        lemma_round_div_error(-t, 2 * d);
        assert(shift == -round_div(-t, 2 * d));
        assert(2 * (2 * d) * (-shift) - 2 * d <= 2 * (-t) <= 2 * (2 * d) * (-shift) + 2 * d);
        assert(4 * d * shift - 2 * d <= 2 * t <= 4 * d * shift + 2 * d) by (nonlinear_arith)
            requires
                2 * (2 * d) * (-shift) - 2 * d <= 2 * (-t) <= 2 * (2 * d) * (-shift) + 2 * d,
        ;
    }
    assert(4 * d * shift - 2 * d <= 2 * t <= 4 * d * shift + 2 * d);

    // 2*t equals 2*len*n - 2*len*d, and the error bound on `a` rewrites
    // 2*len*n in terms of 2*d*a.
    let delta = a - len - 2 * shift;
    assert(-3 * d <= 2 * d * delta <= 3 * d) by (nonlinear_arith)
        requires
            delta == a - len - 2 * shift,
            t == len * n - len * d,
            2 * d * a - d <= 2 * (len * n) <= 2 * d * a + d,
            4 * d * shift - 2 * d <= 2 * t <= 4 * d * shift + 2 * d,
            1 <= d,
    ;
    assert(-1 <= delta <= 1) by (nonlinear_arith)
        requires
            -3 * d <= 2 * d * delta <= 3 * d,
            1 <= d,
    ;
}

} // verus!
