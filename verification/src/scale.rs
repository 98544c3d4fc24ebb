//! Scale ratios and round-to-nearest coordinate mapping.
//!
//! A detection pass may run on a buffer downscaled by a configured ratio;
//! every region it reports must then be mapped back to the native resolution
//! by the inverse ratio, rounded to the nearest pixel.

use vstd::arithmetic::div_mod::lemma_div_is_ordered;
use vstd::arithmetic::div_mod::lemma_fundamental_div_mod;
use vstd::arithmetic::div_mod::lemma_mod_division_less_than_divisor;
use vstd::prelude::*;

use crate::rect::Rect;

verus! {

/// Upper bound on the numerator and denominator of a [`Ratio`]: four decimal
/// digits of resolution are plenty for capture downscales and mask scales,
/// and keep every scaled coordinate well inside the machine range.
pub const RATIO_LIMIT: u32 = 10_000;

/// A positive rational scale factor, `num / den`.
#[derive(Debug, Clone, Copy, PartialEq, Eq, Structural)]
pub struct Ratio {
    pub num: u32,
    pub den: u32,
}

impl Ratio {
    pub open spec fn wf(self) -> bool {
        &&& 1 <= self.num <= RATIO_LIMIT
        &&& 1 <= self.den <= RATIO_LIMIT
    }

    /// Strictly below one: scaling by it shrinks.
    pub open spec fn is_downscale(self) -> bool {
        self.num < self.den
    }

    pub fn new(num: u32, den: u32) -> (r: Ratio)
        requires
            1 <= num <= RATIO_LIMIT,
            1 <= den <= RATIO_LIMIT,
        ensures
            r == (Ratio { num, den }),
    {
        Ratio { num, den }
    }
}

/// `p / q` rounded to the nearest integer, halves away from zero, for
/// non-negative `p` and positive `q`.
pub open spec fn round_div(p: int, q: int) -> int
    recommends
        0 <= p,
        1 <= q,
{
    (2 * p + q) / (2 * q)
}

/// `t / q` rounded to the nearest integer, halves away from zero, for a
/// dividend of either sign.
pub open spec fn round_div_signed(t: int, q: int) -> int
    recommends
        1 <= q,
{
    if t >= 0 {
        round_div(t, q)
    } else {
        -round_div(-t, q)
    }
}

/// The rounding error of [`round_div`] is at most half of `q`:
/// `2*q*round_div(p, q)` lies within `q` of `2*p`.
pub proof fn lemma_round_div_error(p: int, q: int)
    requires
        0 <= p,
        1 <= q,
    ensures
        2 * q * round_div(p, q) - q <= 2 * p <= 2 * q * round_div(p, q) + q,
{
    let r = round_div(p, q);
    lemma_fundamental_div_mod(2 * p + q, 2 * q);
    lemma_mod_division_less_than_divisor(2 * p + q, 2 * q);
    assert(2 * p + q == 2 * q * r + (2 * p + q) % (2 * q));
}

/// [`round_div`] is monotone in the dividend.
pub proof fn lemma_round_div_ordered(p1: int, p2: int, q: int)
    requires
        0 <= p1 <= p2,
        1 <= q,
    ensures
        round_div(p1, q) <= round_div(p2, q),
{
    lemma_div_is_ordered(2 * p1 + q, 2 * p2 + q, 2 * q);
}

/// The rounded quotient of non-negative `p` by positive `q` stays within
/// `[0, p]`.
pub proof fn lemma_round_div_le(p: int, q: int)
    requires
        0 <= p,
        1 <= q,
    ensures
        0 <= round_div(p, q) <= p,
{
    let r = round_div(p, q);
    lemma_round_div_error(p, q);
    assert(2 * q * r <= 2 * p + q);
    assert(2 * p + q < 2 * q * (p + 1)) by (nonlinear_arith)
        requires
            0 <= p,
            1 <= q,
    ;
    assert(r < p + 1) by (nonlinear_arith)
        requires
            2 * q * r < 2 * q * (p + 1),
            1 <= q,
    ;
    assert(2 * q * r >= 2 * p - q);
    assert(0 <= r) by (nonlinear_arith)
        requires
            2 * q * r >= 2 * p - q,
            0 <= p,
            1 <= q,
    ;
}

/// Rounding an exact multiple recovers the factor.
pub proof fn lemma_round_div_exact(a: int, q: int)
    requires
        0 <= a,
        1 <= q,
    ensures
        round_div(a * q, q) == a,
{
    assert(2 * (a * q) + q == a * (2 * q) + q) by (nonlinear_arith);
    vstd::arithmetic::div_mod::lemma_fundamental_div_mod_converse(2 * (a * q) + q, 2 * q, a, q);
}

/// Round-to-nearest division on unsigned machine words.
pub fn round_div_u64(p: u64, q: u64) -> (r: u64)
    requires
        1 <= q,
        2 * p + q <= u64::MAX,
        2 * q <= u64::MAX,
    ensures
        r == round_div(p as int, q as int),
{
    (2 * p + q) / (2 * q)
}

/// Round-to-nearest division on signed machine words, halves away from zero.
pub fn round_div_signed_i64(t: i64, q: i64) -> (r: i64)
    requires
        1 <= q <= 0x1000_0000_0000_0000,
        -0x1000_0000_0000_0000 <= t <= 0x1000_0000_0000_0000,
    ensures
        r == round_div_signed(t as int, q as int),
{
    if t >= 0 {
        (2 * t + q) / (2 * q)
    } else {
        -((2 * (-t) + q) / (2 * q))
    }
}

/// Map one coordinate of a region detected on a downscaled buffer back to
/// the native resolution: divide by the ratio, rounding to nearest.
pub fn scale_coord_back(v: i32, ratio: Ratio) -> (r: i32)
    requires
        ratio.wf(),
        0 <= v,
        round_div(v as int * ratio.den as int, ratio.num as int) <= i32::MAX,
    ensures
        r == round_div(v as int * ratio.den as int, ratio.num as int),
        0 <= r,
{
    proof {
        assert(v as int * ratio.den as int <= 0x7fff_ffff * 10_000) by (nonlinear_arith)
            requires
                0 <= v as int <= 0x7fff_ffff,
                0 <= ratio.den as int <= 10_000,
        ;
        lemma_round_div_le(v as int * ratio.den as int, ratio.num as int);
    }
    let p: u64 = (v as u64) * (ratio.den as u64);
    let r64 = round_div_u64(p, ratio.num as u64);
    r64 as i32
}

/// Map a region detected on a buffer downscaled by `ratio` back to the
/// native resolution: every field is divided by the ratio and rounded to the
/// nearest integer.
pub fn map_region_back(region: &Rect, ratio: Ratio) -> (r: Rect)
    requires
        ratio.wf(),
        0 <= region.x,
        0 <= region.y,
        0 <= region.width,
        0 <= region.height,
        round_div(region.x as int * ratio.den as int, ratio.num as int) <= i32::MAX,
        round_div(region.y as int * ratio.den as int, ratio.num as int) <= i32::MAX,
        round_div(region.width as int * ratio.den as int, ratio.num as int) <= i32::MAX,
        round_div(region.height as int * ratio.den as int, ratio.num as int) <= i32::MAX,
    ensures
        r.x == round_div(region.x as int * ratio.den as int, ratio.num as int),
        r.y == round_div(region.y as int * ratio.den as int, ratio.num as int),
        r.width == round_div(region.width as int * ratio.den as int, ratio.num as int),
        r.height == round_div(region.height as int * ratio.den as int, ratio.num as int),
        0 <= r.x && 0 <= r.y && 0 <= r.width && 0 <= r.height,
{
    Rect {
        x: scale_coord_back(region.x, ratio),
        y: scale_coord_back(region.y, ratio),
        width: scale_coord_back(region.width, ratio),
        height: scale_coord_back(region.height, ratio),
    }
}

} // verus!
