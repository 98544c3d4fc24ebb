//! The content validator: classify a captured buffer as valid or blank.
//!
//! Compositor duplication occasionally yields an all-black frame right after
//! a session starts, or a silently cleared single-colour buffer.  The
//! validator samples an 8x8 grid of pixels spread evenly across the buffer
//! and accepts the frame iff at least one sampled pixel is non-zero and at
//! least two sampled positions differ from each other.  The check is
//! deliberately cheap -- at most 64 pixel reads -- because it runs on every
//! capture.

use vstd::arithmetic::div_mod::lemma_div_is_ordered;
use vstd::arithmetic::div_mod::lemma_div_multiples_vanish;
use vstd::arithmetic::div_mod::lemma_div_pos_is_pos;
use vstd::arithmetic::div_mod::lemma_fundamental_div_mod_converse;
use vstd::prelude::*;

use crate::frame::flat_pixel;
use crate::frame::lemma_flat_index;
use crate::frame::Image;

verus! {

/// Grid positions per axis; the grid visits `SAMPLE_GRID * SAMPLE_GRID`
/// pixels.
pub const SAMPLE_GRID: usize = 8;

/// The coordinate of grid position `g` on an axis of `len` pixels: the
/// positions spread evenly from the first pixel to the last.
pub open spec fn sample_coord(g: int, len: int) -> int {
    g * (len - 1) / 7
}

/// The 4 bytes of sample `k` (row-major over the 8x8 grid).
pub open spec fn spec_sample(img: Image, k: int) -> Seq<u8> {
    img.spec_pixel(
        sample_coord(k % 8, img.width as int),
        sample_coord(k / 8, img.height as int),
    )
}

/// The all-zero pixel.
pub open spec fn zero_pixel() -> Seq<u8> {
    seq![0u8, 0u8, 0u8, 0u8]
}

/// A frame is valid iff it has at least one pixel of extent, some sampled
/// pixel is non-zero, and some sampled position differs from the first one.
pub open spec fn spec_is_valid(img: Image) -> bool {
    &&& img.width >= 1
    &&& img.height >= 1
    &&& exists|k: int| 0 <= k < 64 && #[trigger] spec_sample(img, k) != zero_pixel()
    &&& exists|k: int| 0 <= k < 64 && #[trigger] spec_sample(img, k) != spec_sample(img, 0)
}

/// Grid positions always land inside the axis.
pub proof fn lemma_sample_coord_in_range(g: int, len: int)
    requires
        0 <= g < 8,
        1 <= len,
    ensures
        0 <= sample_coord(g, len) < len,
{
    lemma_div_pos_is_pos(g * (len - 1), 7);
    assert(g * (len - 1) <= 7 * (len - 1)) by (nonlinear_arith)
        requires
            0 <= g < 8,
            0 <= len - 1,
    ;
    lemma_div_is_ordered(g * (len - 1), 7 * (len - 1), 7);
    lemma_div_multiples_vanish(len - 1, 7);
}

/// The grid coordinate for one axis, as machine integers.
fn sample_coord_exec(g: usize, len: i32) -> (r: i32)
    requires
        0 <= g < 8,
        1 <= len,
    ensures
        r == sample_coord(g as int, len as int),
        0 <= r < len,
{
    proof {
        lemma_sample_coord_in_range(g as int, len as int);
    }
    let prod: i64 = (g as i64) * ((len - 1) as i64);
    (prod / 7) as i32
}

/// Classify a captured buffer: valid iff at least one sampled pixel is
/// non-zero and at least two sampled positions differ from each other.
pub fn has_valid_content(image: &Image) -> (r: bool)
    requires
        image.wf(),
    ensures
        r == spec_is_valid(*image),
{
    if image.width < 1 || image.height < 1 {
        return false;
    }

    let first = image.pixel(sample_coord_exec(0, image.width), sample_coord_exec(0, image.height));
    proof {
        assert(seq![first.0, first.1, first.2, first.3] == spec_sample(*image, 0));
    }

    let mut non_zero: usize = 0;
    let mut different_colors: usize = 0;
    let mut gy: usize = 0;
    while gy < SAMPLE_GRID
        invariant
            image.wf(),
            1 <= image.width,
            1 <= image.height,
            0 <= gy <= 8,
            non_zero <= gy * 8,
            different_colors <= gy * 8,
            seq![first.0, first.1, first.2, first.3] == spec_sample(*image, 0),
            (non_zero > 0) == exists|k: int| 0 <= k < gy * 8 && #[trigger] spec_sample(*image, k)
                != zero_pixel(),
            (different_colors > 0) == exists|k: int| 0 <= k < gy * 8 && #[trigger] spec_sample(*image, k)
                != spec_sample(*image, 0),
        decreases 8 - gy,
    {
        let y = sample_coord_exec(gy, image.height);
        let mut gx: usize = 0;
        while gx < SAMPLE_GRID
            invariant
                image.wf(),
                1 <= image.width,
                1 <= image.height,
                0 <= gy < 8,
                0 <= gx <= 8,
                non_zero <= gy * 8 + gx,
                different_colors <= gy * 8 + gx,
                y == sample_coord(gy as int, image.height as int),
                0 <= y < image.height,
                seq![first.0, first.1, first.2, first.3] == spec_sample(*image, 0),
                (non_zero > 0) == exists|k: int| 0 <= k < gy * 8 + gx && #[trigger] spec_sample(*image, k)
                    != zero_pixel(),
                (different_colors > 0) == exists|k: int| 0 <= k < gy * 8 + gx && #[trigger] spec_sample(
                    *image,
                    k,
                ) != spec_sample(*image, 0),
            decreases 8 - gx,
        {
            let x = sample_coord_exec(gx, image.width);
            let p = image.pixel(x, y);
            let ghost k: int = gy as int * 8 + gx as int;
            proof {
                lemma_fundamental_div_mod_converse(k, 8, gy as int, gx as int);
                assert(seq![p.0, p.1, p.2, p.3] == spec_sample(*image, k));
            }
            if p.0 != 0 || p.1 != 0 || p.2 != 0 || p.3 != 0 {
                non_zero = non_zero + 1;
                proof {
                    assert(spec_sample(*image, k) != zero_pixel()) by {
                        if spec_sample(*image, k) == zero_pixel() {
                            assert(spec_sample(*image, k)[0] == 0u8);
                            assert(spec_sample(*image, k)[1] == 0u8);
                            assert(spec_sample(*image, k)[2] == 0u8);
                            assert(spec_sample(*image, k)[3] == 0u8);
                        }
                    }
                }
            } else {
                proof {
                    assert(spec_sample(*image, k) == zero_pixel()) by {
                        assert(seq![p.0, p.1, p.2, p.3] =~= zero_pixel());
                    }
                }
            }
            if p.0 != first.0 || p.1 != first.1 || p.2 != first.2 || p.3 != first.3 {
                different_colors = different_colors + 1;
                proof {
                    assert(spec_sample(*image, k) != spec_sample(*image, 0)) by {
                        if spec_sample(*image, k) == spec_sample(*image, 0) {
                            assert(spec_sample(*image, k)[0] == first.0);
                            assert(spec_sample(*image, k)[1] == first.1);
                            assert(spec_sample(*image, k)[2] == first.2);
                            assert(spec_sample(*image, k)[3] == first.3);
                        }
                    }
                }
            } else {
                proof {
                    assert(spec_sample(*image, k) == spec_sample(*image, 0)) by {
                        assert(seq![p.0, p.1, p.2, p.3] =~= seq![
                            first.0,
                            first.1,
                            first.2,
                            first.3,
                        ]);
                    }
                }
            }
            gx += 1;
        }
        proof {
            assert(gy * 8 + 8 == (gy + 1) * 8) by (nonlinear_arith);
        }
        gy += 1;
    }

    non_zero > 0 && different_colors > 0
}

/// A buffer filled entirely with one 4-byte pixel value -- any value,
/// including all-zero -- is rejected: every sampled position carries the
/// same bytes, so no two samples differ.
pub proof fn lemma_uniform_frame_rejected(img: Image, pixel: Seq<u8>)
    requires
        img.wf(),
        pixel.len() == 4,
        forall|p: int| 0 <= p < img.width * img.height ==> #[trigger] flat_pixel(img.data@, p)
            == pixel,
    ensures
        !spec_is_valid(img),
{
    if img.width >= 1 && img.height >= 1 {
        assert forall|k: int| 0 <= k < 64 implies #[trigger] spec_sample(img, k) == pixel by {
            let x = sample_coord(k % 8, img.width as int);
            let y = sample_coord(k / 8, img.height as int);
            lemma_sample_coord_in_range(k % 8, img.width as int);
            lemma_sample_coord_in_range(k / 8, img.height as int);
            lemma_flat_index(img.width as int, img.height as int, x, y);
            assert(y * img.width + x < img.width * img.height) by (nonlinear_arith)
                requires
                    0 <= x < img.width,
                    0 <= y < img.height,
            ;
            assert(flat_pixel(img.data@, y * img.width + x) == pixel);
        }
        assert(spec_sample(img, 0) == pixel);
        assert(!(exists|k: int| 0 <= k < 64 && #[trigger] spec_sample(img, k) != spec_sample(img, 0)));
    }
}

/// Two distinct sampled values plus a non-zero sample mean the frame is
/// accepted: one of the two distinct samples must differ from sample 0.
pub proof fn lemma_two_distinct_samples_accepted(img: Image, k1: int, k2: int)
    requires
        img.wf(),
        img.width >= 1,
        img.height >= 1,
        0 <= k1 < 64,
        0 <= k2 < 64,
        spec_sample(img, k1) != spec_sample(img, k2),
        exists|k: int| 0 <= k < 64 && #[trigger] spec_sample(img, k) != zero_pixel(),
    ensures
        spec_is_valid(img),
{
    if spec_sample(img, k1) != spec_sample(img, 0) {
        assert(0 <= k1 < 64 && spec_sample(img, k1) != spec_sample(img, 0));
    } else {
        assert(0 <= k2 < 64 && spec_sample(img, k2) != spec_sample(img, 0));
    }
}

} // verus!
