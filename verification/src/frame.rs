//! Frame buffers and the BGRA layout invariant.
//!
//! Every captured frame carries exactly `width * height * 4` bytes of pixel
//! data, 4 bytes per pixel in blue-green-red-alpha order, row-major with no
//! padding between rows.  Capture backends read GPU memory whose row pitch
//! may exceed the logical row width; [`pack_pitched_rows`] turns such memory
//! into a tightly packed frame.  [`downscale_image_bgra`] produces the
//! nearest-neighbour resampled copy used to speed up detection.

use vstd::arithmetic::div_mod::lemma_fundamental_div_mod_converse;
use vstd::prelude::*;

use crate::scale::lemma_round_div_exact;
use crate::scale::lemma_round_div_le;
use crate::scale::lemma_round_div_ordered;
use crate::scale::round_div;
use crate::scale::round_div_u64;
use crate::scale::Ratio;

verus! {

/// A captured frame in BGRA layout.
#[derive(Debug, Clone)]
pub struct Image {
    pub width: i32,
    pub height: i32,
    pub data: Vec<u8>,
}

/// The 4 bytes of the pixel with flat index `p` in a tightly packed BGRA
/// byte sequence.
pub open spec fn flat_pixel(data: Seq<u8>, p: int) -> Seq<u8> {
    data.subrange(4 * p, 4 * p + 4)
}

/// Row `y` of a byte sequence whose rows are `w4` bytes wide and packed
/// back to back.
pub open spec fn packed_row(data: Seq<u8>, w4: int, y: int) -> Seq<u8> {
    data.subrange(y * w4, y * w4 + w4)
}

impl Image {
    /// The layout invariant of every captured buffer: non-negative extent
    /// and exactly `width * height * 4` bytes of pixel data.
    pub open spec fn wf(self) -> bool {
        &&& 0 <= self.width
        &&& 0 <= self.height
        &&& self.data@.len() == self.width * self.height * 4
    }

    /// Read one pixel, as its `(blue, green, red, alpha)` bytes.
    pub fn pixel(&self, x: i32, y: i32) -> (r: (u8, u8, u8, u8))
        requires
            self.wf(),
            0 <= x < self.width,
            0 <= y < self.height,
        ensures
            seq![r.0, r.1, r.2, r.3] == self.spec_pixel(x as int, y as int),
    {
        let len: usize = self.data.len();
        proof {
            lemma_flat_index(self.width as int, self.height as int, x as int, y as int);
        }
        let idx: usize = ((y as usize) * (self.width as usize) + (x as usize)) * 4;
        let b = self.data[idx];
        let g = self.data[idx + 1];
        let red = self.data[idx + 2];
        let a = self.data[idx + 3];
        proof {
            assert(seq![b, g, red, a] =~= self.spec_pixel(x as int, y as int));
        }
        (b, g, red, a)
    }

    /// The 4 bytes of the pixel at column `x` of row `y`.
    pub open spec fn spec_pixel(self, x: int, y: int) -> Seq<u8> {
        flat_pixel(self.data@, y * self.width + x)
    }
}

/// A pixel index inside the extent addresses 4 in-range bytes.
pub proof fn lemma_flat_index(w: int, h: int, x: int, y: int)
    requires
        0 <= x < w,
        0 <= y < h,
    ensures
        0 <= y * w,
        0 <= y * w + x,
        (y * w + x) * 4 + 4 <= w * h * 4,
{
    assert(0 <= y * w && 0 <= y * w + x && (y * w + x) * 4 + 4 <= w * h * 4)
        by (nonlinear_arith)
        requires
            0 <= x < w,
            0 <= y < h,
    ;
}

/// A row stays in place when bytes are appended after it.
proof fn lemma_packed_row_stable(pre: Seq<u8>, post: Seq<u8>, w4: int, y: int)
    requires
        0 <= y,
        0 <= w4,
        (y + 1) * w4 <= pre.len(),
        pre.len() <= post.len(),
        forall|i: int| 0 <= i < pre.len() ==> post[i] == pre[i],
    ensures
        packed_row(post, w4, y) == packed_row(pre, w4, y),
{
    assert(0 <= y * w4 && y * w4 + w4 <= (y + 1) * w4) by (nonlinear_arith)
        requires
            0 <= y,
            0 <= w4,
    ;
    assert(packed_row(post, w4, y) =~= packed_row(pre, w4, y));
}

/// A pixel stays in place when bytes are appended after it.
proof fn lemma_flat_pixel_stable(pre: Seq<u8>, post: Seq<u8>, p: int)
    requires
        0 <= p,
        4 * p + 4 <= pre.len(),
        pre.len() <= post.len(),
        forall|i: int| 0 <= i < pre.len() ==> post[i] == pre[i],
    ensures
        flat_pixel(post, p) == flat_pixel(pre, p),
{
    assert(flat_pixel(post, p) =~= flat_pixel(pre, p));
}

/// Copy `height` rows of `width * 4` bytes each out of a buffer whose rows
/// start `pitch` bytes apart, producing a tightly packed BGRA frame.
pub fn pack_pitched_rows(src: &Vec<u8>, pitch: usize, width: i32, height: i32) -> (frame: Image)
    requires
        0 <= width,
        0 <= height,
        width * 4 <= pitch,
        height * pitch <= src@.len(),
    ensures
        frame.wf(),
        frame.width == width,
        frame.height == height,
        forall|y: int| 0 <= y < height ==> #[trigger] packed_row(frame.data@, width * 4, y)
            == src@.subrange(y * pitch, y * pitch + width * 4),
{
    let src_len: usize = src.len();
    let w4: usize = (width as usize) * 4;
    let h: usize = height as usize;
    let mut data: Vec<u8> = Vec::new();
    let mut y: usize = 0;
    while y < h
        invariant
            0 <= y <= h,
            h == height,
            w4 == width * 4,
            w4 <= pitch,
            src_len == src@.len(),
            height * pitch <= src_len,
            data@.len() == y * w4,
            forall|yy: int| 0 <= yy < y ==> #[trigger] packed_row(data@, w4 as int, yy)
                == src@.subrange(yy * pitch, yy * pitch + w4),
        decreases h - y,
    {
        proof {
            assert((y + 1) * pitch <= h * pitch && y * pitch + w4 <= (y + 1) * pitch && (y + 1)
                * w4 == y * w4 + w4 && y * w4 + w4 <= y * pitch + w4) by (nonlinear_arith)
                requires
                    0 <= y < h,
                    w4 <= pitch,
            ;
        }
        let row_start: usize = y * pitch;
        let mut i: usize = 0;
        while i < w4
            invariant
                0 <= i <= w4,
                0 <= y < h,
                h == height,
                w4 == width * 4,
                w4 <= pitch,
                src_len == src@.len(),
                height * pitch <= src_len,
                row_start == y * pitch,
                row_start + w4 <= src_len,
                y * w4 + w4 <= row_start + w4,
                data@.len() == y * w4 + i,
                data@.subrange(y * w4, y * w4 + i) =~= src@.subrange(
                    y * pitch,
                    y * pitch + i,
                ),
                forall|yy: int| 0 <= yy < y ==> #[trigger] packed_row(data@, w4 as int, yy)
                    == src@.subrange(yy * pitch, yy * pitch + w4),
            decreases w4 - i,
        {
            let ghost pre = data@;
            data.push(src[row_start + i]);
            proof {
                assert(forall|k: int| 0 <= k < pre.len() ==> data@[k] == pre[k]);
                assert(data@.subrange(y * w4, y * w4 + i + 1) =~= src@.subrange(
                    y * pitch,
                    y * pitch + i + 1,
                ));
                assert forall|yy: int| 0 <= yy < y implies #[trigger] packed_row(
                    data@,
                    w4 as int,
                    yy,
                ) == src@.subrange(yy * pitch, yy * pitch + w4) by {
                    assert((yy + 1) * w4 <= y * w4) by (nonlinear_arith)
                        requires
                            0 <= yy < y,
                            0 <= w4,
                    ;
                    lemma_packed_row_stable(pre, data@, w4 as int, yy);
                }
            }
            i += 1;
        }
        proof {
            assert(packed_row(data@, w4 as int, y as int) =~= src@.subrange(
                y * pitch,
                y * pitch + w4,
            ));
        }
        y += 1;
    }
    proof {
        assert(h * w4 == width * height * 4) by (nonlinear_arith)
            requires
                h == height,
                w4 == width * 4,
                0 <= width,
                0 <= height,
        ;
    }
    Image { width, height, data }
}

/// The extent of a buffer downscaled by `ratio`: the scaled extent rounded
/// to nearest, and at least one pixel.
pub open spec fn spec_dst_len(len: int, ratio: Ratio) -> int {
    let scaled = round_div(len * ratio.num as int, ratio.den as int);
    if scaled < 1 {
        1
    } else {
        scaled
    }
}

/// The source column (or row) that nearest-neighbour sampling reads for
/// destination column (or row) `d`.
pub open spec fn spec_src_index(d: int, src_len: int, dst_len: int) -> int {
    let s = d * src_len / dst_len;
    if s < src_len - 1 {
        s
    } else {
        src_len - 1
    }
}

/// One extent of the downscaled buffer, as machine integers.
fn dst_len(len: i32, ratio: Ratio) -> (r: i32)
    requires
        1 <= len,
        ratio.wf(),
        ratio.is_downscale(),
    ensures
        r as int == spec_dst_len(len as int, ratio),
        1 <= r <= len,
{
    proof {
        assert(len as int * ratio.num as int <= 0x7fff_ffff * 10_000 && len as int
            * ratio.num as int <= len as int * ratio.den as int) by (nonlinear_arith)
            requires
                1 <= len as int <= 0x7fff_ffff,
                1 <= ratio.num as int <= 10_000,
                ratio.num < ratio.den,
                ratio.den as int <= 10_000,
        ;
        lemma_round_div_le(len as int * ratio.num as int, ratio.den as int);
        lemma_round_div_ordered(
            len as int * ratio.num as int,
            len as int * ratio.den as int,
            ratio.den as int,
        );
        lemma_round_div_exact(len as int, ratio.den as int);
    }
    let p: u64 = (len as u64) * (ratio.num as u64);
    let scaled: u64 = round_div_u64(p, ratio.den as u64);
    let scaled32: i32 = scaled as i32;
    if scaled32 < 1 {
        1
    } else {
        scaled32
    }
}

/// The source index sampled for destination index `d`, as machine integers.
fn src_index(d: usize, src_len: usize, dst_len: usize) -> (r: usize)
    requires
        0 <= d < dst_len,
        1 <= src_len,
        dst_len <= src_len,
        src_len <= 0x7fff_ffff,
    ensures
        r == spec_src_index(d as int, src_len as int, dst_len as int),
        r < src_len,
{
    proof {
        assert(d as int * src_len as int <= 0x7fff_ffff * 0x7fff_ffff) by (nonlinear_arith)
            requires
                0 <= d as int <= 0x7fff_ffff,
                0 <= src_len as int <= 0x7fff_ffff,
        ;
    }
    let prod: u64 = (d as u64) * (src_len as u64);
    let s: u64 = prod / (dst_len as u64);
    let cap: u64 = (src_len as u64) - 1;
    let clamped: u64 = if s < cap {
        s
    } else {
        cap
    };
    clamped as usize
}

/// `dst` is the nearest-neighbour resampling of `src` at `ratio`: its
/// extents are the scaled ones and every destination pixel is a copy of the
/// source pixel its position maps to.
pub open spec fn is_nearest_downscale_of(dst: Image, src: Image, ratio: Ratio) -> bool {
    &&& dst.wf()
    &&& dst.width as int == spec_dst_len(src.width as int, ratio)
    &&& dst.height as int == spec_dst_len(src.height as int, ratio)
    &&& forall|dx: int, dy: int| 0 <= dx < dst.width && 0 <= dy < dst.height
        ==> #[trigger] dst.spec_pixel(dx, dy) == src.spec_pixel(
            spec_src_index(dx, src.width as int, dst.width as int),
            spec_src_index(dy, src.height as int, dst.height as int),
        )
}

/// Nearest-neighbour downscale of a BGRA frame by `ratio`, a fraction
/// strictly below one.  Every destination pixel is a copy of the source
/// pixel its position maps to.
pub fn downscale_image_bgra(src: &Image, ratio: Ratio) -> (dst: Image)
    requires
        src.wf(),
        1 <= src.width,
        1 <= src.height,
        ratio.wf(),
        ratio.is_downscale(),
    ensures
        is_nearest_downscale_of(dst, *src, ratio),
        1 <= dst.width <= src.width,
        1 <= dst.height <= src.height,
{
    let dst_w: i32 = dst_len(src.width, ratio);
    let dst_h: i32 = dst_len(src.height, ratio);
    let src_len: usize = src.data.len();
    let sw: usize = src.width as usize;
    let sh: usize = src.height as usize;
    let dw: usize = dst_w as usize;
    let dh: usize = dst_h as usize;

    let mut data: Vec<u8> = Vec::new();
    let mut dy: usize = 0;
    while dy < dh
        invariant
            src.wf(),
            1 <= src.width,
            1 <= src.height,
            sw == src.width,
            sh == src.height,
            dw == dst_w,
            dh == dst_h,
            src_len == src.data@.len(),
            dst_w as int == spec_dst_len(src.width as int, ratio),
            dst_h as int == spec_dst_len(src.height as int, ratio),
            1 <= dw <= sw,
            1 <= dh <= sh,
            0 <= dy <= dh,
            data@.len() == 4 * (dy * dw),
            forall|p: int| 0 <= p < dy * dw ==> #[trigger] flat_pixel(data@, p)
                == src.spec_pixel(
                    spec_src_index(p % (dw as int), sw as int, dw as int),
                    spec_src_index(p / (dw as int), sh as int, dh as int),
                ),
        decreases dh - dy,
    {
        let sy: usize = src_index(dy, sh, dh);
        let mut dx: usize = 0;
        while dx < dw
            invariant
                src.wf(),
                1 <= src.width,
                1 <= src.height,
                sw == src.width,
                sh == src.height,
                dw == dst_w,
                dh == dst_h,
                src_len == src.data@.len(),
                1 <= dw <= sw,
                1 <= dh <= sh,
                0 <= dy < dh,
                0 <= dx <= dw,
                sy == spec_src_index(dy as int, sh as int, dh as int),
                sy < sh,
                data@.len() == 4 * (dy * dw + dx),
                forall|p: int| 0 <= p < dy * dw + dx ==> #[trigger] flat_pixel(data@, p)
                    == src.spec_pixel(
                        spec_src_index(p % (dw as int), sw as int, dw as int),
                        spec_src_index(p / (dw as int), sh as int, dh as int),
                    ),
            decreases dw - dx,
        {
            let sx: usize = src_index(dx, sw, dw);
            proof {
                lemma_flat_index(sw as int, sh as int, sx as int, sy as int);
                assert(4 * (dy * dw + dx) + 4 == 4 * (dy * dw + dx + 1)) by (nonlinear_arith);
                assert(dy * dw + dx + 1 <= dh * dw) by (nonlinear_arith)
                    requires
                        0 <= dx < dw,
                        0 <= dy < dh,
                ;
            }
            let sidx: usize = (sy * sw + sx) * 4;
            let ghost pre = data@;
            let ghost pcur: int = dy as int * dw as int + dx as int;
            data.push(src.data[sidx]);
            data.push(src.data[sidx + 1]);
            data.push(src.data[sidx + 2]);
            data.push(src.data[sidx + 3]);
            proof {
                assert(forall|k: int| 0 <= k < pre.len() ==> data@[k] == pre[k]);
                lemma_fundamental_div_mod_converse(pcur, dw as int, dy as int, dx as int);
                assert(flat_pixel(data@, pcur) =~= src.spec_pixel(sx as int, sy as int));
                assert forall|p: int| 0 <= p < pcur + 1 implies #[trigger] flat_pixel(data@, p)
                    == src.spec_pixel(
                        spec_src_index(p % (dw as int), sw as int, dw as int),
                        spec_src_index(p / (dw as int), sh as int, dh as int),
                    ) by {
                    if p < pcur {
                        lemma_flat_pixel_stable(pre, data@, p);
                    }
                }
            }
            dx += 1;
        }
        proof {
            assert(dy * dw + dw == (dy + 1) * dw) by (nonlinear_arith);
        }
        dy += 1;
    }
    proof {
        assert(4 * (dh * dw) == dst_w * dst_h * 4) by (nonlinear_arith)
            requires
                dw == dst_w,
                dh == dst_h,
        ;
    }
    let dst = Image { width: dst_w, height: dst_h, data };
    proof {
        assert forall|dx: int, dy2: int| 0 <= dx < dst.width && 0 <= dy2 < dst.height
            implies #[trigger] dst.spec_pixel(dx, dy2) == src.spec_pixel(
                spec_src_index(dx, src.width as int, dst.width as int),
                spec_src_index(dy2, src.height as int, dst.height as int),
            ) by {
            let p = dy2 * (dw as int) + dx;
            assert(0 <= p && p < dh as int * dw as int) by (nonlinear_arith)
                requires
                    0 <= dx < dw as int,
                    0 <= dy2 < dh as int,
                    p == dy2 * (dw as int) + dx,
            ;
            lemma_fundamental_div_mod_converse(p, dw as int, dy2, dx);
            assert(dst.spec_pixel(dx, dy2) == flat_pixel(dst.data@, p));
        }
    }
    dst
}

} // verus!
