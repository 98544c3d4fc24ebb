//! Axis-aligned rectangles in pixel coordinates.

use vstd::prelude::*;

verus! {

/// An axis-aligned rectangle, positioned at `(x, y)` with the given extent.
/// Coordinates are pixels of one specific buffer; a rectangle computed on a
/// downscaled buffer must be mapped back before it is used on the native one.
#[derive(Debug, Clone, Copy, PartialEq, Eq, Structural)]
pub struct Rect {
    pub x: i32,
    pub y: i32,
    pub width: i32,
    pub height: i32,
}

impl Rect {
    /// Both the right and the bottom edge stay within the range of `i32`,
    /// so that edge arithmetic cannot overflow.
    pub open spec fn fits(self) -> bool {
        &&& i32::MIN <= self.x + self.width <= i32::MAX
        &&& i32::MIN <= self.y + self.height <= i32::MAX
    }

    /// The point `(px, py)` lies inside `self` (edges on the right and
    /// bottom are exclusive).
    pub open spec fn spec_contains_point(self, px: int, py: int) -> bool {
        &&& self.x <= px < self.x + self.width
        &&& self.y <= py < self.y + self.height
    }

    /// The two rectangles share at least one interior point.
    pub open spec fn spec_intersects(self, other: Rect) -> bool {
        !(self.x + self.width <= other.x
            || other.x + other.width <= self.x
            || self.y + self.height <= other.y
            || other.y + other.height <= self.y)
    }

    pub fn new(x: i32, y: i32, width: i32, height: i32) -> (r: Rect)
        ensures
            r == (Rect { x, y, width, height }),
    {
        Rect { x, y, width, height }
    }

    pub fn contains_point(&self, x: i32, y: i32) -> (r: bool)
        requires
            self.fits(),
        ensures
            r == self.spec_contains_point(x as int, y as int),
    {
        x >= self.x && x < self.x + self.width && y >= self.y && y < self.y + self.height
    }

    /// `other` lies entirely within `self`.
    pub fn contains(&self, other: &Rect) -> (r: bool)
        requires
            self.fits(),
            other.fits(),
        ensures
            r == (self.x <= other.x && self.y <= other.y
                && self.x + self.width >= other.x + other.width
                && self.y + self.height >= other.y + other.height),
    {
        self.x <= other.x
            && self.y <= other.y
            && self.x + self.width >= other.x + other.width
            && self.y + self.height >= other.y + other.height
    }

    pub fn intersects(&self, other: &Rect) -> (r: bool)
        requires
            self.fits(),
            other.fits(),
        ensures
            r == self.spec_intersects(*other),
    {
        !(self.x + self.width <= other.x
            || other.x + other.width <= self.x
            || self.y + self.height <= other.y
            || other.y + other.height <= self.y)
    }

    /// The overlap of the two rectangles, if they intersect.
    pub fn intersection(&self, other: &Rect) -> (r: Option<Rect>)
        requires
            self.fits(),
            other.fits(),
        ensures
            match r {
                Some(i) => {
                    &&& self.spec_intersects(*other)
                    &&& i.x == vstd::math::max(self.x as int, other.x as int)
                    &&& i.y == vstd::math::max(self.y as int, other.y as int)
                    &&& i.x + i.width
                        == vstd::math::min(self.x + self.width, other.x + other.width)
                    &&& i.y + i.height
                        == vstd::math::min(self.y + self.height, other.y + other.height)
                },
                None => !self.spec_intersects(*other),
            },
    {
        if !self.intersects(other) {
            return None;
        }

        let x = if self.x >= other.x { self.x } else { other.x };
        let y = if self.y >= other.y { self.y } else { other.y };
        let self_right = self.x + self.width;
        let other_right = other.x + other.width;
        let right = if self_right <= other_right { self_right } else { other_right };
        let self_bottom = self.y + self.height;
        let other_bottom = other.y + other.height;
        let bottom = if self_bottom <= other_bottom { self_bottom } else { other_bottom };

        Some(Rect::new(x, y, right - x, bottom - y))
    }

    /// The parts of `self` not covered by `other`: nothing changes when the
    /// two do not intersect, otherwise up to four rectangles (above, below,
    /// left of and right of the overlap, in that order).
    pub open spec fn spec_subtract(self, other: Rect) -> Seq<Rect> {
        if !self.spec_intersects(other) {
            seq![self]
        } else {
            let ix = vstd::math::max(self.x as int, other.x as int);
            let iy = vstd::math::max(self.y as int, other.y as int);
            let iright = vstd::math::min(self.x + self.width, other.x + other.width);
            let ibottom = vstd::math::min(self.y + self.height, other.y + other.height);
            let top = if self.y < iy {
                seq![(Rect {
                    x: self.x,
                    y: self.y,
                    width: self.width,
                    height: (iy - self.y) as i32,
                })]
            } else {
                Seq::empty()
            };
            let bottom = if self.y + self.height > ibottom {
                seq![(Rect {
                    x: self.x,
                    y: ibottom as i32,
                    width: self.width,
                    height: (self.y + self.height - ibottom) as i32,
                })]
            } else {
                Seq::empty()
            };
            let left = if self.x < ix {
                seq![(Rect {
                    x: self.x,
                    y: iy as i32,
                    width: (ix - self.x) as i32,
                    height: (ibottom - iy) as i32,
                })]
            } else {
                Seq::empty()
            };
            let right = if self.x + self.width > iright {
                seq![(Rect {
                    x: iright as i32,
                    y: iy as i32,
                    width: (self.x + self.width - iright) as i32,
                    height: (ibottom - iy) as i32,
                })]
            } else {
                Seq::empty()
            };
            top + bottom + left + right
        }
    }

    /// Subtract `other` from `self`, returning the uncovered parts.
    pub fn subtract(&self, other: &Rect) -> (r: Vec<Rect>)
        requires
            self.fits(),
            other.fits(),
        ensures
            r@ == self.spec_subtract(*other),
    {
        if !self.intersects(other) {
            let mut result: Vec<Rect> = Vec::new();
            result.push(*self);
            proof {
                assert(result@ =~= self.spec_subtract(*other));
            }
            return result;
        }

        let intersection = self.intersection(other).unwrap();
        let mut result: Vec<Rect> = Vec::new();

        if self.y < intersection.y {
            result.push(Rect::new(self.x, self.y, self.width, intersection.y - self.y));
        }

        if self.y + self.height > intersection.y + intersection.height {
            result.push(Rect::new(
                self.x,
                intersection.y + intersection.height,
                self.width,
                (self.y + self.height) - (intersection.y + intersection.height),
            ));
        }

        if self.x < intersection.x {
            result.push(Rect::new(
                self.x,
                intersection.y,
                intersection.x - self.x,
                intersection.height,
            ));
        }

        if self.x + self.width > intersection.x + intersection.width {
            result.push(Rect::new(
                intersection.x + intersection.width,
                intersection.y,
                (self.x + self.width) - (intersection.x + intersection.width),
                intersection.height,
            ));
        }

        proof {
            assert(result@ =~= self.spec_subtract(*other));
        }
        result
    }

    pub fn area(&self) -> (r: i32)
        requires
            i32::MIN <= self.width * self.height <= i32::MAX,
        ensures
            r == self.width * self.height,
    {
        self.width * self.height
    }
}

/// Some rectangle of `rs` contains the point.
pub open spec fn covers(rs: Seq<Rect>, px: int, py: int) -> bool {
    exists|k: int| 0 <= k < rs.len() && #[trigger] rs[k].spec_contains_point(px, py)
}

proof fn lemma_covers_add(s1: Seq<Rect>, s2: Seq<Rect>, px: int, py: int)
    ensures
        covers(s1 + s2, px, py) == (covers(s1, px, py) || covers(s2, px, py)),
{
    if covers(s1, px, py) {
        let k = choose|k: int| 0 <= k < s1.len() && #[trigger] s1[k].spec_contains_point(px, py);
        assert((s1 + s2)[k].spec_contains_point(px, py));
    }
    if covers(s2, px, py) {
        let k = choose|k: int| 0 <= k < s2.len() && #[trigger] s2[k].spec_contains_point(px, py);
        assert((s1 + s2)[s1.len() + k].spec_contains_point(px, py));
    }
    if covers(s1 + s2, px, py) {
        let k = choose|k: int| 0 <= k < (s1 + s2).len() && #[trigger] (s1 + s2)[k]
            .spec_contains_point(px, py);
        if k < s1.len() {
            assert(s1[k].spec_contains_point(px, py));
        } else {
            assert(s2[k - s1.len()].spec_contains_point(px, py));
        }
    }
}

proof fn lemma_covers_single(r: Rect, px: int, py: int)
    ensures
        covers(seq![r], px, py) == r.spec_contains_point(px, py),
{
    if r.spec_contains_point(px, py) {
        assert(seq![r][0].spec_contains_point(px, py));
    }
}

/// Subtraction is exact on points: the returned parts cover precisely the
/// points of `a` that `b` does not cover.
pub proof fn lemma_subtract_covers_difference(a: Rect, b: Rect, px: int, py: int)
    requires
        a.fits(),
        b.fits(),
    ensures
        covers(a.spec_subtract(b), px, py) == (a.spec_contains_point(px, py)
            && !b.spec_contains_point(px, py)),
{
    let parts = a.spec_subtract(b);
    if !a.spec_intersects(b) {
        lemma_covers_single(a, px, py);
        if a.spec_contains_point(px, py) && b.spec_contains_point(px, py) {
            assert(a.spec_intersects(b));
        }
    } else {
        let ix = vstd::math::max(a.x as int, b.x as int);
        let iy = vstd::math::max(a.y as int, b.y as int);
        let iright = vstd::math::min(a.x + a.width, b.x + b.width);
        let ibottom = vstd::math::min(a.y + a.height, b.y + b.height);
        let top = (Rect { x: a.x, y: a.y, width: a.width, height: (iy - a.y) as i32 });
        let bottom = (Rect {
            x: a.x,
            y: ibottom as i32,
            width: a.width,
            height: (a.y + a.height - ibottom) as i32,
        });
        let left = (Rect {
            x: a.x,
            y: iy as i32,
            width: (ix - a.x) as i32,
            height: (ibottom - iy) as i32,
        });
        let right = (Rect {
            x: iright as i32,
            y: iy as i32,
            width: (a.x + a.width - iright) as i32,
            height: (ibottom - iy) as i32,
        });
        let top_s: Seq<Rect> = if a.y < iy {
            seq![top]
        } else {
            Seq::empty()
        };
        let bottom_s: Seq<Rect> = if a.y + a.height > ibottom {
            seq![bottom]
        } else {
            Seq::empty()
        };
        let left_s: Seq<Rect> = if a.x < ix {
            seq![left]
        } else {
            Seq::empty()
        };
        let right_s: Seq<Rect> = if a.x + a.width > iright {
            seq![right]
        } else {
            Seq::empty()
        };
        assert(parts == top_s + bottom_s + left_s + right_s);
        lemma_covers_add(top_s + bottom_s + left_s, right_s, px, py);
        lemma_covers_add(top_s + bottom_s, left_s, px, py);
        lemma_covers_add(top_s, bottom_s, px, py);
        lemma_covers_single(top, px, py);
        lemma_covers_single(bottom, px, py);
        lemma_covers_single(left, px, py);
        lemma_covers_single(right, px, py);
        assert(covers(parts, px, py) == ((a.y < iy && top.spec_contains_point(px, py)) || (a.y
            + a.height > ibottom && bottom.spec_contains_point(px, py)) || (a.x < ix
            && left.spec_contains_point(px, py)) || (a.x + a.width > iright
            && right.spec_contains_point(px, py))));
        if a.spec_contains_point(px, py) && !b.spec_contains_point(px, py) {
            if py < iy {
                assert(top.spec_contains_point(px, py));
            } else if py >= ibottom {
                assert(bottom.spec_contains_point(px, py));
            } else if px < ix {
                assert(left.spec_contains_point(px, py));
            } else if px >= iright {
                assert(right.spec_contains_point(px, py));
            } else {
                assert(b.spec_contains_point(px, py));
            }
        }
    }
}

} // verus!
