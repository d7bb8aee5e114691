//! `Shape` and `BB`, the value types of the geometry.

use std::ops::Range;
use vstd::prelude::*;

verus! {

/// A pixel position, `(x, y)`.
pub type Point = (u32, u32);

/// Width and height of an image or of a view.
#[derive(Clone, Copy, Debug, PartialEq, Eq, Structural)]
pub struct Shape {
    pub w: u32,
    pub h: u32,
}

impl Shape {
    /// A shape that an image can have: both sides are positive.
    pub open spec fn is_positive(self) -> bool {
        self.w > 0 && self.h > 0
    }

    pub fn new(w: u32, h: u32) -> (s: Self)
        ensures
            s.w == w,
            s.h == h,
    {
        Self { w, h }
    }
}

/// An axis-aligned rectangle: its minimal corner `(x, y)` and its size.
///
/// The rectangle covers the pixels `x <= px < x + w`, `y <= py < y + h`.
#[derive(Clone, Copy, Debug, PartialEq, Eq, Structural)]
pub struct BB {
    pub x: u32,
    pub y: u32,
    pub w: u32,
    pub h: u32,
}

impl BB {
    /// Both maximal coordinates `x + w` and `y + h` are `u32` values.
    pub open spec fn corners_fit(self) -> bool {
        self.x + self.w <= u32::MAX && self.y + self.h <= u32::MAX
    }

    /// The box has a positive width and height.
    pub open spec fn is_positive(self) -> bool {
        self.w >= 1 && self.h >= 1
    }

    /// The box lies inside an image of the given shape.
    pub open spec fn spec_is_contained_in_image(self, shape: Shape) -> bool {
        self.x + self.w <= shape.w && self.y + self.h <= shape.h
    }

    /// The position `(px, py)` is covered by the box: lower bounds are
    /// inclusive, upper bounds are exclusive.
    pub open spec fn covers(self, px: int, py: int) -> bool {
        self.x <= px && px < self.x + self.w && self.y <= py && py < self.y + self.h
    }

    pub open spec fn spec_contains(self, p: Point) -> bool {
        self.covers(p.0 as int, p.1 as int)
    }

    /// The corner with the given index, counted as
    /// ```text
    /// 0   3
    /// v   ^
    /// 1 > 2
    /// ```
    pub open spec fn corner_at(self, idx: int) -> (int, int) {
        if idx == 0 {
            (self.x as int, self.y as int)
        } else if idx == 1 {
            (self.x as int, self.y + self.h)
        } else if idx == 2 {
            (self.x + self.w, self.y + self.h)
        } else {
            (self.x + self.w, self.y as int)
        }
    }

    /// One of the four corners of `self` is covered by `other`.
    pub open spec fn has_corner_in(self, other: BB) -> bool {
        ||| other.covers(self.corner_at(0).0, self.corner_at(0).1)
        ||| other.covers(self.corner_at(1).0, self.corner_at(1).1)
        ||| other.covers(self.corner_at(2).0, self.corner_at(2).1)
        ||| other.covers(self.corner_at(3).0, self.corner_at(3).1)
    }

    /// Two boxes overlap if a corner of one of them is covered by the other.
    /// Two boxes that cross without covering a corner of each other are not
    /// found by this test.
    pub open spec fn spec_has_overlap(self, other: BB) -> bool {
        self.has_corner_in(other) || other.has_corner_in(self)
    }

    /// The squared distance between corner `cs` of `self` and corner `co` of
    /// `other`.
    pub open spec fn corner_sqdist(self, other: BB, cs: int, co: int) -> int {
        let a = self.corner_at(cs);
        let b = other.corner_at(co);
        (b.0 - a.0) * (b.0 - a.0) + (b.1 - a.1) * (b.1 - a.1)
    }

    /// The box with the given coordinates, if it is a positive box inside an
    /// image of the given shape.
    pub open spec fn checked(x: int, y: int, w: int, h: int, shape: Shape) -> Option<BB> {
        if x >= 0 && y >= 0 && w >= 1 && h >= 1 && x + w <= shape.w && y + h <= shape.h {
            Some(BB { x: x as u32, y: y as u32, w: w as u32, h: h as u32 })
        } else {
            None
        }
    }

    /// The box moved by `(x_shift, y_shift)`, if it stays inside the image.
    pub open spec fn spec_translate(self, x_shift: int, y_shift: int, shape: Shape) -> Option<BB> {
        Self::checked(self.x + x_shift, self.y + y_shift, self.w as int, self.h as int, shape)
    }

    /// The box with its maximal corner moved by `(x_shift, y_shift)`, if that
    /// is a positive box inside the image.
    pub open spec fn spec_shift_max(self, x_shift: int, y_shift: int, shape: Shape) -> Option<BB> {
        Self::checked(self.x as int, self.y as int, self.w + x_shift, self.h + y_shift, shape)
    }

    /// The box with its minimal corner moved by `(x_shift, y_shift)`, if that
    /// is a positive box inside the image.
    pub open spec fn spec_shift_min(self, x_shift: int, y_shift: int, shape: Shape) -> Option<BB> {
        Self::checked(
            self.x + x_shift,
            self.y + y_shift,
            self.w - x_shift,
            self.h - y_shift,
            shape,
        )
    }

    /// The part of the interval `[var, var + size_bx)` that lies in
    /// `[0, size_im)`, as start and length. The length is 0 where the two do
    /// not meet.
    pub open spec fn clip(var: int, size_bx: int, size_im: int) -> (int, int) {
        let lo = if var < 0 {
            0
        } else if var > size_im {
            size_im
        } else {
            var
        };
        let end = var + size_bx;
        let hi = if end < lo {
            lo
        } else if end > size_im {
            size_im
        } else {
            end
        };
        (lo, hi - lo)
    }

    /// The box with the given coordinates, cut down to the image.
    pub open spec fn fit_to_image(x: int, y: int, w: int, h: int, shape: Shape) -> BB {
        let cx = Self::clip(x, w, shape.w as int);
        let cy = Self::clip(y, h, shape.h as int);
        BB { x: cx.0 as u32, y: cy.0 as u32, w: cx.1 as u32, h: cy.1 as u32 }
    }

    /// The box spanned by two points, at least one pixel wide and high.
    pub open spec fn spanned(p1: Point, p2: Point) -> BB {
        let x_min = if p1.0 <= p2.0 { p1.0 } else { p2.0 };
        let x_max = if p1.0 <= p2.0 { p2.0 } else { p1.0 };
        let y_min = if p1.1 <= p2.1 { p1.1 } else { p2.1 };
        let y_max = if p1.1 <= p2.1 { p2.1 } else { p1.1 };
        BB {
            x: x_min,
            y: y_min,
            w: if x_max == x_min { 1u32 } else { (x_max - x_min) as u32 },
            h: if y_max == y_min { 1u32 } else { (y_max - y_min) as u32 },
        }
    }

    /// `[x, y, w, h]`
    pub fn from_arr(a: &[u32; 4]) -> (bb: Self)
        ensures
            bb.x == a[0],
            bb.y == a[1],
            bb.w == a[2],
            bb.h == a[3],
    {
        BB { x: a[0], y: a[1], w: a[2], h: a[3] }
    }

    /// Finds, among the 16 pairs of a corner of `self` and a corner of
    /// `other`, the pair that is farthest apart; of several such pairs the
    /// one with the greatest corner index of `self`, then of `other`.
    /// Returns both indices and the squared distance.
    pub fn max_corner_squaredist(&self, other: &BB) -> (r: (usize, usize, i64))
        requires
            self.x + self.w <= i32::MAX,
            self.y + self.h <= i32::MAX,
            other.x + other.w <= i32::MAX,
            other.y + other.h <= i32::MAX,
        ensures
            r.0 < 4 && r.1 < 4,
            r.2 == self.corner_sqdist(*other, r.0 as int, r.1 as int),
            forall|i: int, j: int|
                0 <= i < 4 && 0 <= j < 4 ==> #[trigger] self.corner_sqdist(*other, i, j) <= r.2,
            forall|i: int, j: int|
                0 <= i < 4 && 0 <= j < 4 && #[trigger] self.corner_sqdist(*other, i, j) == r.2
                    ==> i < r.0 || (i == r.0 && j <= r.1),
    {
        let mut best: (usize, usize, i64) = (0, 0, corner_sqdist_of(self, other, 0, 0));
        let mut cs: usize = 0;
        while cs < 4
            invariant
                cs <= 4,
                self.x + self.w <= i32::MAX,
                self.y + self.h <= i32::MAX,
                other.x + other.w <= i32::MAX,
                other.y + other.h <= i32::MAX,
                best.0 < 4 && best.1 < 4,
                best.2 == self.corner_sqdist(*other, best.0 as int, best.1 as int),
                cs > 0 ==> best.0 < cs,
                cs == 0 ==> best.0 == 0 && best.1 == 0,
                forall|i: int, j: int|
                    0 <= i < cs && 0 <= j < 4 ==> #[trigger] self.corner_sqdist(*other, i, j)
                        <= best.2,
                forall|i: int, j: int|
                    0 <= i < cs && 0 <= j < 4 && #[trigger] self.corner_sqdist(*other, i, j)
                        == best.2 ==> i < best.0 || (i == best.0 && j <= best.1),
            decreases 4 - cs,
        {
            let mut co: usize = 0;
            while co < 4
                invariant
                    cs < 4,
                    co <= 4,
                    self.x + self.w <= i32::MAX,
                    self.y + self.h <= i32::MAX,
                    other.x + other.w <= i32::MAX,
                    other.y + other.h <= i32::MAX,
                    best.0 < 4 && best.1 < 4,
                    best.0 <= cs,
                    best.0 == cs ==> best.1 < co || (cs == 0 && co == 0 && best.1 == 0),
                    best.2 == self.corner_sqdist(*other, best.0 as int, best.1 as int),
                    forall|i: int, j: int|
                        0 <= j < 4 && (0 <= i < cs || (i == cs && j < co))
                            ==> #[trigger] self.corner_sqdist(*other, i, j) <= best.2,
                    forall|i: int, j: int|
                        0 <= j < 4 && (0 <= i < cs || (i == cs && j < co))
                            && #[trigger] self.corner_sqdist(*other, i, j) == best.2 ==> i
                            < best.0 || (i == best.0 && j <= best.1),
                decreases 4 - co,
            {
                let d = corner_sqdist_of(self, other, cs, co);
                if d >= best.2 {
                    best = (cs, co, d);
                }
                co += 1;
            }
            cs += 1;
        }
        best
    }

    /// Start and end of the box along an axis: 0 is x, any other is y.
    pub fn min_max(&self, axis: usize) -> (r: (u32, u32))
        requires
            self.corners_fit(),
        ensures
            axis == 0 ==> r == (self.x, (self.x + self.w) as u32),
            axis != 0 ==> r == (self.y, (self.y + self.h) as u32),
    {
        if axis == 0 {
            (self.x, self.x + self.w)
        } else {
            (self.y, self.y + self.h)
        }
    }

    /// The four corners in the order of their indices.
    pub fn corners(&self) -> (r: [Point; 4])
        requires
            self.corners_fit(),
        ensures
            forall|i: int|
                0 <= i < 4 ==> (#[trigger] r[i]).0 == self.corner_at(i).0 && r[i].1
                    == self.corner_at(i).1,
    {
        [self.corner(0), self.corner(1), self.corner(2), self.corner(3)]
    }

    pub fn corner(&self, idx: usize) -> (r: Point)
        requires
            idx < 4,
            self.corners_fit(),
        ensures
            r.0 == self.corner_at(idx as int).0,
            r.1 == self.corner_at(idx as int).1,
    {
        let (x, y, w, h) = (self.x, self.y, self.w, self.h);
        if idx == 0 {
            (x, y)
        } else if idx == 1 {
            (x, y + h)
        } else if idx == 2 {
            (x + w, y + h)
        } else {
            (x + w, y)
        }
    }

    /// The corner across the box from the corner `idx`.
    pub fn opposite_corner(&self, idx: usize) -> (r: Point)
        requires
            idx < 4,
            self.corners_fit(),
        ensures
            r.0 == self.corner_at((idx + 2) % 4).0,
            r.1 == self.corner_at((idx + 2) % 4).1,
    {
        self.corner((idx + 2) % 4)
    }

    pub fn shape(&self) -> (s: Shape)
        ensures
            s.w == self.w,
            s.h == self.h,
    {
        Shape { w: self.w, h: self.h }
    }

    /// The box between two opposite corners, given in any order. Two points
    /// that agree in a coordinate span a box of size 1 along it, so the
    /// result always has a positive width and height.
    pub fn from_points(p1: Point, p2: Point) -> (bb: Self)
        ensures
            bb == Self::spanned(p1, p2),
            bb.is_positive(),
            bb.spec_contains((bb.x, bb.y)),
    {
        let x_min = if p1.0 <= p2.0 { p1.0 } else { p2.0 };
        let x_max = if p1.0 <= p2.0 { p2.0 } else { p1.0 };
        let y_min = if p1.1 <= p2.1 { p1.1 } else { p2.1 };
        let y_max = if p1.1 <= p2.1 { p2.1 } else { p1.1 };
        Self {
            x: x_min,
            y: y_min,
            w: if x_max == x_min { 1 } else { x_max - x_min },
            h: if y_max == y_min { 1 } else { y_max - y_min },
        }
    }

    pub fn x_range(&self) -> (r: Range<u32>)
        requires
            self.corners_fit(),
        ensures
            r.start == self.x,
            r.end == self.x + self.w,
    {
        self.x..(self.x + self.w)
    }

    pub fn y_range(&self) -> (r: Range<u32>)
        requires
            self.corners_fit(),
        ensures
            r.start == self.y,
            r.end == self.y + self.h,
    {
        self.y..(self.y + self.h)
    }

    pub fn center(&self) -> (r: Point)
        requires
            self.corners_fit(),
        ensures
            r.0 == self.x + self.w / 2,
            r.1 == self.y + self.h / 2,
    {
        (self.x + self.w / 2, self.y + self.h / 2)
    }

    pub fn min_usize(&self) -> (r: (usize, usize))
        ensures
            r.0 == self.x,
            r.1 == self.y,
    {
        (self.x as usize, self.y as usize)
    }

    pub fn max_usize(&self) -> (r: (usize, usize))
        requires
            self.corners_fit(),
        ensures
            r.0 == self.x + self.w,
            r.1 == self.y + self.h,
    {
        ((self.x + self.w) as usize, (self.y + self.h) as usize)
    }

    pub fn min(&self) -> (r: Point)
        ensures
            r == (self.x, self.y),
    {
        (self.x, self.y)
    }

    pub fn max(&self) -> (r: Point)
        requires
            self.corners_fit(),
        ensures
            r.0 == self.x + self.w,
            r.1 == self.y + self.h,
    {
        (self.x + self.w, self.y + self.h)
    }

    /// Moves the box as far as the mouse went from `from` to `to`. `None`
    /// if the moved box would not lie inside the image.
    pub fn follow_movement(&self, from: Point, to: Point, shape: Shape) -> (r: Option<Self>)
        ensures
            r == self.spec_translate(to.0 - from.0, to.1 - from.1, shape),
    {
        let x_shift: i64 = to.0 as i64 - from.0 as i64;
        let y_shift: i64 = to.1 as i64 - from.1 as i64;
        checked_from_i64(
            self.x as i64 + x_shift,
            self.y as i64 + y_shift,
            self.w as i64,
            self.h as i64,
            shape,
        )
    }

    /// Tells whether the pixel `p` is covered: lower bounds are inclusive,
    /// upper bounds are exclusive.
    pub fn contains(&self, p: Point) -> (b: bool)
        ensures
            b == self.spec_contains(p),
    {
        covers_u64(self, p.0 as u64, p.1 as u64)
    }

    /// Tells whether both the minimal and the maximal corner of `other` are
    /// covered by `self`.
    pub fn contains_bb(&self, other: BB) -> (b: bool)
        ensures
            b == (self.covers(other.x as int, other.y as int) && self.covers(
                other.x + other.w,
                other.y + other.h,
            )),
    {
        covers_u64(self, other.x as u64, other.y as u64) && covers_u64(
            self,
            other.x as u64 + other.w as u64,
            other.y as u64 + other.h as u64,
        )
    }

    pub fn is_contained_in_image(&self, shape: Shape) -> (b: bool)
        ensures
            b == self.spec_is_contained_in_image(shape),
    {
        self.x as u64 + self.w as u64 <= shape.w as u64 && self.y as u64 + self.h as u64
            <= shape.h as u64
    }

    /// The box with the given coordinates. `None` unless both sizes are
    /// positive and the box lies inside the image.
    pub fn new_shape_checked(x: i32, y: i32, w: i32, h: i32, shape: Shape) -> (r: Option<Self>)
        ensures
            r == Self::checked(x as int, y as int, w as int, h as int, shape),
            r matches Some(bb) ==> bb.is_positive() && bb.spec_is_contained_in_image(shape),
    {
        checked_from_i64(x as i64, y as i64, w as i64, h as i64, shape)
    }

    /// Moves the box by `(x_shift, y_shift)`. `None` if the moved box would
    /// not lie inside the image.
    pub fn translate(&self, x_shift: i32, y_shift: i32, shape: Shape) -> (r: Option<Self>)
        ensures
            r == self.spec_translate(x_shift as int, y_shift as int, shape),
            r matches Some(bb) ==> bb.w == self.w && bb.h == self.h && bb.x == self.x + x_shift
                && bb.y == self.y + y_shift && bb.spec_is_contained_in_image(shape),
    {
        checked_from_i64(
            self.x as i64 + x_shift as i64,
            self.y as i64 + y_shift as i64,
            self.w as i64,
            self.h as i64,
            shape,
        )
    }

    /// The box with the given coordinates, cut down to the part of it that
    /// lies inside the image. Where no part does, the result is empty.
    pub fn new_fit_to_image(x: i32, y: i32, w: i32, h: i32, shape: Shape) -> (bb: BB)
        ensures
            bb == Self::fit_to_image(x as int, y as int, w as int, h as int, shape),
            bb.spec_is_contained_in_image(shape),
    {
        fit_wide(x as i128, y as i128, w as i128, h as i128, shape)
    }

    /// Moves the maximal corner by `(x_shift, y_shift)` and keeps the
    /// minimal one. `None` unless the result is a positive box inside the
    /// image.
    pub fn shift_max(&self, x_shift: i32, y_shift: i32, shape: Shape) -> (r: Option<Self>)
        ensures
            r == self.spec_shift_max(x_shift as int, y_shift as int, shape),
            r matches Some(bb) ==> bb.x == self.x && bb.y == self.y && bb.is_positive()
                && bb.spec_is_contained_in_image(shape),
    {
        checked_from_i64(
            self.x as i64,
            self.y as i64,
            self.w as i64 + x_shift as i64,
            self.h as i64 + y_shift as i64,
            shape,
        )
    }

    /// Moves the minimal corner by `(x_shift, y_shift)` and keeps the
    /// maximal one. `None` unless the result is a positive box inside the
    /// image.
    pub fn shift_min(&self, x_shift: i32, y_shift: i32, shape: Shape) -> (r: Option<Self>)
        ensures
            r == self.spec_shift_min(x_shift as int, y_shift as int, shape),
            r matches Some(bb) ==> bb.x + bb.w == self.x + self.w && bb.y + bb.h == self.y
                + self.h && bb.is_positive() && bb.spec_is_contained_in_image(shape),
    {
        checked_from_i64(
            self.x as i64 + x_shift as i64,
            self.y as i64 + y_shift as i64,
            self.w as i64 - x_shift as i64,
            self.h as i64 - y_shift as i64,
            shape,
        )
    }

    /// `shift_max` for shifts that are differences of two coordinates.
    pub(crate) fn shift_max_wide(&self, x_shift: i64, y_shift: i64, shape: Shape) -> (r: Option<
        Self,
    >)
        requires
            -0x1_0000_0000 <= x_shift <= 0x1_0000_0000,
            -0x1_0000_0000 <= y_shift <= 0x1_0000_0000,
        ensures
            r == self.spec_shift_max(x_shift as int, y_shift as int, shape),
    {
        checked_from_i64(
            self.x as i64,
            self.y as i64,
            self.w as i64 + x_shift,
            self.h as i64 + y_shift,
            shape,
        )
    }

    /// `shift_min` for shifts that are differences of two coordinates.
    pub(crate) fn shift_min_wide(&self, x_shift: i64, y_shift: i64, shape: Shape) -> (r: Option<
        Self,
    >)
        requires
            -0x1_0000_0000 <= x_shift <= 0x1_0000_0000,
            -0x1_0000_0000 <= y_shift <= 0x1_0000_0000,
        ensures
            r == self.spec_shift_min(x_shift as int, y_shift as int, shape),
    {
        checked_from_i64(
            self.x as i64 + x_shift,
            self.y as i64 + y_shift,
            self.w as i64 - x_shift,
            self.h as i64 - y_shift,
            shape,
        )
    }

    /// Tells whether a corner of one of the two boxes is covered by the
    /// other.
    pub fn has_overlap(&self, other: &BB) -> (b: bool)
        ensures
            b == self.spec_has_overlap(*other),
    {
        has_corner_in_u64(self, other) || has_corner_in_u64(other, self)
    }
}

impl Default for BB {
    /// The empty box at the origin.
    fn default() -> (bb: Self)
        ensures
            bb == (BB { x: 0, y: 0, w: 0, h: 0 }),
    {
        BB { x: 0, y: 0, w: 0, h: 0 }
    }
}

/// A box that lies in the image can be moved by a shift exactly if the
/// moved box lies in the image, too. The moved box has the size of the box.
pub proof fn lemma_translate_iff_contained(bb: BB, x_shift: int, y_shift: int, shape: Shape)
    requires
        bb.is_positive(),
        bb.spec_is_contained_in_image(shape),
    ensures
        bb.spec_translate(x_shift, y_shift, shape) is Some <==> (0 <= bb.x + x_shift && 0 <= bb.y
            + y_shift && bb.x + x_shift + bb.w <= shape.w && bb.y + y_shift + bb.h <= shape.h),
        bb.spec_translate(x_shift, y_shift, shape) matches Some(moved) ==> moved.x == bb.x
            + x_shift && moved.y == bb.y + y_shift && moved.w == bb.w && moved.h == bb.h
            && moved.spec_is_contained_in_image(shape),
{
}

fn covers_u64(bb: &BB, px: u64, py: u64) -> (b: bool)
    requires
        px <= 2 * (u32::MAX as int),
        py <= 2 * (u32::MAX as int),
    ensures
        b == bb.covers(px as int, py as int),
{
    bb.x as u64 <= px && px < bb.x as u64 + bb.w as u64 && bb.y as u64 <= py && py < bb.y as u64
        + bb.h as u64
}

fn has_corner_in_u64(a: &BB, b: &BB) -> (r: bool)
    ensures
        r == a.has_corner_in(*b),
{
    let x0 = a.x as u64;
    let y0 = a.y as u64;
    let x1 = a.x as u64 + a.w as u64;
    let y1 = a.y as u64 + a.h as u64;
    covers_u64(b, x0, y0) || covers_u64(b, x0, y1) || covers_u64(b, x1, y1) || covers_u64(
        b,
        x1,
        y0,
    )
}

fn sq_diff(a: u32, b: u32) -> (r: i64)
    requires
        a <= i32::MAX,
        b <= i32::MAX,
    ensures
        r == (b - a) * (b - a),
        0 <= r <= 0x3fff_ffff_0000_0001,
{
    let d: i64 = b as i64 - a as i64;
    assert(0 <= d * d <= 0x3fff_ffff_0000_0001) by (nonlinear_arith)
        requires
            -0x7fff_ffff <= d <= 0x7fff_ffff,
    ;
    d * d
}

fn corner_sqdist_of(a: &BB, b: &BB, cs: usize, co: usize) -> (r: i64)
    requires
        cs < 4,
        co < 4,
        a.x + a.w <= i32::MAX,
        a.y + a.h <= i32::MAX,
        b.x + b.w <= i32::MAX,
        b.y + b.h <= i32::MAX,
    ensures
        r == a.corner_sqdist(*b, cs as int, co as int),
{
    let p = a.corner(cs);
    let q = b.corner(co);
    sq_diff(p.0, q.0) + sq_diff(p.1, q.1)
}

fn checked_from_i64(x: i64, y: i64, w: i64, h: i64, shape: Shape) -> (r: Option<BB>)
    requires
        -0x1_0000_0000_0000 <= x <= 0x1_0000_0000_0000,
        -0x1_0000_0000_0000 <= y <= 0x1_0000_0000_0000,
        -0x1_0000_0000_0000 <= w <= 0x1_0000_0000_0000,
        -0x1_0000_0000_0000 <= h <= 0x1_0000_0000_0000,
    ensures
        r == BB::checked(x as int, y as int, w as int, h as int, shape),
{
    if x < 0 || y < 0 || w < 1 || h < 1 {
        None
    } else if x + w <= shape.w as i64 && y + h <= shape.h as i64 {
        Some(BB { x: x as u32, y: y as u32, w: w as u32, h: h as u32 })
    } else {
        None
    }
}

pub(super) fn clip_wide(var: i128, size_bx: i128, size_im: u32) -> (r: (u32, u32))
    requires
        -0x1_0000_0000_0000_0000_0000 <= var <= 0x1_0000_0000_0000_0000_0000,
        -0x1_0000_0000_0000_0000_0000 <= size_bx <= 0x1_0000_0000_0000_0000_0000,
    ensures
        r.0 == BB::clip(var as int, size_bx as int, size_im as int).0,
        r.1 == BB::clip(var as int, size_bx as int, size_im as int).1,
        r.0 + r.1 <= size_im,
{
    let lim = size_im as i128;
    let lo = if var < 0 {
        0
    } else if var > lim {
        lim
    } else {
        var
    };
    let end = var + size_bx;
    let hi = if end < lo {
        lo
    } else if end > lim {
        lim
    } else {
        end
    };
    (lo as u32, (hi - lo) as u32)
}

pub(super) fn fit_wide(x: i128, y: i128, w: i128, h: i128, shape: Shape) -> (bb: BB)
    requires
        -0x1_0000_0000_0000_0000_0000 <= x <= 0x1_0000_0000_0000_0000_0000,
        -0x1_0000_0000_0000_0000_0000 <= y <= 0x1_0000_0000_0000_0000_0000,
        -0x1_0000_0000_0000_0000_0000 <= w <= 0x1_0000_0000_0000_0000_0000,
        -0x1_0000_0000_0000_0000_0000 <= h <= 0x1_0000_0000_0000_0000_0000,
    ensures
        bb == BB::fit_to_image(x as int, y as int, w as int, h as int, shape),
        bb.spec_is_contained_in_image(shape),
{
    let (bx, bw) = clip_wide(x, w, shape.w);
    let (by, bh) = clip_wide(y, h, shape.h);
    BB { x: bx, y: by, w: bw, h: bh }
}

} // verus!
