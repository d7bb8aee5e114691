//! What of a bounding box the view shows: its corners in view coordinates
//! and the view pixels that it covers.

use super::geometry::{Point, Shape, BB};
use super::transform::{
    orig_coord_to_view_coord, shape_scaled, shape_unscaled, spec_orig_coord_to_view_coord,
    spec_shape_unscaled, spec_view_shape, transform_defined,
};
use crate::result::RvError;
use vstd::prelude::*;

verus! {

/// The bounds of a box in view coordinates. A bound that is out of view is
/// `None`.
#[derive(Clone, Copy, Debug)]
pub struct ViewCorners {
    pub x_min: Option<u32>,
    pub y_min: Option<u32>,
    pub x_max: Option<u32>,
    pub y_max: Option<u32>,
}

/// The point `(x, y)` where both coordinates are in view.
pub open spec fn both(x: Option<u32>, y: Option<u32>) -> Option<Point> {
    match (x, y) {
        (Some(x), Some(y)) => Some((x, y)),
        _ => None,
    }
}

fn pair_up(x: Option<u32>, y: Option<u32>) -> (r: Option<Point>)
    ensures
        r == both(x, y),
{
    match (x, y) {
        (Some(x), Some(y)) => Some((x, y)),
        _ => None,
    }
}

impl ViewCorners {
    /// The corners in the order of their indices, each `None` unless both
    /// of its coordinates are in view.
    pub open spec fn spec_to_arr(self) -> Seq<Option<Point>> {
        seq![
            both(self.x_min, self.y_min),
            both(self.x_min, self.y_max),
            both(self.x_max, self.y_max),
            both(self.x_max, self.y_min),
        ]
    }

    pub fn new(
        x_min: Option<u32>,
        y_min: Option<u32>,
        x_max: Option<u32>,
        y_max: Option<u32>,
    ) -> (vc: Self)
        ensures
            vc.x_min == x_min,
            vc.y_min == y_min,
            vc.x_max == x_max,
            vc.y_max == y_max,
    {
        Self { x_min, y_min, x_max, y_max }
    }

    pub fn to_tuple(self) -> (r: (Option<u32>, Option<u32>, Option<u32>, Option<u32>))
        ensures
            r == (self.x_min, self.y_min, self.x_max, self.y_max),
    {
        (self.x_min, self.y_min, self.x_max, self.y_max)
    }

    /// The box between the corners, if all four bounds are in view.
    pub fn to_bb(self) -> (r: Option<BB>)
        ensures
            r == match (self.x_min, self.y_min, self.x_max, self.y_max) {
                (Some(xmin), Some(ymin), Some(xmax), Some(ymax)) => Some(
                    BB::spanned((xmin, ymin), (xmax, ymax)),
                ),
                _ => None,
            },
    {
        if let (Some(xmin), Some(ymin), Some(xmax), Some(ymax)) = self.to_tuple() {
            Some(BB::from_points((xmin, ymin), (xmax, ymax)))
        } else {
            None
        }
    }

    pub fn to_arr(self) -> (r: [Option<Point>; 4])
        ensures
            r@ == self.spec_to_arr(),
    {
        let r = [
            pair_up(self.x_min, self.y_min),
            pair_up(self.x_min, self.y_max),
            pair_up(self.x_max, self.y_max),
            pair_up(self.x_max, self.y_min),
        ];
        assert(r@ =~= self.spec_to_arr());
        r
    }
}

/// The corners in `arr` from index `from` on that are in view.
pub open spec fn corners_in_view(arr: Seq<Option<Point>>, from: int) -> Seq<Point>
    decreases arr.len() - from,
{
    if from < 0 || from >= arr.len() {
        Seq::empty()
    } else {
        match arr[from] {
            Some(p) => seq![p] + corners_in_view(arr, from + 1),
            None => corners_in_view(arr, from + 1),
        }
    }
}

/// Walks those corners of a box that are in view.
pub struct BbViewCornerIterator {
    arr: [Option<Point>; 4],
    pos: usize,
}

impl BbViewCornerIterator {
    /// The corners that are still to come.
    pub closed spec fn remaining(&self) -> Seq<Point> {
        corners_in_view(self.arr@, self.pos as int)
    }

    pub fn new(view_corners: ViewCorners) -> (it: Self)
        ensures
            it.remaining() == corners_in_view(view_corners.spec_to_arr(), 0),
    {
        Self { arr: view_corners.to_arr(), pos: 0 }
    }

    /// The next corner in view, or `None` after the last.
    pub fn next(&mut self) -> (r: Option<Point>)
        ensures
            match r {
                Some(p) => old(self).remaining() == seq![p] + final(self).remaining(),
                None => old(self).remaining().len() == 0 && final(self).remaining().len() == 0,
            },
    {
        while self.pos < 4
            invariant
                self.arr == old(self).arr,
                self.remaining() == old(self).remaining(),
            decreases 4 - self.pos,
        {
            let item = self.arr[self.pos];
            self.pos += 1;
            if item.is_some() {
                return item;
            }
        }
        None
    }

    /// All corners that are still to come, in their order.
    pub fn collect(self) -> (v: Vec<Point>)
        ensures
            v@ == self.remaining(),
    {
        let mut v: Vec<Point> = Vec::new();
        let mut i = self.pos;
        while i < 4
            invariant
                self.remaining() == v@ + corners_in_view(self.arr@, i as int),
            decreases 4 - i,
        {
            if let Some(p) = self.arr[i] {
                assert(v@.push(p) + corners_in_view(self.arr@, i + 1) =~= v@ + corners_in_view(
                    self.arr@,
                    i as int,
                ));
                v.push(p);
            }
            i += 1;
        }
        assert(v@ + corners_in_view(self.arr@, i as int) =~= v@);
        v
    }
}

/// Walks the pixels of a box row by row, each row from left to right.
pub struct BbViewPointIterator {
    bb: BB,
    x: u32,
    y: u32,
}

impl BbViewPointIterator {
    /// The box whose pixels are walked.
    pub closed spec fn bb(&self) -> BB {
        self.bb
    }

    /// The pixel that comes next, unless the walk is over.
    pub closed spec fn position(&self) -> Point {
        (self.x, self.y)
    }

    /// The walk is over: all rows have been walked.
    pub open spec fn is_done(&self) -> bool {
        self.position().1 == self.bb().y + self.bb().h
    }

    /// The position lies in the box, or the walk is over.
    pub open spec fn wf(&self) -> bool {
        &&& self.bb().corners_fit()
        &&& self.bb().y <= self.position().1 <= self.bb().y + self.bb().h
        &&& !self.is_done() ==> self.bb().spec_contains(self.position())
    }

    /// The number of pixels that were walked.
    pub open spec fn index(&self) -> int {
        if self.is_done() {
            self.bb().w * self.bb().h
        } else {
            (self.position().1 - self.bb().y) * self.bb().w + (self.position().0 - self.bb().x)
        }
    }

    /// The pixels that are still to come.
    pub open spec fn remaining(&self) -> Seq<Point> {
        pixels_of(self.bb()).subrange(self.index(), self.bb().w * self.bb().h)
    }

    /// Walks the pixels between the given corners; a bound that is out of
    /// view is replaced by the bound of the view.
    pub fn new(view_corners: ViewCorners, view_shape: Shape) -> (it: Self)
        requires
            spec_bounds_in(view_corners, view_shape).0 <= spec_bounds_in(
                view_corners,
                view_shape,
            ).2,
            spec_bounds_in(view_corners, view_shape).1 <= spec_bounds_in(
                view_corners,
                view_shape,
            ).3,
        ensures
            it.wf(),
            it.bb() == ({
                let b = spec_bounds_in(view_corners, view_shape);
                BB { x: b.0, y: b.1, w: (b.2 - b.0) as u32, h: (b.3 - b.1) as u32 }
            }),
            it.bb().w > 0 ==> it.position() == (it.bb().x, it.bb().y),
            it.bb().w == 0 ==> it.is_done(),
            it.remaining() == pixels_of(it.bb()),
    {
        let (x_min, y_min, x_max, y_max) = view_corners.to_tuple();
        let x_min = match x_min {
            Some(v) => v,
            None => 0,
        };
        let y_min = match y_min {
            Some(v) => v,
            None => 0,
        };
        let x_max = match x_max {
            Some(v) => v,
            None => view_shape.w,
        };
        let y_max = match y_max {
            Some(v) => v,
            None => view_shape.h,
        };
        Self::from_bb(BB::from_arr(&[x_min, y_min, x_max - x_min, y_max - y_min]))
    }

    /// Walks the pixels of `bb`. A box without width has none.
    pub fn from_bb(bb: BB) -> (it: Self)
        requires
            bb.corners_fit(),
        ensures
            it.wf(),
            it.bb() == bb,
            bb.w > 0 ==> it.position() == (bb.x, bb.y),
            bb.w == 0 ==> it.is_done(),
            it.remaining() == pixels_of(bb),
    {
        let it = if bb.w == 0 {
            BbViewPointIterator { bb, x: bb.x, y: bb.y + bb.h }
        } else {
            BbViewPointIterator { bb, x: bb.x, y: bb.y }
        };
        proof {
            let n = bb.w * bb.h;
            assert(bb.w == 0 ==> n == 0) by (nonlinear_arith)
                requires
                    n == bb.w * bb.h,
            ;
            assert(bb.h == 0 ==> n == 0) by (nonlinear_arith)
                requires
                    n == bb.w * bb.h,
            ;
            assert(0 <= n) by (nonlinear_arith)
                requires
                    n == bb.w * bb.h,
            ;
            assert(it.index() == 0 || n == 0);
            assert(pixels_of(bb).subrange(it.index(), n) =~= pixels_of(bb));
        }
        it
    }

    /// The next pixel of the box, or `None` after the last. After the last
    /// pixel of a row the first of the next row follows.
    pub fn next(&mut self) -> (r: Option<Point>)
        requires
            old(self).wf(),
        ensures
            final(self).wf(),
            final(self).bb() == old(self).bb(),
            match r {
                Some(p) => p == old(self).position() && !old(self).is_done() && old(self).remaining() == seq![p] + final(self).remaining() && final(self).index() == old(self).index() + 1,
                None => old(self).is_done() && old(self).remaining().len() == 0 && final(self).position() == old(self).position(),
            },
    {
        let (x, y) = (self.x, self.y);
        let (x_max_excl, y_max_excl) = self.bb.max();
        if self.y == y_max_excl {
            None
        } else {
            proof {
                lemma_pixel_index(self.bb, x, y);
            }
            if self.x == x_max_excl - 1 {
                self.x = self.bb.x;
                self.y = self.y + 1;
            } else {
                self.x = self.x + 1;
            }
            proof {
                let w = self.bb.w as int;
                let h = self.bb.h as int;
                let row = y - self.bb.y;
                let col = x - self.bb.x;
                let i = row * w + col;
                assert(old(self).index() == i);
                assert((row + 1) * w == row * w + w) by (nonlinear_arith);
                if self.is_done() {
                    assert(row + 1 == h);
                    assert(w * h == (row + 1) * w) by (nonlinear_arith)
                        requires
                            row + 1 == h,
                    ;
                    assert(col == w - 1);
                }
                assert(self.index() == i + 1);
                let all = pixels_of(self.bb);
                assert(all[i] == (x, y));
                assert(all.subrange(i, w * h) =~= seq![all[i]] + all.subrange(i + 1, w * h));
            }
            Some((x, y))
        }
    }

    /// All pixels that are still to come, in their order.
    pub fn collect(self) -> (v: Vec<Point>)
        requires
            self.wf(),
        ensures
            v@ == self.remaining(),
    {
        let mut it = self;
        let ghost all = it.remaining();
        let ghost n = it.bb.w * it.bb.h;
        let mut v: Vec<Point> = Vec::new();
        proof {
            if !it.is_done() {
                lemma_pixel_index(it.bb, it.x, it.y);
            }
        }
        loop
            invariant
                it.wf(),
                n == it.bb.w * it.bb.h,
                0 <= it.index() <= n,
                all == v@ + it.remaining(),
            ensures
                v@ == all,
            decreases n - it.index(),
        {
            let ghost before = it.remaining();
            match it.next() {
                Some(p) => {
                    proof {
                        assert(v@.push(p) + it.remaining() =~= v@ + before);
                        if !it.is_done() {
                            lemma_pixel_index(it.bb, it.x, it.y);
                        }
                    }
                    v.push(p);
                },
                None => {
                    assert(v@ + before =~= v@);
                    break ;
                },
            }
        }
        v
    }
}

/// The pixels of a box, row by row from the top, each row from left to
/// right.
pub open spec fn pixels_of(bb: BB) -> Seq<Point> {
    Seq::new(
        (bb.w * bb.h) as nat,
        |k: int| ((bb.x + k % (bb.w as int)) as u32, (bb.y + k / (bb.w as int)) as u32),
    )
}

/// The pixel `(x, y)` of a box is the pixel with the index
/// `(y - bb.y) * bb.w + (x - bb.x)` among its pixels.
pub proof fn lemma_pixel_index(bb: BB, x: u32, y: u32)
    requires
        bb.corners_fit(),
        bb.spec_contains((x, y)),
    ensures
        0 <= (y - bb.y) * bb.w + (x - bb.x) < bb.w * bb.h,
        pixels_of(bb)[(y - bb.y) * bb.w + (x - bb.x)] == (x, y),
{
    let w = bb.w as int;
    let h = bb.h as int;
    let row = y - bb.y;
    let col = x - bb.x;
    let k = row * w + col;
    assert(0 <= row * w && row * w + w <= h * w && h * w == w * h) by (nonlinear_arith)
        requires
            0 <= row < h,
            0 < w,
    ;
    vstd::arithmetic::div_mod::lemma_fundamental_div_mod_converse(k, w, row, col);
}

/// The bounds of `view_corners`, each replaced by the bound of the view
/// where it is out of view: `(x_min, y_min, x_max, y_max)`.
pub open spec fn spec_bounds_in(view_corners: ViewCorners, view_shape: Shape) -> (
    u32,
    u32,
    u32,
    u32,
) {
    (
        match view_corners.x_min {
            Some(v) => v,
            None => 0u32,
        },
        match view_corners.y_min {
            Some(v) => v,
            None => 0u32,
        },
        match view_corners.x_max {
            Some(v) => v,
            None => view_shape.w,
        },
        match view_corners.y_max {
            Some(v) => v,
            None => view_shape.h,
        },
    )
}

/// A polygon, given by its points and the box around them.
#[derive(Clone, Debug, PartialEq, Eq)]
pub struct Polygon {
    points: Vec<Point>,
    enclosing_bb: BB,
}

impl Polygon {
    /// The points of the polygon, of which there is always at least one.
    pub closed spec fn spec_points(&self) -> Seq<Point> {
        self.points@
    }

    pub closed spec fn spec_enclosing_bb(&self) -> BB {
        self.enclosing_bb
    }

    /// The polygon of the first and the last pixel of `bb`.
    pub fn from_bb(bb: BB) -> (p: Self)
        requires
            bb.is_positive(),
            bb.corners_fit(),
        ensures
            p.spec_enclosing_bb() == bb,
            p.spec_points() == seq![
                (bb.x, bb.y),
                ((bb.x + bb.w - 1) as u32, (bb.y + bb.h - 1) as u32),
            ],
    {
        let points = vec![(bb.x, bb.y), (bb.x + bb.w - 1, bb.y + bb.h - 1)];
        Polygon { points, enclosing_bb: bb }
    }

    pub fn enclosing_bb(&self) -> (bb: BB)
        ensures
            bb == self.spec_enclosing_bb(),
    {
        self.enclosing_bb
    }
}

/// A figure of an annotation.
#[derive(Clone, Debug, PartialEq, Eq)]
pub enum GeoFig {
    BB(BB),
    Poly(Polygon),
}

/// `lo` and `hi` are the least and the greatest coordinates of `points`,
/// along each axis.
pub open spec fn is_extent_of(points: Seq<Point>, lo: Point, hi: Point) -> bool {
    &&& forall|i: int|
        0 <= i < points.len() ==> lo.0 <= (#[trigger] points[i]).0 <= hi.0 && lo.1 <= points[i].1
            <= hi.1
    &&& exists|i: int| 0 <= i < points.len() && (#[trigger] points[i]).0 == lo.0
    &&& exists|i: int| 0 <= i < points.len() && (#[trigger] points[i]).1 == lo.1
    &&& exists|i: int| 0 <= i < points.len() && (#[trigger] points[i]).0 == hi.0
    &&& exists|i: int| 0 <= i < points.len() && (#[trigger] points[i]).1 == hi.1
}

/// The box between the least and the greatest coordinates of the points.
/// Without points there is no such box.
pub fn find_enclosing_bb(points: &Vec<Point>) -> (r: Result<BB, RvError>)
    ensures
        points.len() == 0 <==> r is Err,
        r matches Err(e) ==> e == RvError::NoPoints,
        r matches Ok(bb) ==> exists|lo: Point, hi: Point|
            is_extent_of(points@, lo, hi) && bb == BB::spanned(lo, hi),
{
    if points.len() == 0 {
        return Err(RvError::NoPoints);
    }
    let mut lo: Point = points[0];
    let mut hi: Point = points[0];
    let mut i: usize = 1;
    proof {
        let first = points@.subrange(0, 1);
        assert(first[0] == points[0]);
    }
    while i < points.len()
        invariant
            1 <= i <= points.len(),
            is_extent_of(points@.subrange(0, i as int), lo, hi),
        decreases points.len() - i,
    {
        let p = points[i];
        let ghost prev = points@.subrange(0, i as int);
        let ghost next = points@.subrange(0, i + 1);
        let ghost old_lo = lo;
        let ghost old_hi = hi;
        if p.0 < lo.0 {
            lo = (p.0, lo.1);
        }
        if p.1 < lo.1 {
            lo = (lo.0, p.1);
        }
        if p.0 > hi.0 {
            hi = (p.0, hi.1);
        }
        if p.1 > hi.1 {
            hi = (hi.0, p.1);
        }
        proof {
            assert(next[i as int] == p);
            assert forall|k: int| 0 <= k < prev.len() implies prev[k] == next[k] by {}
            let a = choose|k: int| 0 <= k < prev.len() && (#[trigger] prev[k]).0 == old_lo.0;
            let b = choose|k: int| 0 <= k < prev.len() && (#[trigger] prev[k]).1 == old_lo.1;
            let c = choose|k: int| 0 <= k < prev.len() && (#[trigger] prev[k]).0 == old_hi.0;
            let d = choose|k: int| 0 <= k < prev.len() && (#[trigger] prev[k]).1 == old_hi.1;
            assert(next[a] == prev[a] && next[b] == prev[b] && next[c] == prev[c] && next[d]
                == prev[d]);
            assert(exists|k: int| 0 <= k < next.len() && (#[trigger] next[k]).0 == lo.0) by {
                if p.0 < old_lo.0 {
                    assert(next[i as int].0 == lo.0);
                } else {
                    assert(next[a].0 == lo.0);
                }
            }
            assert(exists|k: int| 0 <= k < next.len() && (#[trigger] next[k]).1 == lo.1) by {
                if p.1 < old_lo.1 {
                    assert(next[i as int].1 == lo.1);
                } else {
                    assert(next[b].1 == lo.1);
                }
            }
            assert(exists|k: int| 0 <= k < next.len() && (#[trigger] next[k]).0 == hi.0) by {
                if p.0 > old_hi.0 {
                    assert(next[i as int].0 == hi.0);
                } else {
                    assert(next[c].0 == hi.0);
                }
            }
            assert(exists|k: int| 0 <= k < next.len() && (#[trigger] next[k]).1 == hi.1) by {
                if p.1 > old_hi.1 {
                    assert(next[i as int].1 == hi.1);
                } else {
                    assert(next[d].1 == hi.1);
                }
            }
            assert forall|k: int| 0 <= k < next.len() implies lo.0 <= (#[trigger] next[k]).0
                <= hi.0 && lo.1 <= next[k].1 <= hi.1 by {
                if k < i {
                    assert(prev[k] == next[k]);
                }
            }
        }
        i += 1;
    }
    proof {
        assert(points@.subrange(0, i as int) =~= points@);
    }
    Ok(BB::from_points(lo, hi))
}

impl BB {
    /// The bounds of the box that a zoom box leaves in view: those of the
    /// part of the box that lies in the zoom box, as
    /// `(x_min, y_min, x_max, y_max)`.
    pub open spec fn bounds_in_zoom(self, zoom_box: Option<BB>) -> (int, int, int, int) {
        match zoom_box {
            Some(zb) => (
                if zb.x > self.x { zb.x as int } else { self.x as int },
                if zb.y > self.y { zb.y as int } else { self.y as int },
                if zb.x + zb.w < self.x + self.w { zb.x + zb.w } else { self.x + self.w },
                if zb.y + zb.h < self.y + self.h { zb.y + zb.h } else { self.y + self.h },
            ),
            None => (self.x as int, self.y as int, self.x + self.w, self.y + self.h),
        }
    }

    /// The start and the end of a zoom box along the x axis, and along the
    /// y axis.
    pub open spec fn zoom_ranges(zoom_box: Option<BB>) -> (Option<(u32, u32)>, Option<(u32, u32)>) {
        match zoom_box {
            Some(zb) => (
                Some((zb.x, (zb.x + zb.w) as u32)),
                Some((zb.y, (zb.y + zb.h) as u32)),
            ),
            None => (None, None),
        }
    }

    pub open spec fn spec_to_viewcorners(
        self,
        shape_orig: Shape,
        shape_win: Shape,
        zoom_box: Option<BB>,
    ) -> ViewCorners {
        let b = self.bounds_in_zoom(zoom_box);
        let unscaled = spec_shape_unscaled(zoom_box, shape_orig);
        let scaled = spec_view_shape(shape_orig, shape_win, zoom_box);
        let ranges = Self::zoom_ranges(zoom_box);
        ViewCorners {
            x_min: spec_orig_coord_to_view_coord(b.0 as u32, unscaled.w, scaled.w, ranges.0),
            y_min: spec_orig_coord_to_view_coord(b.1 as u32, unscaled.h, scaled.h, ranges.1),
            x_max: spec_orig_coord_to_view_coord(b.2 as u32, unscaled.w, scaled.w, ranges.0),
            y_max: spec_orig_coord_to_view_coord(b.3 as u32, unscaled.h, scaled.h, ranges.1),
        }
    }

    /// What the arguments of `to_viewcorners` have to fulfil: the transform
    /// is defined, the corners of the box are `u32` values, and without a
    /// zoom box the box lies in the image.
    pub open spec fn is_drawable(
        self,
        shape_orig: Shape,
        shape_win: Shape,
        zoom_box: Option<BB>,
    ) -> bool {
        &&& transform_defined(shape_orig, shape_win, zoom_box)
        &&& self.corners_fit()
        &&& zoom_box is None ==> self.spec_is_contained_in_image(shape_orig)
    }

    /// The bounds of the box in view coordinates. With a zoom box they are
    /// those of the part of the box that lies in the zoom box, and a bound
    /// at or beyond the end of the zoom box is out of view.
    pub fn to_viewcorners(&self, shape_orig: Shape, shape_win: Shape, zoom_box: &Option<BB>) -> (vc:
        ViewCorners)
        requires
            self.is_drawable(shape_orig, shape_win, *zoom_box),
        ensures
            vc == self.spec_to_viewcorners(shape_orig, shape_win, *zoom_box),
    {
        let ((x_min, y_min), (x_max, y_max)) = match zoom_box {
            Some(zb) => {
                let x_min = if zb.x > self.min().0 {
                    zb.x
                } else {
                    self.min().0
                };
                let y_min = if zb.y > self.min().1 {
                    zb.y
                } else {
                    self.min().1
                };
                let x_max = if zb.max().0 < self.max().0 {
                    zb.max().0
                } else {
                    self.max().0
                };
                let y_max = if zb.max().1 < self.max().1 {
                    zb.max().1
                } else {
                    self.max().1
                };
                ((x_min, y_min), (x_max, y_max))
            },
            None => (self.min(), self.max()),
        };
        let s_unscaled = shape_unscaled(zoom_box, shape_orig);
        let s_scaled = shape_scaled(s_unscaled, shape_win);
        let (range_x, range_y) = match zoom_box {
            Some(zb) => (Some(zb.min_max(0)), Some(zb.min_max(1))),
            None => (None, None),
        };
        ViewCorners::new(
            orig_coord_to_view_coord(x_min, s_unscaled.w, s_scaled.w, &range_x),
            orig_coord_to_view_coord(y_min, s_unscaled.h, s_scaled.h, &range_y),
            orig_coord_to_view_coord(x_max, s_unscaled.w, s_scaled.w, &range_x),
            orig_coord_to_view_coord(y_max, s_unscaled.h, s_scaled.h, &range_y),
        )
    }
}

/// A figure that the view can show.
pub trait MakeDrawable {
    type BoundaryPointIterator;

    type PointIterator;

    /// Whether the figure can be drawn on a view with these parameters.
    spec fn drawable_on(
        &self,
        shape_view: Shape,
        shape_orig: Shape,
        shape_win: Shape,
        zoom_box: Option<BB>,
    ) -> bool;

    /// The box around the figure.
    spec fn spec_enclosing(&self) -> BB;

    /// The boundary points and the inner points of the figure in view
    /// coordinates.
    fn points_on_view(
        &self,
        shape_view: Shape,
        shape_orig: Shape,
        shape_win: Shape,
        zoom_box: &Option<BB>,
    ) -> (r: (Self::BoundaryPointIterator, Self::PointIterator))
        requires
            self.drawable_on(shape_view, shape_orig, shape_win, *zoom_box),
    ;

    fn enclosing_bb(&self) -> (bb: BB)
        ensures
            bb == self.spec_enclosing(),
    ;
}

impl MakeDrawable for BB {
    type BoundaryPointIterator = BbViewCornerIterator;

    type PointIterator = BbViewPointIterator;

    open spec fn drawable_on(
        &self,
        shape_view: Shape,
        shape_orig: Shape,
        shape_win: Shape,
        zoom_box: Option<BB>,
    ) -> bool {
        let b = spec_bounds_in(
            self.spec_to_viewcorners(shape_orig, shape_win, zoom_box),
            shape_view,
        );
        self.is_drawable(shape_orig, shape_win, zoom_box) && b.0 <= b.2 && b.1 <= b.3
    }

    open spec fn spec_enclosing(&self) -> BB {
        *self
    }

    /// The corners of the box that are in view, and the view pixels
    /// between its bounds.
    fn points_on_view(
        &self,
        shape_view: Shape,
        shape_orig: Shape,
        shape_win: Shape,
        zoom_box: &Option<BB>,
    ) -> (r: (BbViewCornerIterator, BbViewPointIterator))
        ensures
            r.0.remaining() == corners_in_view(
                self.spec_to_viewcorners(shape_orig, shape_win, *zoom_box).spec_to_arr(),
                0,
            ),
            r.1.wf(),
            r.1.remaining() == pixels_of(r.1.bb()),
            r.1.bb() == ({
                let b = spec_bounds_in(
                    self.spec_to_viewcorners(shape_orig, shape_win, *zoom_box),
                    shape_view,
                );
                BB { x: b.0, y: b.1, w: (b.2 - b.0) as u32, h: (b.3 - b.1) as u32 }
            }),
    {
        let view_corners = self.to_viewcorners(shape_orig, shape_win, zoom_box);
        let boundary = BbViewCornerIterator::new(view_corners);
        let inner = BbViewPointIterator::new(view_corners, shape_view);
        (boundary, inner)
    }

    fn enclosing_bb(&self) -> (bb: BB) {
        *self
    }
}

} // verus!
