//! Small helpers for positions on the view.

use crate::domain::BB;
use vstd::prelude::*;

verus! {

/// A pixel position.
#[derive(Clone, Copy, Debug, PartialEq, Eq, Structural)]
pub struct PtI {
    pub x: u32,
    pub y: u32,
}

impl From<(u32, u32)> for PtI {
    fn from(value: (u32, u32)) -> (p: Self)
        ensures
            p == (PtI { x: value.0, y: value.1 }),
    {
        PtI { x: value.0, y: value.1 }
    }
}

impl vstd::std_specs::convert::FromSpecImpl<(u32, u32)> for PtI {
    open spec fn obeys_from_spec() -> bool {
        true
    }

    open spec fn from_spec(value: (u32, u32)) -> Self {
        PtI { x: value.0, y: value.1 }
    }
}

/// Scales a coordinate from an axis of `size_from` pixels to an axis of
/// `size_to` pixels, rounding down.
pub fn scale_coord(x: u32, size_from: u32, size_to: u32) -> (r: u32)
    requires
        size_from > 0,
        x <= size_from,
    ensures
        r == x * size_to / (size_from as int),
        r <= size_to,
{
    proof {
        crate::domain::lemma_scaled_coord_bounded(x as int, size_to as int, size_from as int);
        assert(x * size_to <= 0xffff_ffff * 0xffff_ffff) by (nonlinear_arith)
            requires
                0 <= x <= 0xffff_ffff,
                0 <= size_to <= 0xffff_ffff,
        ;
    }
    (x as u64 * size_to as u64 / size_from as u64) as u32
}

/// The pixel of the box that is nearest to `p`: `p` itself if it lies in
/// the box, else the pixel of the border that `p` is projected on.
pub fn project_on_bb(p: PtI, bb: &BB) -> (r: PtI)
    requires
        bb.is_positive(),
        bb.corners_fit(),
    ensures
        bb.spec_contains((r.x, r.y)),
        bb.spec_contains((p.x, p.y)) ==> r == p,
        r.x == (if p.x < bb.x {
            bb.x as int
        } else if p.x > bb.x + bb.w - 1 {
            bb.x + bb.w - 1
        } else {
            p.x as int
        }),
        r.y == (if p.y < bb.y {
            bb.y as int
        } else if p.y > bb.y + bb.h - 1 {
            bb.y + bb.h - 1
        } else {
            p.y as int
        }),
{
    let x_hi = bb.x + bb.w - 1;
    let y_hi = bb.y + bb.h - 1;
    let x = if p.x < bb.x {
        bb.x
    } else if p.x > x_hi {
        x_hi
    } else {
        p.x
    };
    let y = if p.y < bb.y {
        bb.y
    } else if p.y > y_hi {
        y_hi
    } else {
        p.y
    };
    PtI { x, y }
}

} // verus!
