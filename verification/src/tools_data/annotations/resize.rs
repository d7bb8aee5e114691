//! Resizing those boxes of a list that a parallel list of flags marks.

use crate::domain::{Shape, BB};
use vstd::prelude::*;

verus! {

/// The corner of a box that a resize moves.
#[derive(Clone, Copy, Debug, PartialEq, Eq, Structural)]
pub enum Edge {
    /// The minimal corner: the left and the upper edge.
    Min,
    /// The maximal corner: the right and the lower edge.
    Max,
}

/// The box with one corner moved by `(x_shift, y_shift)`; the box itself
/// where that would not give a positive box inside the image.
pub open spec fn shifted_or_same(bb: BB, edge: Edge, x_shift: int, y_shift: int, shape: Shape) -> BB {
    let shifted = match edge {
        Edge::Min => bb.spec_shift_min(x_shift, y_shift, shape),
        Edge::Max => bb.spec_shift_max(x_shift, y_shift, shape),
    };
    match shifted {
        Some(b) => b,
        None => bb,
    }
}

/// The box moved by `(x_shift, y_shift)`; the box itself where it would
/// leave the image.
pub open spec fn moved_or_same(bb: BB, x_shift: int, y_shift: int, shape: Shape) -> BB {
    match bb.spec_translate(x_shift, y_shift, shape) {
        Some(b) => b,
        None => bb,
    }
}

/// The boxes, each resized if its flag is set and unchanged if not. A box
/// without a flag is unchanged.
pub open spec fn spec_resize(
    bbs: Seq<BB>,
    flags: Seq<bool>,
    edge: Edge,
    x_shift: int,
    y_shift: int,
    shape: Shape,
) -> Seq<BB> {
    Seq::new(
        bbs.len(),
        |i: int|
            if i < flags.len() && flags[i] {
                shifted_or_same(bbs[i], edge, x_shift, y_shift, shape)
            } else {
                bbs[i]
            },
    )
}

/// Moves one corner of each box whose flag is set by `(x_shift, y_shift)`.
/// A box whose resize is refused, and every box whose flag is not set,
/// stays as it is.
pub fn resize_flagged(
    mut bbs: Vec<BB>,
    flags: &[bool],
    edge: Edge,
    x_shift: i32,
    y_shift: i32,
    shape_orig: Shape,
) -> (r: Vec<BB>)
    ensures
        r@ == spec_resize(bbs@, flags@, edge, x_shift as int, y_shift as int, shape_orig),
        r.len() == bbs.len(),
        forall|i: int|
            0 <= i < bbs.len() && !(i < flags.len() && flags[i]) ==> #[trigger] r[i] == bbs[i],
{
    let ghost orig = bbs@;
    let n = if flags.len() < bbs.len() {
        flags.len()
    } else {
        bbs.len()
    };
    let mut idx: usize = 0;
    while idx < n
        invariant
            idx <= n,
            n <= flags.len(),
            n == bbs.len() || n == flags.len(),
            bbs.len() == orig.len(),
            n <= orig.len(),
            forall|i: int|
                0 <= i < idx ==> #[trigger] bbs[i] == spec_resize(
                    orig,
                    flags@,
                    edge,
                    x_shift as int,
                    y_shift as int,
                    shape_orig,
                )[i],
            forall|i: int| idx <= i < orig.len() ==> #[trigger] bbs[i] == orig[i],
        decreases n - idx,
    {
        if flags[idx] {
            let resized = match edge {
                Edge::Min => bbs[idx].shift_min(x_shift, y_shift, shape_orig),
                Edge::Max => bbs[idx].shift_max(x_shift, y_shift, shape_orig),
            };
            if let Some(bb) = resized {
                bbs.set(idx, bb);
            }
        }
        idx += 1;
    }
    assert(bbs@ =~= spec_resize(orig, flags@, edge, x_shift as int, y_shift as int, shape_orig));
    bbs
}

/// Moves the maximal corner of each selected box by `(x_shift, y_shift)`.
/// A box that is not selected is never changed, and a selected box only
/// where the result is a positive box inside the image.
pub fn resize_bbs(
    bbs: Vec<BB>,
    selected_bbs: &[bool],
    x_shift: i32,
    y_shift: i32,
    shape_orig: Shape,
) -> (r: Vec<BB>)
    ensures
        r@ == spec_resize(
            bbs@,
            selected_bbs@,
            Edge::Max,
            x_shift as int,
            y_shift as int,
            shape_orig,
        ),
        r.len() == bbs.len(),
        forall|i: int|
            0 <= i < bbs.len() && !(i < selected_bbs.len() && selected_bbs[i]) ==> #[trigger] r[i]
                == bbs[i],
{
    resize_flagged(bbs, selected_bbs, Edge::Max, x_shift, y_shift, shape_orig)
}

} // verus!
