//! The split mode, which couples boxes that share an edge.
//!
//! In a split mode the boxes are rows or columns that tile the image.
//! Resizing a box then moves the edge that it shares with its neighbour, so
//! that neither a gap nor an overlap comes up between the two.

use super::resize::{resize_flagged, shifted_or_same, spec_resize, Edge};
use crate::domain::{GeoFig, Point, Shape, BB};
use vstd::prelude::*;

verus! {

/// How boxes are coupled.
#[derive(Clone, Copy, Debug, PartialEq, Eq, Structural)]
pub enum SplitMode {
    /// The boxes are rows: they share upper and lower edges, and move and
    /// resize along y only.
    Horizontal,
    /// The boxes are columns: they share left and right edges, and move and
    /// resize along x only.
    Vertical,
    /// The boxes are not coupled.
    NoSplit,
}

impl Default for SplitMode {
    fn default() -> (m: Self)
        ensures
            m == SplitMode::NoSplit,
    {
        SplitMode::NoSplit
    }
}

impl SplitMode {
    /// The shift, with the part across the split axis set to zero.
    pub open spec fn spec_zero_direction(self, x_shift: int, y_shift: int) -> (int, int) {
        match self {
            SplitMode::Horizontal => (0, y_shift),
            SplitMode::Vertical => (x_shift, 0),
            SplitMode::NoSplit => (x_shift, y_shift),
        }
    }

    /// Where the given edge of the box lies along the split axis.
    pub open spec fn edge_pos(self, bb: BB, edge: Edge) -> int {
        match (self, edge) {
            (SplitMode::Horizontal, Edge::Min) => bb.y as int,
            (SplitMode::Horizontal, Edge::Max) => bb.y + bb.h,
            (SplitMode::Vertical, Edge::Min) => bb.x as int,
            (SplitMode::Vertical, Edge::Max) => bb.x + bb.w,
            (SplitMode::NoSplit, _) => 0,
        }
    }

    /// The box `i` shares the moved edge of a selected box: its opposite
    /// edge lies where the edge `edge` of a selected box lies.
    pub open spec fn is_neighbour(self, bbs: Seq<BB>, selected: Seq<bool>, edge: Edge, i: int) -> bool {
        self != SplitMode::NoSplit && exists|j: int|
            0 <= j < bbs.len() && j < selected.len() && #[trigger] selected[j] && self.edge_pos(
                bbs[i],
                opposite(edge),
            ) == self.edge_pos(bbs[j], edge)
    }

    /// For each box, whether it shares the moved edge of a selected box.
    pub open spec fn neighbours(self, bbs: Seq<BB>, selected: Seq<bool>, edge: Edge) -> Seq<bool> {
        Seq::new(bbs.len(), |i: int| self.is_neighbour(bbs, selected, edge, i))
    }

    /// The boxes after the corner `edge` of the selected ones was moved:
    /// first each neighbour has its opposite corner moved, then each
    /// selected box the corner itself, both by the shift along the split
    /// axis, and each only where its resize is not refused.
    pub open spec fn spec_shift_bbs(
        self,
        edge: Edge,
        x_shift: int,
        y_shift: int,
        selected: Seq<bool>,
        bbs: Seq<BB>,
        shape: Shape,
    ) -> Seq<BB> {
        let shift = self.spec_zero_direction(x_shift, y_shift);
        let pushed = spec_resize(
            bbs,
            self.neighbours(bbs, selected, edge),
            opposite(edge),
            shift.0,
            shift.1,
            shape,
        );
        spec_resize(pushed, selected, edge, shift.0, shift.1, shape)
    }

    fn zero_direction(&self, x_shift: i32, y_shift: i32) -> (r: (i32, i32))
        ensures
            r.0 == self.spec_zero_direction(x_shift as int, y_shift as int).0,
            r.1 == self.spec_zero_direction(x_shift as int, y_shift as int).1,
    {
        match self {
            SplitMode::Horizontal => (0, y_shift),
            SplitMode::Vertical => (x_shift, 0),
            SplitMode::NoSplit => (x_shift, y_shift),
        }
    }

    fn edge_pos_of(&self, bb: &BB, edge: Edge) -> (r: u64)
        ensures
            r == self.edge_pos(*bb, edge),
    {
        match (self, edge) {
            (SplitMode::Horizontal, Edge::Min) => bb.y as u64,
            (SplitMode::Horizontal, Edge::Max) => bb.y as u64 + bb.h as u64,
            (SplitMode::Vertical, Edge::Min) => bb.x as u64,
            (SplitMode::Vertical, Edge::Max) => bb.x as u64 + bb.w as u64,
            (SplitMode::NoSplit, _) => 0,
        }
    }

    fn find_neighbours(&self, bbs: &Vec<BB>, selected_bbs: &[bool], edge: Edge) -> (r: Vec<bool>)
        ensures
            r@ == self.neighbours(bbs@, selected_bbs@, edge),
    {
        let mut flags: Vec<bool> = Vec::new();
        let n = if selected_bbs.len() < bbs.len() {
            selected_bbs.len()
        } else {
            bbs.len()
        };
        let coupled = match self {
            SplitMode::NoSplit => false,
            _ => true,
        };
        let mut i: usize = 0;
        while i < bbs.len()
            invariant
                i <= bbs.len(),
                flags.len() == i,
                n <= bbs.len(),
                n <= selected_bbs.len(),
                n == bbs.len() || n == selected_bbs.len(),
                coupled == (*self != SplitMode::NoSplit),
                forall|k: int|
                    0 <= k < i ==> #[trigger] flags[k] == self.is_neighbour(
                        bbs@,
                        selected_bbs@,
                        edge,
                        k,
                    ),
            decreases bbs.len() - i,
        {
            let key = self.edge_pos_of(&bbs[i], opposite_of(edge));
            let mut found = false;
            let mut j: usize = 0;
            while coupled && j < n
                invariant
                    i < bbs.len(),
                    j <= n,
                    !coupled ==> j == 0,
                    coupled == (*self != SplitMode::NoSplit),
                    n <= bbs.len(),
                    n <= selected_bbs.len(),
                    key == self.edge_pos(bbs[i as int], opposite(edge)),
                    found == exists|k: int|
                        0 <= k < j && #[trigger] selected_bbs[k] && key == self.edge_pos(
                            bbs[k],
                            edge,
                        ),
                decreases n - j,
            {
                if selected_bbs[j] && self.edge_pos_of(&bbs[j], edge) == key {
                    found = true;
                }
                j += 1;
            }
            proof {
                let sel = selected_bbs@;
                let mine = self.edge_pos(bbs[i as int], opposite(edge));
                if found {
                    let k = choose|k: int|
                        0 <= k < j && #[trigger] selected_bbs[k] && key == self.edge_pos(
                            bbs[k],
                            edge,
                        );
                    assert(0 <= k < bbs.len() && k < sel.len() && sel[k] && mine == self.edge_pos(
                        bbs[k],
                        edge,
                    ));
                    assert(self.is_neighbour(bbs@, sel, edge, i as int));
                } else if self.is_neighbour(bbs@, sel, edge, i as int) {
                    let k = choose|k: int|
                        0 <= k < bbs.len() && k < sel.len() && #[trigger] sel[k] && mine
                            == self.edge_pos(bbs[k], edge);
                    assert(coupled && j == n);
                    assert(0 <= k < j && selected_bbs[k] && key == self.edge_pos(bbs[k], edge));
                    assert(found);
                }
            }
            flags.push(found);
            i += 1;
        }
        assert(flags@ =~= self.neighbours(bbs@, selected_bbs@, edge));
        flags
    }

    fn shift_bbs(
        &self,
        edge: Edge,
        x_shift: i32,
        y_shift: i32,
        selected_bbs: &[bool],
        bbs: Vec<BB>,
        shape_orig: Shape,
    ) -> (r: Vec<BB>)
        ensures
            r@ == self.spec_shift_bbs(
                edge,
                x_shift as int,
                y_shift as int,
                selected_bbs@,
                bbs@,
                shape_orig,
            ),
    {
        let (x_shift, y_shift) = self.zero_direction(x_shift, y_shift);
        let neighbours = self.find_neighbours(&bbs, selected_bbs, edge);
        let bbs = resize_flagged(
            bbs,
            neighbours.as_slice(),
            opposite_of(edge),
            x_shift,
            y_shift,
            shape_orig,
        );
        resize_flagged(bbs, selected_bbs, edge, x_shift, y_shift, shape_orig)
    }

    /// Moves the minimal corner of each selected box by the shift along the
    /// split axis, after the maximal corner of each box that shares the
    /// moved edge.
    pub fn shift_min_bbs(
        &self,
        x_shift: i32,
        y_shift: i32,
        selected_bbs: &[bool],
        bbs: Vec<BB>,
        shape_orig: Shape,
    ) -> (r: Vec<BB>)
        ensures
            r@ == self.spec_shift_bbs(
                Edge::Min,
                x_shift as int,
                y_shift as int,
                selected_bbs@,
                bbs@,
                shape_orig,
            ),
            r.len() == bbs.len(),
    {
        self.shift_bbs(Edge::Min, x_shift, y_shift, selected_bbs, bbs, shape_orig)
    }

    /// Moves the maximal corner of each selected box by the shift along the
    /// split axis, after the minimal corner of each box that shares the
    /// moved edge.
    pub fn shift_max_bbs(
        &self,
        x_shift: i32,
        y_shift: i32,
        selected_bbs: &[bool],
        bbs: Vec<BB>,
        shape_orig: Shape,
    ) -> (r: Vec<BB>)
        ensures
            r@ == self.spec_shift_bbs(
                Edge::Max,
                x_shift as int,
                y_shift as int,
                selected_bbs@,
                bbs@,
                shape_orig,
            ),
            r.len() == bbs.len(),
    {
        self.shift_bbs(Edge::Max, x_shift, y_shift, selected_bbs, bbs, shape_orig)
    }

    /// Where the mouse takes a box from `from` to `to`. Without a split
    /// mode the box moves along. In a split mode only the part of the way
    /// along the split axis counts, and a box at the border of the image
    /// that is dragged away from it keeps its edge at the border and
    /// grows; every other box moves. `None` where the move or the resize is
    /// refused.
    pub open spec fn spec_bb_follow_movement(
        self,
        bb: BB,
        from: Point,
        to: Point,
        shape: Shape,
    ) -> Option<BB> {
        let x_shift = to.0 - from.0;
        let y_shift = to.1 - from.1;
        match self {
            SplitMode::NoSplit => bb.spec_translate(x_shift, y_shift, shape),
            SplitMode::Horizontal => if y_shift > 0 && bb.y == 0 {
                bb.spec_shift_max(0, y_shift, shape)
            } else if y_shift < 0 && bb.y + bb.h == shape.h {
                bb.spec_shift_min(0, y_shift, shape)
            } else {
                bb.spec_translate(0, y_shift, shape)
            },
            SplitMode::Vertical => if x_shift > 0 && bb.x == 0 {
                bb.spec_shift_max(x_shift, 0, shape)
            } else if x_shift < 0 && bb.x + bb.w == shape.w {
                bb.spec_shift_min(x_shift, 0, shape)
            } else {
                bb.spec_translate(x_shift, 0, shape)
            },
        }
    }

    /// Lets a figure follow the mouse from `mpo_from` to `mpo_to`. Tells
    /// whether the figure has changed, and returns the figure: a box as
    /// `spec_bb_follow_movement` says, and unchanged where that is `None`;
    /// a polygon always unchanged.
    pub fn geo_follow_movement(
        &self,
        geo: GeoFig,
        mpo_from: Point,
        mpo_to: Point,
        orig_shape: Shape,
    ) -> (r: (bool, GeoFig))
        ensures
            match geo {
                GeoFig::BB(bb) => match self.spec_bb_follow_movement(
                    bb,
                    mpo_from,
                    mpo_to,
                    orig_shape,
                ) {
                    Some(moved) => r == (true, GeoFig::BB(moved)),
                    None => r == (false, geo),
                },
                GeoFig::Poly(_) => r == (false, geo),
            },
    {
        match geo {
            GeoFig::BB(bb) => {
                let x_shift: i64 = mpo_to.0 as i64 - mpo_from.0 as i64;
                let y_shift: i64 = mpo_to.1 as i64 - mpo_from.1 as i64;
                let moved = match self {
                    SplitMode::NoSplit => bb.follow_movement(mpo_from, mpo_to, orig_shape),
                    SplitMode::Horizontal => {
                        if y_shift > 0 && bb.y == 0 {
                            bb.shift_max_wide(0, y_shift, orig_shape)
                        } else if y_shift < 0 && bb.y as u64 + bb.h as u64 == orig_shape.h as u64 {
                            bb.shift_min_wide(0, y_shift, orig_shape)
                        } else {
                            bb.follow_movement(mpo_from, (mpo_from.0, mpo_to.1), orig_shape)
                        }
                    },
                    SplitMode::Vertical => {
                        if x_shift > 0 && bb.x == 0 {
                            bb.shift_max_wide(x_shift, 0, orig_shape)
                        } else if x_shift < 0 && bb.x as u64 + bb.w as u64 == orig_shape.w as u64 {
                            bb.shift_min_wide(x_shift, 0, orig_shape)
                        } else {
                            bb.follow_movement(mpo_from, (mpo_to.0, mpo_from.1), orig_shape)
                        }
                    },
                };
                match moved {
                    Some(bb_moved) => (true, GeoFig::BB(bb_moved)),
                    None => (false, GeoFig::BB(bb)),
                }
            },
            GeoFig::Poly(poly) => (false, GeoFig::Poly(poly)),
        }
    }
}

/// A resize changes no box but the selected ones and, in a split mode, the
/// boxes that share the moved edge of a selected one. Without a split mode
/// it changes none but the selected ones.
pub proof fn lemma_shift_leaves_others(
    mode: SplitMode,
    edge: Edge,
    x_shift: int,
    y_shift: int,
    selected: Seq<bool>,
    bbs: Seq<BB>,
    shape: Shape,
    i: int,
)
    requires
        0 <= i < bbs.len(),
        !(i < selected.len() && selected[i]),
    ensures
        mode.spec_shift_bbs(edge, x_shift, y_shift, selected, bbs, shape).len() == bbs.len(),
        !mode.is_neighbour(bbs, selected, edge, i) ==> mode.spec_shift_bbs(
            edge,
            x_shift,
            y_shift,
            selected,
            bbs,
            shape,
        )[i] == bbs[i],
        mode == SplitMode::NoSplit ==> mode.spec_shift_bbs(
            edge,
            x_shift,
            y_shift,
            selected,
            bbs,
            shape,
        )[i] == bbs[i],
{
}

/// A selected box that shares no moved edge comes out of a resize with the
/// corner moved by the shift along the split axis, or unchanged where that
/// is refused: it is never resized in part.
pub proof fn lemma_shift_resizes_selected(
    mode: SplitMode,
    edge: Edge,
    x_shift: int,
    y_shift: int,
    selected: Seq<bool>,
    bbs: Seq<BB>,
    shape: Shape,
    i: int,
)
    requires
        0 <= i < bbs.len(),
        i < selected.len() && selected[i],
        !mode.is_neighbour(bbs, selected, edge, i),
    ensures
        mode.spec_shift_bbs(edge, x_shift, y_shift, selected, bbs, shape)[i] == shifted_or_same(
            bbs[i],
            edge,
            mode.spec_zero_direction(x_shift, y_shift).0,
            mode.spec_zero_direction(x_shift, y_shift).1,
            shape,
        ),
{
}

/// Two boxes that share an edge still share it after the edge was moved
/// with the first box, if both resizes were accepted: no gap and no
/// overlap comes up between them.
pub proof fn lemma_shared_edge_stays_shared(
    mode: SplitMode,
    a: BB,
    b: BB,
    x_shift: int,
    y_shift: int,
    shape: Shape,
)
    requires
        mode != SplitMode::NoSplit,
        mode.edge_pos(a, Edge::Max) == mode.edge_pos(b, Edge::Min),
        a.spec_shift_max(
            mode.spec_zero_direction(x_shift, y_shift).0,
            mode.spec_zero_direction(x_shift, y_shift).1,
            shape,
        ) is Some,
        b.spec_shift_min(
            mode.spec_zero_direction(x_shift, y_shift).0,
            mode.spec_zero_direction(x_shift, y_shift).1,
            shape,
        ) is Some,
    ensures
        mode.edge_pos(
            shifted_or_same(
                a,
                Edge::Max,
                mode.spec_zero_direction(x_shift, y_shift).0,
                mode.spec_zero_direction(x_shift, y_shift).1,
                shape,
            ),
            Edge::Max,
        ) == mode.edge_pos(
            shifted_or_same(
                b,
                Edge::Min,
                mode.spec_zero_direction(x_shift, y_shift).0,
                mode.spec_zero_direction(x_shift, y_shift).1,
                shape,
            ),
            Edge::Min,
        ),
{
}

/// The corner across the box.
pub open spec fn opposite(edge: Edge) -> Edge {
    match edge {
        Edge::Min => Edge::Max,
        Edge::Max => Edge::Min,
    }
}

fn opposite_of(edge: Edge) -> (r: Edge)
    ensures
        r == opposite(edge),
{
    match edge {
        Edge::Min => Edge::Max,
        Edge::Max => Edge::Min,
    }
}

} // verus!
