//! The brush strokes of one image.

use crate::domain::Point;
use crate::util::{filled, kept, remove_selected_items, spec_true_indices, true_indices};
use vstd::prelude::*;

verus! {

/// The brush strokes of one image: three lists of one length that hold, at
/// the index of a stroke, its points in the order in which they were
/// drawn, the index of its category in the label table, and whether it is
/// selected.
#[derive(Clone, Debug, PartialEq, Eq)]
pub struct BrushAnnotations {
    points: Vec<Vec<Point>>,
    cat_idxs: Vec<usize>,
    selected: Vec<bool>,
}

impl BrushAnnotations {
    /// The strokes, each a list of points of the original image.
    pub closed spec fn spec_points(&self) -> Seq<Vec<Point>> {
        self.points@
    }

    pub closed spec fn spec_cat_idxs(&self) -> Seq<usize> {
        self.cat_idxs@
    }

    pub closed spec fn spec_selected(&self) -> Seq<bool> {
        self.selected@
    }

    /// The number of strokes.
    pub open spec fn spec_len(&self) -> nat {
        self.spec_points().len()
    }

    /// The three lists have one length.
    pub open spec fn wf(&self) -> bool {
        &&& self.spec_points().len() == self.spec_cat_idxs().len()
        &&& self.spec_points().len() == self.spec_selected().len()
    }

    /// No strokes.
    pub fn new() -> (annos: Self)
        ensures
            annos.wf(),
            annos.spec_len() == 0,
    {
        BrushAnnotations { points: Vec::new(), cat_idxs: Vec::new(), selected: Vec::new() }
    }

    /// Adds a stroke of the category `cat_idx`, not selected.
    pub fn add(&mut self, stroke: Vec<Point>, cat_idx: usize)
        requires
            old(self).wf(),
        ensures
            final(self).wf(),
            final(self).spec_points() == old(self).spec_points().push(stroke),
            final(self).spec_cat_idxs() == old(self).spec_cat_idxs().push(cat_idx),
            final(self).spec_selected() == old(self).spec_selected().push(false),
    {
        self.points.push(stroke);
        self.cat_idxs.push(cat_idx);
        self.selected.push(false);
    }

    /// Appends a point to the stroke that was added last.
    pub fn push_point(&mut self, p: Point)
        requires
            old(self).wf(),
            old(self).spec_len() > 0,
        ensures
            final(self).wf(),
            final(self).spec_len() == old(self).spec_len(),
            final(self).spec_points().last()@ == old(self).spec_points().last()@.push(p),
            final(self).spec_points().drop_last() == old(self).spec_points().drop_last(),
            final(self).spec_cat_idxs() == old(self).spec_cat_idxs(),
            final(self).spec_selected() == old(self).spec_selected(),
    {
        let last = self.points.len() - 1;
        let ghost before = self.points@;
        let mut stroke = self.points.pop().unwrap();
        assert(self.points@ == before.drop_last());
        stroke.push(p);
        self.points.push(stroke);
        assert(self.points@.drop_last() =~= before.drop_last());
    }

    /// Takes the stroke at `idx` out and returns it.
    pub fn remove(&mut self, idx: usize) -> (stroke: Vec<Point>)
        requires
            old(self).wf(),
            idx < old(self).spec_len(),
        ensures
            final(self).wf(),
            stroke == old(self).spec_points()[idx as int],
            final(self).spec_points() == old(self).spec_points().remove(idx as int),
            final(self).spec_cat_idxs() == old(self).spec_cat_idxs().remove(idx as int),
            final(self).spec_selected() == old(self).spec_selected().remove(idx as int),
    {
        self.cat_idxs.remove(idx);
        self.selected.remove(idx);
        self.points.remove(idx)
    }

    /// Takes the selected strokes out. The other strokes stay in their
    /// order, each with its category, and none of them is selected.
    pub fn remove_selected(&mut self)
        requires
            old(self).wf(),
        ensures
            final(self).wf(),
            final(self).spec_points() == kept(
                old(self).spec_points(),
                old(self).spec_selected(),
                0,
            ),
            final(self).spec_cat_idxs() == kept(
                old(self).spec_cat_idxs(),
                old(self).spec_selected(),
                0,
            ),
            final(self).spec_selected() == Seq::new(
                final(self).spec_points().len(),
                |i: int| false,
            ),
    {
        proof {
            crate::util::lemma_kept_from(
                self.points@,
                self.selected@,
                0,
                self.points@.len() as int,
            );
            crate::util::lemma_kept_from(
                self.cat_idxs@,
                self.selected@,
                0,
                self.cat_idxs@.len() as int,
            );
        }
        remove_selected_items(&mut self.points, &self.selected);
        remove_selected_items(&mut self.cat_idxs, &self.selected);
        self.selected = filled(false, self.points.len());
    }

    /// The indices of the selected strokes, in rising order.
    pub fn selected_indices(&self) -> (r: Vec<usize>)
        ensures
            r@ == spec_true_indices(self.spec_selected(), 0),
    {
        true_indices(self.selected.as_slice())
    }

    pub fn select(&mut self, idx: usize)
        requires
            old(self).wf(),
            idx < old(self).spec_len(),
        ensures
            final(self).wf(),
            final(self).spec_selected() == old(self).spec_selected().update(idx as int, true),
            final(self).spec_points() == old(self).spec_points(),
            final(self).spec_cat_idxs() == old(self).spec_cat_idxs(),
    {
        self.selected.set(idx, true);
    }

    pub fn deselect(&mut self, idx: usize)
        requires
            old(self).wf(),
            idx < old(self).spec_len(),
        ensures
            final(self).wf(),
            final(self).spec_selected() == old(self).spec_selected().update(idx as int, false),
            final(self).spec_points() == old(self).spec_points(),
            final(self).spec_cat_idxs() == old(self).spec_cat_idxs(),
    {
        self.selected.set(idx, false);
    }

    pub fn toggle_selection(&mut self, idx: usize)
        requires
            old(self).wf(),
            idx < old(self).spec_len(),
        ensures
            final(self).wf(),
            final(self).spec_selected() == old(self).spec_selected().update(
                idx as int,
                !old(self).spec_selected()[idx as int],
            ),
            final(self).spec_points() == old(self).spec_points(),
            final(self).spec_cat_idxs() == old(self).spec_cat_idxs(),
    {
        let flipped = !self.selected[idx];
        self.selected.set(idx, flipped);
    }

    pub fn points(&self) -> (r: &Vec<Vec<Point>>)
        ensures
            r@ == self.spec_points(),
    {
        &self.points
    }

    pub fn cat_idxs(&self) -> (r: &Vec<usize>)
        ensures
            r@ == self.spec_cat_idxs(),
    {
        &self.cat_idxs
    }

    pub fn selected(&self) -> (r: &Vec<bool>)
        ensures
            r@ == self.spec_selected(),
    {
        &self.selected
    }

    /// Takes all strokes out.
    pub fn clear(&mut self)
        ensures
            final(self).wf(),
            final(self).spec_len() == 0,
            final(self).spec_cat_idxs().len() == 0,
            final(self).spec_selected().len() == 0,
    {
        self.points.clear();
        self.cat_idxs.clear();
        self.selected.clear();
    }
}

impl Default for BrushAnnotations {
    fn default() -> (annos: Self)
        ensures
            annos.wf(),
            annos.spec_len() == 0,
    {
        Self::new()
    }
}

} // verus!
