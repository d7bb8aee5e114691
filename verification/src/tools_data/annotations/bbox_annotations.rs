//! The bounding boxes of one image.

use super::bbox_splitmode::SplitMode;
use super::resize::{moved_or_same, resize_bbs, spec_resize, Edge};
use crate::domain::{Point, Shape, BB};
use crate::result::RvError;
use crate::tools_data::color::{is_pick, Rgb, N_PROPOSALS};
use crate::tools_data::label_info::{max_id, LabelInfo};
use crate::util::{filled, kept, remove_selected_items, spec_true_indices, true_indices};
use vstd::prelude::*;

verus! {

/// The category index after the category `removed` was taken out of the
/// table: an index above `removed` falls by one, and so does the index
/// `removed` itself unless it is 0, so that its boxes go over to the
/// category before it.
pub open spec fn reduced_cat_idx(cat_idx: usize, removed: usize) -> usize {
    if cat_idx >= removed && cat_idx > 0 {
        (cat_idx - 1) as usize
    } else {
        cat_idx
    }
}

/// The bounding boxes of one image: three lists of one length that hold,
/// at the index of a box, the box, the index of its category in the label
/// table, and whether it is selected.
#[derive(Clone, Debug, PartialEq, Eq)]
pub struct BboxAnnotations {
    bbs: Vec<BB>,
    cat_idxs: Vec<usize>,
    selected_bbs: Vec<bool>,
}

impl BboxAnnotations {
    pub closed spec fn spec_bbs(&self) -> Seq<BB> {
        self.bbs@
    }

    pub closed spec fn spec_cat_idxs(&self) -> Seq<usize> {
        self.cat_idxs@
    }

    pub closed spec fn spec_selected(&self) -> Seq<bool> {
        self.selected_bbs@
    }

    /// The number of boxes.
    pub open spec fn spec_len(&self) -> nat {
        self.spec_bbs().len()
    }

    /// The three lists have one length.
    pub open spec fn wf(&self) -> bool {
        &&& self.spec_bbs().len() == self.spec_cat_idxs().len()
        &&& self.spec_bbs().len() == self.spec_selected().len()
    }

    /// Every box belongs to one of the first `n_cats` categories.
    pub open spec fn cats_below(&self, n_cats: int) -> bool {
        forall|i: int| 0 <= i < self.spec_cat_idxs().len() ==> self.spec_cat_idxs()[i] < n_cats
    }

    /// The given boxes, all of the first category and none selected.
    pub fn new(bbs: Vec<BB>) -> (annos: Self)
        ensures
            annos.wf(),
            annos.spec_bbs() == bbs@,
            annos.spec_cat_idxs() == Seq::new(bbs.len() as nat, |i: int| 0usize),
            annos.spec_selected() == Seq::new(bbs.len() as nat, |i: int| false),
    {
        let bbs_len = bbs.len();
        BboxAnnotations {
            bbs,
            cat_idxs: filled(0usize, bbs_len),
            selected_bbs: filled(false, bbs_len),
        }
    }

    /// The given boxes with their categories, none selected.
    pub fn from_bbs_cats(bbs: Vec<BB>, cat_idxs: Vec<usize>) -> (annos: Self)
        requires
            bbs.len() == cat_idxs.len(),
        ensures
            annos.wf(),
            annos.spec_bbs() == bbs@,
            annos.spec_cat_idxs() == cat_idxs@,
            annos.spec_selected() == Seq::new(bbs.len() as nat, |i: int| false),
    {
        let bbs_len = bbs.len();
        BboxAnnotations { bbs, cat_idxs, selected_bbs: filled(false, bbs_len) }
    }

    /// The boxes and their categories.
    pub fn to_data(self) -> (r: (Vec<BB>, Vec<usize>))
        ensures
            r.0@ == self.spec_bbs(),
            r.1@ == self.spec_cat_idxs(),
    {
        (self.bbs, self.cat_idxs)
    }

    /// Takes the box at `box_idx` out and returns it.
    pub fn remove(&mut self, box_idx: usize) -> (bb: BB)
        requires
            old(self).wf(),
            box_idx < old(self).spec_len(),
        ensures
            final(self).wf(),
            bb == old(self).spec_bbs()[box_idx as int],
            final(self).spec_bbs() == old(self).spec_bbs().remove(box_idx as int),
            final(self).spec_cat_idxs() == old(self).spec_cat_idxs().remove(box_idx as int),
            final(self).spec_selected() == old(self).spec_selected().remove(box_idx as int),
    {
        self.cat_idxs.remove(box_idx);
        self.selected_bbs.remove(box_idx);
        self.bbs.remove(box_idx)
    }

    /// Takes the selected boxes out. The other boxes stay in their order,
    /// each with its category, and none of them is selected.
    pub fn remove_selected(&mut self)
        requires
            old(self).wf(),
        ensures
            final(self).wf(),
            final(self).spec_bbs() == kept(old(self).spec_bbs(), old(self).spec_selected(), 0),
            final(self).spec_cat_idxs() == kept(
                old(self).spec_cat_idxs(),
                old(self).spec_selected(),
                0,
            ),
            final(self).spec_selected() == Seq::new(
                final(self).spec_bbs().len(),
                |i: int| false,
            ),
    {
        proof {
            crate::util::lemma_kept_from(self.bbs@, self.selected_bbs@, 0, self.bbs@.len() as int);
            crate::util::lemma_kept_from(
                self.cat_idxs@,
                self.selected_bbs@,
                0,
                self.cat_idxs@.len() as int,
            );
        }
        remove_selected_items(&mut self.bbs, &self.selected_bbs);
        remove_selected_items(&mut self.cat_idxs, &self.selected_bbs);
        self.selected_bbs = filled(false, self.bbs.len());
    }

    /// Moves the maximal corner of each selected box by
    /// `(x_shift, y_shift)`. A box that is not selected is never changed,
    /// and a selected box only where the result is a positive box inside
    /// the image.
    pub fn resize_bbs(&mut self, x_shift: i32, y_shift: i32, shape_orig: Shape)
        requires
            old(self).wf(),
        ensures
            final(self).wf(),
            final(self).spec_bbs() == spec_resize(
                old(self).spec_bbs(),
                old(self).spec_selected(),
                Edge::Max,
                x_shift as int,
                y_shift as int,
                shape_orig,
            ),
            final(self).spec_cat_idxs() == old(self).spec_cat_idxs(),
            final(self).spec_selected() == old(self).spec_selected(),
            forall|i: int|
                0 <= i < old(self).spec_len() && !old(self).spec_selected()[i] ==> final(self).spec_bbs()[i] == old(self).spec_bbs()[i],
    {
        let mut taken_bbs: Vec<BB> = Vec::new();
        std::mem::swap(&mut taken_bbs, &mut self.bbs);
        self.bbs = resize_bbs(taken_bbs, self.selected_bbs.as_slice(), x_shift, y_shift, shape_orig);
    }

    /// Moves the minimal corner of each selected box as the split mode
    /// says.
    pub fn shift_min_bbs(&mut self, x_shift: i32, y_shift: i32, shape_orig: Shape, split_mode: SplitMode)
        requires
            old(self).wf(),
        ensures
            final(self).wf(),
            final(self).spec_bbs() == split_mode.spec_shift_bbs(
                Edge::Min,
                x_shift as int,
                y_shift as int,
                old(self).spec_selected(),
                old(self).spec_bbs(),
                shape_orig,
            ),
            final(self).spec_cat_idxs() == old(self).spec_cat_idxs(),
            final(self).spec_selected() == old(self).spec_selected(),
    {
        let mut taken_bbs: Vec<BB> = Vec::new();
        std::mem::swap(&mut taken_bbs, &mut self.bbs);
        self.bbs = split_mode.shift_min_bbs(
            x_shift,
            y_shift,
            self.selected_bbs.as_slice(),
            taken_bbs,
            shape_orig,
        );
    }

    /// Moves the maximal corner of each selected box as the split mode
    /// says.
    pub fn shift_max_bbs(&mut self, x_shift: i32, y_shift: i32, shape_orig: Shape, split_mode: SplitMode)
        requires
            old(self).wf(),
        ensures
            final(self).wf(),
            final(self).spec_bbs() == split_mode.spec_shift_bbs(
                Edge::Max,
                x_shift as int,
                y_shift as int,
                old(self).spec_selected(),
                old(self).spec_bbs(),
                shape_orig,
            ),
            final(self).spec_cat_idxs() == old(self).spec_cat_idxs(),
            final(self).spec_selected() == old(self).spec_selected(),
    {
        let mut taken_bbs: Vec<BB> = Vec::new();
        std::mem::swap(&mut taken_bbs, &mut self.bbs);
        self.bbs = split_mode.shift_max_bbs(
            x_shift,
            y_shift,
            self.selected_bbs.as_slice(),
            taken_bbs,
            shape_orig,
        );
    }

    /// Adds a box of the category `cat_idx`, not selected.
    pub fn add_bb(&mut self, bb: BB, cat_idx: usize)
        requires
            old(self).wf(),
        ensures
            final(self).wf(),
            final(self).spec_bbs() == old(self).spec_bbs().push(bb),
            final(self).spec_cat_idxs() == old(self).spec_cat_idxs().push(cat_idx),
            final(self).spec_selected() == old(self).spec_selected().push(false),
    {
        self.cat_idxs.push(cat_idx);
        self.bbs.push(bb);
        self.selected_bbs.push(false);
    }

    pub fn bbs(&self) -> (r: &Vec<BB>)
        ensures
            r@ == self.spec_bbs(),
    {
        &self.bbs
    }

    pub fn cat_idxs(&self) -> (r: &Vec<usize>)
        ensures
            r@ == self.spec_cat_idxs(),
    {
        &self.cat_idxs
    }

    pub fn selected_bbs(&self) -> (r: &Vec<bool>)
        ensures
            r@ == self.spec_selected(),
    {
        &self.selected_bbs
    }

    /// The indices of the selected boxes, in rising order.
    pub fn selected_indices(&self) -> (r: Vec<usize>)
        ensures
            r@ == spec_true_indices(self.spec_selected(), 0),
    {
        true_indices(self.selected_bbs.as_slice())
    }

    pub fn deselect(&mut self, box_idx: usize)
        requires
            old(self).wf(),
            box_idx < old(self).spec_len(),
        ensures
            final(self).wf(),
            final(self).spec_selected() == old(self).spec_selected().update(box_idx as int, false),
            final(self).spec_bbs() == old(self).spec_bbs(),
            final(self).spec_cat_idxs() == old(self).spec_cat_idxs(),
    {
        self.selected_bbs.set(box_idx, false);
    }

    pub fn toggle_selection(&mut self, box_idx: usize)
        requires
            old(self).wf(),
            box_idx < old(self).spec_len(),
        ensures
            final(self).wf(),
            final(self).spec_selected() == old(self).spec_selected().update(
                box_idx as int,
                !old(self).spec_selected()[box_idx as int],
            ),
            final(self).spec_bbs() == old(self).spec_bbs(),
            final(self).spec_cat_idxs() == old(self).spec_cat_idxs(),
    {
        let flipped = !self.selected_bbs[box_idx];
        self.selected_bbs.set(box_idx, flipped);
    }

    pub fn select(&mut self, box_idx: usize)
        requires
            old(self).wf(),
            box_idx < old(self).spec_len(),
        ensures
            final(self).wf(),
            final(self).spec_selected() == old(self).spec_selected().update(box_idx as int, true),
            final(self).spec_bbs() == old(self).spec_bbs(),
            final(self).spec_cat_idxs() == old(self).spec_cat_idxs(),
    {
        self.selected_bbs.set(box_idx, true);
    }

    /// Moves each selected box as far as the mouse went from `mpso` to
    /// `mpo`. A box that would leave the image stays where it is, whatever
    /// the others do.
    pub fn selected_follow_movement(&mut self, mpso: Point, mpo: Point, orig_shape: Shape)
        requires
            old(self).wf(),
        ensures
            final(self).wf(),
            final(self).spec_bbs() == Seq::new(
                old(self).spec_len(),
                |i: int|
                    if old(self).spec_selected()[i] {
                        moved_or_same(
                            old(self).spec_bbs()[i],
                            mpo.0 - mpso.0,
                            mpo.1 - mpso.1,
                            orig_shape,
                        )
                    } else {
                        old(self).spec_bbs()[i]
                    },
            ),
            final(self).spec_cat_idxs() == old(self).spec_cat_idxs(),
            final(self).spec_selected() == old(self).spec_selected(),
    {
        let ghost target = Seq::new(
            old(self).spec_len(),
            |i: int|
                if old(self).spec_selected()[i] {
                    moved_or_same(old(self).spec_bbs()[i], mpo.0 - mpso.0, mpo.1 - mpso.1, orig_shape)
                } else {
                    old(self).spec_bbs()[i]
                },
        );
        let mut i: usize = 0;
        while i < self.bbs.len()
            invariant
                i <= self.bbs.len(),
                self.bbs.len() == old(self).bbs.len(),
                self.cat_idxs == old(self).cat_idxs,
                self.selected_bbs == old(self).selected_bbs,
                old(self).wf(),
                target.len() == self.bbs.len(),
                forall|k: int| 0 <= k < i ==> #[trigger] self.bbs[k] == target[k],
                forall|k: int| i <= k < self.bbs.len() ==> #[trigger] self.bbs[k] == old(self).bbs[k],
                forall|k: int|
                    0 <= k < target.len() ==> #[trigger] target[k] == (if old(self).selected_bbs[k] {
                        moved_or_same(old(self).bbs[k], mpo.0 - mpso.0, mpo.1 - mpso.1, orig_shape)
                    } else {
                        old(self).bbs[k]
                    }),
            decreases self.bbs.len() - i,
        {
            if self.selected_bbs[i] {
                if let Some(bb_moved) = self.bbs[i].follow_movement(mpso, mpo, orig_shape) {
                    self.bbs.set(i, bb_moved);
                }
            }
            i += 1;
        }
        assert(self.bbs@ =~= target);
    }

    /// Gives the box at `idx` the category with the given label. A label
    /// that the table does not have becomes a new category at its end,
    /// with a new color and a new id; the table refuses that only if it has
    /// no id left, and then nothing changes.
    pub fn set_label(&mut self, idx: usize, label: &str, label_info: &mut LabelInfo) -> (r: Result<
        (),
        RvError,
    >)
        requires
            old(self).wf(),
            old(label_info).wf(),
            idx < old(self).spec_len(),
        ensures
            final(self).wf(),
            final(label_info).wf(),
            final(self).spec_bbs() == old(self).spec_bbs(),
            final(self).spec_selected() == old(self).spec_selected(),
            r is Err <==> !old(label_info).spec_labels().contains(label@) && max_id(
                old(label_info).spec_cat_ids(),
            ) == u32::MAX,
            r matches Err(e) ==> e == RvError::CatIdsExhausted && *final(self) == *old(self)
                && *final(label_info) == *old(label_info),
            r is Ok ==> {
                &&& final(label_info).spec_labels().contains(label@)
                &&& final(self).spec_cat_idxs()[idx as int] < final(label_info).spec_len()
                &&& final(label_info).spec_labels()[final(self).spec_cat_idxs()[idx as int] as int]
                    == label@
                &&& final(self).spec_cat_idxs() == old(self).spec_cat_idxs().update(
                    idx as int,
                    final(self).spec_cat_idxs()[idx as int],
                )
            },
            r is Ok && old(label_info).spec_labels().contains(label@) ==> *final(label_info)
                == *old(label_info),
            r is Ok && !old(label_info).spec_labels().contains(label@) ==> {
                &&& final(label_info).spec_labels() == old(label_info).spec_labels().push(label@)
                &&& final(self).spec_cat_idxs()[idx as int] == old(label_info).spec_len()
                &&& final(label_info).spec_colors().drop_last() == old(label_info).spec_colors()
                &&& exists|proposals: Seq<Rgb>|
                    proposals.len() == N_PROPOSALS && #[trigger] is_pick(
                        final(label_info).spec_colors().last(),
                        proposals,
                        old(label_info).spec_colors(),
                    )
                &&& final(label_info).spec_cat_ids() == old(label_info).spec_cat_ids().push(
                    (max_id(old(label_info).spec_cat_ids()) + 1) as u32,
                )
            },
    {
        match label_info.find(label) {
            Some(exist_idx) => {
                assert(label_info.spec_labels()[exist_idx as int] == label@);
                self.cat_idxs.set(idx, exist_idx);
                Ok(())
            },
            None => {
                assert(!label_info.spec_labels().contains(label@));
                let new_idx = label_info.len();
                match label_info.push(label.to_owned(), None, None) {
                    Ok(()) => {
                        self.cat_idxs.set(idx, new_idx);
                        assert(label_info.spec_labels()[new_idx as int] == label@);
                        Ok(())
                    },
                    Err(e) => Err(e),
                }
            },
        }
    }

    /// Lowers the category indices after the category `cat_idx` was taken
    /// out of the label table, as `reduced_cat_idx` says.
    pub fn reduce_cat_idxs(&mut self, cat_idx: usize)
        requires
            old(self).wf(),
        ensures
            final(self).wf(),
            final(self).spec_bbs() == old(self).spec_bbs(),
            final(self).spec_selected() == old(self).spec_selected(),
            final(self).spec_cat_idxs() == Seq::new(
                old(self).spec_len(),
                |i: int| reduced_cat_idx(old(self).spec_cat_idxs()[i], cat_idx),
            ),
    {
        let mut i: usize = 0;
        while i < self.cat_idxs.len()
            invariant
                i <= self.cat_idxs.len(),
                self.cat_idxs.len() == old(self).cat_idxs.len(),
                self.bbs == old(self).bbs,
                self.selected_bbs == old(self).selected_bbs,
                forall|k: int|
                    0 <= k < i ==> #[trigger] self.cat_idxs[k] == reduced_cat_idx(
                        old(self).cat_idxs[k],
                        cat_idx,
                    ),
                forall|k: int|
                    i <= k < self.cat_idxs.len() ==> #[trigger] self.cat_idxs[k] == old(self).cat_idxs[k],
            decreases self.cat_idxs.len() - i,
        {
            let c = self.cat_idxs[i];
            if c >= cat_idx && c > 0 {
                self.cat_idxs.set(i, c - 1);
            }
            i += 1;
        }
        assert(self.cat_idxs@ =~= Seq::new(
            old(self).spec_len(),
            |i: int| reduced_cat_idx(old(self).spec_cat_idxs()[i], cat_idx),
        ));
    }

    /// Takes all boxes out.
    pub fn clear(&mut self)
        ensures
            final(self).wf(),
            final(self).spec_len() == 0,
            final(self).spec_cat_idxs().len() == 0,
            final(self).spec_selected().len() == 0,
    {
        self.bbs.clear();
        self.selected_bbs.clear();
        self.cat_idxs.clear();
    }
}

impl Default for BboxAnnotations {
    /// No boxes.
    fn default() -> (annos: Self)
        ensures
            annos.wf(),
            annos.spec_len() == 0,
    {
        BboxAnnotations { bbs: Vec::new(), cat_idxs: Vec::new(), selected_bbs: Vec::new() }
    }
}

/// After a category was taken out of a table of `n_cats` categories, the
/// reduced index of every box that had a category of the table is an index
/// of the table that is left.
pub proof fn lemma_reduced_cat_idx_in_table(cat_idx: usize, removed: usize, n_cats: int)
    requires
        n_cats >= 2,
        cat_idx < n_cats,
        removed < n_cats,
    ensures
        reduced_cat_idx(cat_idx, removed) < n_cats - 1,
        cat_idx < removed ==> reduced_cat_idx(cat_idx, removed) == cat_idx,
        cat_idx > removed ==> reduced_cat_idx(cat_idx, removed) == cat_idx - 1,
{
}

} // verus!
