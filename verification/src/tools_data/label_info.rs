//! The table of categories that the annotations of a tool refer to.

use super::color::{is_pick, new_color, Rgb, N_PROPOSALS};
use crate::result::RvError;
use vstd::prelude::*;

verus! {

/// What a category is called unless the user names it.
pub const DEFAULT_LABEL: &'static str = "foreground";

/// The labels of a list of strings.
pub open spec fn label_views(labels: Seq<String>) -> Seq<Seq<char>> {
    Seq::new(labels.len(), |i: int| labels[i]@)
}

/// No label occurs twice.
pub open spec fn labels_distinct(labels: Seq<Seq<char>>) -> bool {
    forall|i: int, j: int| 0 <= i < j < labels.len() ==> labels[i] != labels[j]
}

/// No id occurs twice.
pub open spec fn ids_distinct(ids: Seq<u32>) -> bool {
    forall|i: int, j: int| 0 <= i < j < ids.len() ==> ids[i] != ids[j]
}

/// No id is greater than the greatest.
pub proof fn lemma_max_id(ids: Seq<u32>, i: int)
    requires
        0 <= i < ids.len(),
    ensures
        ids[i] <= max_id(ids),
    decreases ids.len(),
{
    if i < ids.len() - 1 {
        lemma_max_id(ids.drop_last(), i);
    }
}

/// The first place of `label` in `labels`, if it has one.
pub open spec fn is_first_place(labels: Seq<Seq<char>>, label: Seq<char>, r: Option<usize>) -> bool {
    match r {
        Some(k) => k < labels.len() && labels[k as int] == label && forall|i: int|
            0 <= i < k ==> labels[i] != label,
        None => forall|i: int| 0 <= i < labels.len() ==> labels[i] != label,
    }
}

/// The greatest of the ids, or 0 without any.
pub open spec fn max_id(ids: Seq<u32>) -> int
    decreases ids.len(),
{
    if ids.len() == 0 {
        0
    } else {
        let rest = max_id(ids.drop_last());
        if ids.last() > rest {
            ids.last() as int
        } else {
            rest
        }
    }
}

/// What `LabelInfo::push` does to a table. The category is refused, and
/// the table left as it is, if the label is in the table; else if a color
/// is given that is in the table; else if an id is given that is in the
/// table, or none is given and no greater id is left. Else the category
/// stands at the end of the table: with the given color, or with one that
/// `new_color` picked against the colors of the table; with the given id,
/// or with the successor of the greatest id of the table.
pub open spec fn pushed(
    before: LabelInfo,
    label: Seq<char>,
    color: Option<Rgb>,
    cat_id: Option<u32>,
    after: LabelInfo,
    r: Result<(), RvError>,
) -> bool {
    let label_there = before.spec_labels().contains(label);
    let color_there = color is Some && before.spec_colors().contains(color.unwrap());
    let id_there = cat_id is Some && before.spec_cat_ids().contains(cat_id.unwrap());
    let ids_exhausted = cat_id is None && max_id(before.spec_cat_ids())
        == u32::MAX;
    &&& r == (if label_there {
        Err::<(), RvError>(RvError::LabelExists)
    } else if color_there {
        Err::<(), RvError>(RvError::ColorExists)
    } else if id_there {
        Err::<(), RvError>(RvError::CatIdExists)
    } else if ids_exhausted {
        Err::<(), RvError>(RvError::CatIdsExhausted)
    } else {
        Ok::<(), RvError>(())
    })
    &&& r is Err ==> after == before
    &&& r is Ok ==> {
        &&& after.spec_labels() == before.spec_labels().push(label)
        &&& after.spec_colors().len() == before.spec_colors().len() + 1
        &&& after.spec_colors().drop_last() == before.spec_colors()
        &&& match color {
            Some(c) => after.spec_colors().last() == c,
            None => exists|proposals: Seq<Rgb>|
                proposals.len() == N_PROPOSALS && #[trigger] is_pick(
                    after.spec_colors().last(),
                    proposals,
                    before.spec_colors(),
                ),
        }
        &&& after.spec_cat_ids() == before.spec_cat_ids().push(
            match cat_id {
                Some(id) => id,
                None => (max_id(before.spec_cat_ids()) + 1) as u32,
            },
        )
    }
}


/// The categories of a tool: three lists of one length that hold, at the
/// index of a category, its label, its color and its id. No two categories
/// have the same label or the same id.
#[derive(Clone, Debug, PartialEq, Eq)]
pub struct LabelInfo {
    labels: Vec<String>,
    colors: Vec<Rgb>,
    cat_ids: Vec<u32>,
}

impl LabelInfo {
    pub closed spec fn spec_labels(&self) -> Seq<Seq<char>> {
        label_views(self.labels@)
    }

    pub closed spec fn spec_colors(&self) -> Seq<Rgb> {
        self.colors@
    }

    pub closed spec fn spec_cat_ids(&self) -> Seq<u32> {
        self.cat_ids@
    }

    /// The number of categories.
    pub open spec fn spec_len(&self) -> nat {
        self.spec_labels().len()
    }

    /// The lists are aligned, the labels distinct and the ids distinct.
    pub open spec fn wf(&self) -> bool {
        &&& self.spec_labels().len() == self.spec_colors().len()
        &&& self.spec_labels().len() == self.spec_cat_ids().len()
        &&& labels_distinct(self.spec_labels())
        &&& ids_distinct(self.spec_cat_ids())
    }

    /// The table without any category.
    pub fn empty() -> (t: Self)
        ensures
            t.wf(),
            t.spec_len() == 0,
            t.spec_colors().len() == 0,
            t.spec_cat_ids().len() == 0,
    {
        LabelInfo { labels: Vec::new(), colors: Vec::new(), cat_ids: Vec::new() }
    }

    /// The table with the default category: white, with the id 1.
    pub fn new() -> (t: Self)
        ensures
            t.wf(),
            t.spec_labels() == seq![DEFAULT_LABEL@],
            t.spec_colors() == seq![[255u8, 255u8, 255u8]],
            t.spec_cat_ids() == seq![1u32],
    {
        let mut labels: Vec<String> = Vec::new();
        labels.push(DEFAULT_LABEL.to_owned());
        let mut colors: Vec<Rgb> = Vec::new();
        colors.push([255, 255, 255]);
        let mut cat_ids: Vec<u32> = Vec::new();
        cat_ids.push(1);
        let t = LabelInfo { labels, colors, cat_ids };
        assert(t.spec_labels() =~= seq![DEFAULT_LABEL@]);
        t
    }

    pub fn len(&self) -> (n: usize)
        ensures
            n == self.spec_colors().len(),
    {
        self.colors.len()
    }

    pub fn is_empty(&self) -> (b: bool)
        ensures
            b == (self.spec_colors().len() == 0),
    {
        self.colors.len() == 0
    }

    pub fn labels(&self) -> (r: &Vec<String>)
        ensures
            label_views(r@) == self.spec_labels(),
    {
        &self.labels
    }

    pub fn colors(&self) -> (r: &Vec<Rgb>)
        ensures
            r@ == self.spec_colors(),
    {
        &self.colors
    }

    pub fn cat_ids(&self) -> (r: &Vec<u32>)
        ensures
            r@ == self.spec_cat_ids(),
    {
        &self.cat_ids
    }

    /// The index of the category with the given label, if there is one.
    pub fn find(&self, label: &str) -> (r: Option<usize>)
        ensures
            is_first_place(self.spec_labels(), label@, r),
    {
        let wanted = label.to_owned();
        let mut i: usize = 0;
        while i < self.labels.len()
            invariant
                i <= self.labels.len(),
                wanted@ == label@,
                forall|k: int| 0 <= k < i ==> self.spec_labels()[k] != label@,
            decreases self.labels.len() - i,
        {
            if self.labels[i] == wanted {
                return Some(i);
            }
            i += 1;
        }
        None
    }

    /// The index of the default category, if the table still has it.
    pub fn find_default(&self) -> (r: Option<usize>)
        ensures
            is_first_place(self.spec_labels(), DEFAULT_LABEL@, r),
    {
        self.find(DEFAULT_LABEL)
    }

    /// Adds a category, unless the table refuses it: see `pushed`.
    pub fn push(&mut self, label: String, color: Option<Rgb>, cat_id: Option<u32>) -> (r: Result<
        (),
        RvError,
    >)
        requires
            old(self).wf(),
        ensures
            final(self).wf(),
            pushed(*old(self), label@, color, cat_id, *final(self), r),
    {
        let found = self.find(label.as_str());
        if found.is_some() {
            assert(self.spec_labels()[found.unwrap() as int] == label@);
            return Err(RvError::LabelExists);
        }
        assert(!self.spec_labels().contains(label@));
        if let Some(clr) = color {
            if contains_color(&self.colors, clr) {
                return Err(RvError::ColorExists);
            }
        }
        let new_id = match cat_id {
            Some(id) => {
                if contains_id(&self.cat_ids, id) {
                    return Err(RvError::CatIdExists);
                }
                id
            },
            None => {
                let max = greatest_id(&self.cat_ids);
                if max == u32::MAX {
                    return Err(RvError::CatIdsExhausted);
                }
                max + 1
            },
        };
        let new_clr = match color {
            Some(clr) => clr,
            None => new_color(self.colors.as_slice()),
        };
        let ghost old_labels = self.spec_labels();
        let ghost old_colors = self.colors@;
        let ghost old_ids = self.cat_ids@;
        self.labels.push(label);
        self.colors.push(new_clr);
        self.cat_ids.push(new_id);
        proof {
            assert(self.colors@.last() == new_clr);
            assert(self.cat_ids@ == old_ids.push(new_id));
            if color is None {
                let proposals = choose|proposals: Seq<Rgb>|
                    proposals.len() == N_PROPOSALS && #[trigger] is_pick(
                        new_clr,
                        proposals,
                        old_colors,
                    );
                assert(is_pick(self.colors@.last(), proposals, old_colors));
            }
            assert(self.spec_labels() =~= old_labels.push(label@));
            assert(self.colors@.drop_last() =~= old_colors);
            assert forall|i: int, j: int| 0 <= i < j < self.spec_labels().len() implies self.spec_labels()[i]
                != self.spec_labels()[j] by {
                if j == old_labels.len() {
                    assert(old_labels[i] != label@);
                } else {
                    assert(old_labels[i] != old_labels[j]);
                }
            }
            assert forall|i: int, j: int| 0 <= i < j < self.cat_ids@.len() implies self.cat_ids@[i]
                != self.cat_ids@[j] by {
                if j == old_ids.len() {
                    if cat_id is None {
                        lemma_max_id(old_ids, i);
                    } else {
                        assert(old_ids[i] != new_id);
                    }
                } else {
                    assert(old_ids[i] != old_ids[j]);
                }
            }
        }
        Ok(())
    }

    /// The three lists of the table.
    pub fn into_parts(self) -> (r: (Vec<String>, Vec<Rgb>, Vec<u32>))
        ensures
            label_views(r.0@) == self.spec_labels(),
            r.1@ == self.spec_colors(),
            r.2@ == self.spec_cat_ids(),
    {
        (self.labels, self.colors, self.cat_ids)
    }

    /// Takes the category at `cat_idx` out of the table, unless it is the
    /// only one: a table that has a category keeps one. Tells whether the
    /// category was taken out.
    pub fn remove(&mut self, cat_idx: usize) -> (removed: bool)
        requires
            old(self).wf(),
            old(self).spec_len() > 1 ==> cat_idx < old(self).spec_len(),
        ensures
            final(self).wf(),
            removed == (old(self).spec_len() > 1),
            removed ==> final(self).spec_labels() == old(self).spec_labels().remove(cat_idx as int)
                && final(self).spec_colors() == old(self).spec_colors().remove(cat_idx as int)
                && final(self).spec_cat_ids() == old(self).spec_cat_ids().remove(cat_idx as int),
            !removed ==> *final(self) == *old(self),
    {
        if self.labels.len() > 1 {
            let ghost old_labels = self.spec_labels();
            let ghost old_ids = self.cat_ids@;
            self.labels.remove(cat_idx);
            self.colors.remove(cat_idx);
            self.cat_ids.remove(cat_idx);
            proof {
                assert(self.spec_labels() =~= old_labels.remove(cat_idx as int));
                assert forall|i: int, j: int| 0 <= i < j < self.cat_ids@.len() implies self.cat_ids@[i]
                    != self.cat_ids@[j] by {
                    let a = if i < cat_idx { i } else { i + 1 };
                    let b = if j < cat_idx { j } else { j + 1 };
                    assert(old_ids[a] != old_ids[b]);
                }
                assert forall|i: int, j: int|
                    0 <= i < j < self.spec_labels().len() implies self.spec_labels()[i]
                    != self.spec_labels()[j] by {
                    let a = if i < cat_idx { i } else { i + 1 };
                    let b = if j < cat_idx { j } else { j + 1 };
                    assert(old_labels[a] != old_labels[b]);
                }
            }
            true
        } else {
            false
        }
    }
}

impl Default for LabelInfo {
    fn default() -> (t: Self)
        ensures
            t.wf(),
            t.spec_labels() == seq![DEFAULT_LABEL@],
    {
        Self::new()
    }
}

fn contains_color(colors: &Vec<Rgb>, clr: Rgb) -> (b: bool)
    ensures
        b == colors@.contains(clr),
{
    let mut i: usize = 0;
    while i < colors.len()
        invariant
            i <= colors.len(),
            forall|k: int| 0 <= k < i ==> colors[k] != clr,
        decreases colors.len() - i,
    {
        let c = colors[i];
        if c[0] == clr[0] && c[1] == clr[1] && c[2] == clr[2] {
            assert(c@ =~= clr@);
            assert(colors[i as int] == clr);
            return true;
        }
        i += 1;
    }
    false
}

fn contains_id(ids: &Vec<u32>, id: u32) -> (b: bool)
    ensures
        b == ids@.contains(id),
{
    let mut i: usize = 0;
    while i < ids.len()
        invariant
            i <= ids.len(),
            forall|k: int| 0 <= k < i ==> ids[k] != id,
        decreases ids.len() - i,
    {
        if ids[i] == id {
            return true;
        }
        i += 1;
    }
    false
}

fn greatest_id(ids: &Vec<u32>) -> (m: u32)
    ensures
        m == max_id(ids@),
{
    let mut m: u32 = 0;
    let mut i: usize = 0;
    while i < ids.len()
        invariant
            i <= ids.len(),
            m == max_id(ids@.subrange(0, i as int)),
        decreases ids.len() - i,
    {
        assert(ids@.subrange(0, i + 1).drop_last() =~= ids@.subrange(0, i as int));
        if ids[i] > m {
            m = ids[i];
        }
        i += 1;
    }
    assert(ids@.subrange(0, i as int) =~= ids@);
    m
}

} // verus!
