//! The data of the bounding box tool: the label table, the annotations of
//! every file, and what is exported of both.

use super::annotations::{reduced_cat_idx, BboxAnnotations};
use super::color::Rgb;
use super::label_info::{label_views, labels_distinct, pushed, LabelInfo, DEFAULT_LABEL};
use crate::domain::BB;
use crate::result::RvError;
use vstd::prelude::*;

verus! {

/// The formats in which annotations are exported.
#[derive(Clone, Copy, Debug, PartialEq, Eq, Structural)]
pub enum BboxExportFileType {
    Json,
    Pickle,
    Coco,
}

impl Default for BboxExportFileType {
    fn default() -> (t: Self)
        ensures
            t == BboxExportFileType::Json,
    {
        BboxExportFileType::Json
    }
}

/// A request to export the annotations.
#[derive(Clone, Copy, Debug, PartialEq, Eq, Structural)]
pub struct BboxExportTrigger {
    pub file_type: BboxExportFileType,
    pub is_exported_triggered: bool,
}

impl Default for BboxExportTrigger {
    fn default() -> (t: Self)
        ensures
            t == (BboxExportTrigger {
                file_type: BboxExportFileType::Json,
                is_exported_triggered: false,
            }),
    {
        BboxExportTrigger { file_type: BboxExportFileType::Json, is_exported_triggered: false }
    }
}

/// The items from `from` on whose flag in `selected` is set, in their
/// order.
pub open spec fn picked<T>(items: Seq<T>, selected: Seq<bool>, from: int) -> Seq<T>
    decreases items.len() - from,
{
    if from < 0 || from >= items.len() {
        Seq::empty()
    } else if from < selected.len() && selected[from] {
        seq![items[from]] + picked(items, selected, from + 1)
    } else {
        picked(items, selected, from + 1)
    }
}

fn pick_selected<T: Copy>(items: &Vec<T>, selected: &Vec<bool>) -> (r: Vec<T>)
    ensures
        r@ == picked(items@, selected@, 0),
{
    let mut r: Vec<T> = Vec::new();
    let mut i: usize = 0;
    while i < items.len()
        invariant
            i <= items.len(),
            picked(items@, selected@, 0) == r@ + picked(items@, selected@, i as int),
        decreases items.len() - i,
    {
        if i < selected.len() && selected[i] {
            assert(r@.push(items[i as int]) + picked(items@, selected@, i + 1) =~= r@ + picked(
                items@,
                selected@,
                i as int,
            ));
            r.push(items[i]);
        }
        i += 1;
    }
    assert(r@ + picked(items@, selected@, i as int) =~= r@);
    r
}

fn copy_of<T: Copy>(items: &Vec<T>) -> (r: Vec<T>)
    ensures
        r@ == items@,
{
    let mut r: Vec<T> = Vec::new();
    let mut i: usize = 0;
    while i < items.len()
        invariant
            i <= items.len(),
            r@ == items@.subrange(0, i as int),
        decreases items.len() - i,
    {
        r.push(items[i]);
        i += 1;
        assert(r@ =~= items@.subrange(0, i as int));
    }
    assert(items@.subrange(0, i as int) =~= items@);
    r
}

/// The selected boxes of an annotation store, copied to be pasted
/// elsewhere.
#[derive(Clone, Debug, PartialEq, Eq)]
pub struct ClipboardData {
    bbs: Vec<BB>,
    cat_idxs: Vec<usize>,
}

impl ClipboardData {
    pub closed spec fn spec_bbs(&self) -> Seq<BB> {
        self.bbs@
    }

    pub closed spec fn spec_cat_idxs(&self) -> Seq<usize> {
        self.cat_idxs@
    }

    /// The selected boxes of `annos` and their categories, in their order.
    pub fn from_annotations(annos: &BboxAnnotations) -> (c: Self)
        ensures
            c.spec_bbs() == picked(annos.spec_bbs(), annos.spec_selected(), 0),
            c.spec_cat_idxs() == picked(annos.spec_cat_idxs(), annos.spec_selected(), 0),
    {
        let bbs = pick_selected(annos.bbs(), annos.selected_bbs());
        let cat_idxs = pick_selected(annos.cat_idxs(), annos.selected_bbs());
        ClipboardData { bbs, cat_idxs }
    }

    pub fn bbs(&self) -> (r: &Vec<BB>)
        ensures
            r@ == self.spec_bbs(),
    {
        &self.bbs
    }

    pub fn cat_idxs(&self) -> (r: &Vec<usize>)
        ensures
            r@ == self.spec_cat_idxs(),
    {
        &self.cat_idxs
    }
}

/// The annotations of one file as they are exported: the path of the file,
/// its boxes, and the category index of each box.
pub type FileAnnotations = (String, (Vec<BB>, Vec<usize>));

/// What is exported of the bounding box tool: the label table as three
/// lists, and the annotations of each file.
#[derive(Clone, Debug, PartialEq, Eq)]
pub struct BboxExportData {
    pub labels: Vec<String>,
    pub colors: Vec<Rgb>,
    pub cat_ids: Vec<u32>,
    pub annotations: Vec<FileAnnotations>,
}

/// The paths of the exported files.
pub open spec fn exported_files(annotations: Seq<FileAnnotations>) -> Seq<Seq<char>> {
    Seq::new(annotations.len(), |i: int| annotations[i].0@)
}

/// The error of the first of the first `n` categories that a table made of
/// the categories before it refuses: its label, else its color, else its
/// id is one of theirs.
pub open spec fn first_table_conflict(
    labels: Seq<Seq<char>>,
    colors: Seq<Rgb>,
    cat_ids: Seq<u32>,
    n: int,
) -> Option<RvError>
    decreases n,
{
    if n <= 0 {
        None
    } else {
        match first_table_conflict(labels, colors, cat_ids, n - 1) {
            Some(e) => Some(e),
            None => if labels.subrange(0, n - 1).contains(labels[n - 1]) {
                Some(RvError::LabelExists)
            } else if colors.subrange(0, n - 1).contains(colors[n - 1]) {
                Some(RvError::ColorExists)
            } else if cat_ids.subrange(0, n - 1).contains(cat_ids[n - 1]) {
                Some(RvError::CatIdExists)
            } else {
                None
            },
        }
    }
}

/// The first category index at or after `from` that is not below
/// `n_cats`.
pub open spec fn first_cat_idx_out_of_bounds(cat_idxs: Seq<usize>, n_cats: int, from: int) -> Option<
    usize,
>
    decreases cat_idxs.len() - from,
{
    if from < 0 || from >= cat_idxs.len() {
        None
    } else if cat_idxs[from] >= n_cats {
        Some(cat_idxs[from])
    } else {
        first_cat_idx_out_of_bounds(cat_idxs, n_cats, from + 1)
    }
}

/// The error of the first of the first `n` files whose annotations cannot
/// be taken: the file was there before, else its lists differ in length,
/// else one of its boxes has a category that the table does not have.
/// `files` holds the paths, `n_bbs` the number of boxes of each file, and
/// `cat_idxs` the category indices of each file.
pub open spec fn first_file_error(
    files: Seq<Seq<char>>,
    n_bbs: Seq<nat>,
    cat_idxs: Seq<Seq<usize>>,
    n_cats: int,
    n: int,
) -> Option<RvError>
    decreases n,
{
    if n <= 0 {
        None
    } else {
        match first_file_error(files, n_bbs, cat_idxs, n_cats, n - 1) {
            Some(e) => Some(e),
            None => {
                if files.subrange(0, n - 1).contains(files[n - 1]) {
                    Some(RvError::DuplicateFile)
                } else if n_bbs[n - 1] != cat_idxs[n - 1].len() {
                    Some(RvError::LengthMismatch)
                } else {
                    match first_cat_idx_out_of_bounds(cat_idxs[n - 1], n_cats, 0) {
                        Some(cat_idx) => Some(
                            RvError::CatIdxOutOfBounds { cat_idx, len: n_cats as usize },
                        ),
                        None => None,
                    }
                }
            },
        }
    }
}

/// The numbers of boxes of the exported files.
pub open spec fn exported_n_bbs(annotations: Seq<FileAnnotations>) -> Seq<nat> {
    Seq::new(annotations.len(), |i: int| annotations[i].1.0@.len())
}

/// The category indices of the exported files.
pub open spec fn exported_cat_idxs(annotations: Seq<FileAnnotations>) -> Seq<Seq<usize>> {
    Seq::new(annotations.len(), |i: int| annotations[i].1.1@)
}

/// Why exported data cannot be taken in, if it cannot: the lists of the
/// label table differ in length, else a category is refused, else the
/// annotations of a file are.
pub open spec fn import_error(input: BboxExportData) -> Option<RvError> {
    if input.labels.len() != input.colors.len() || input.labels.len() != input.cat_ids.len() {
        Some(RvError::LengthMismatch)
    } else {
        match first_table_conflict(
            label_views(input.labels@),
            input.colors@,
            input.cat_ids@,
            input.labels.len() as int,
        ) {
            Some(e) => Some(e),
            None => first_file_error(
                exported_files(input.annotations@),
                exported_n_bbs(input.annotations@),
                exported_cat_idxs(input.annotations@),
                input.labels.len() as int,
                input.annotations.len() as int,
            ),
        }
    }
}

/// The paths of the files of a list of annotation stores.
pub open spec fn map_files(map: Seq<(String, BboxAnnotations)>) -> Seq<Seq<char>> {
    Seq::new(map.len(), |i: int| map[i].0@)
}

/// The annotation stores of such a list.
pub open spec fn map_annotations(map: Seq<(String, BboxAnnotations)>) -> Seq<BboxAnnotations> {
    Seq::new(map.len(), |i: int| map[i].1)
}

/// The numbers of boxes of a list of annotation stores.
pub open spec fn stored_n_bbs(annotations: Seq<BboxAnnotations>) -> Seq<nat> {
    Seq::new(annotations.len(), |i: int| annotations[i].spec_bbs().len())
}

/// The category indices of a list of annotation stores.
pub open spec fn stored_cat_idxs(annotations: Seq<BboxAnnotations>) -> Seq<Seq<usize>> {
    Seq::new(annotations.len(), |i: int| annotations[i].spec_cat_idxs())
}

/// An error that was found among the first `m` files is the error of any
/// longer list of files.
pub proof fn lemma_first_file_error_stays(
    files: Seq<Seq<char>>,
    n_bbs: Seq<nat>,
    cat_idxs: Seq<Seq<usize>>,
    n_cats: int,
    m: int,
    n: int,
)
    requires
        m <= n,
        first_file_error(files, n_bbs, cat_idxs, n_cats, m) is Some,
    ensures
        first_file_error(files, n_bbs, cat_idxs, n_cats, n) == first_file_error(
            files,
            n_bbs,
            cat_idxs,
            n_cats,
            m,
        ),
    decreases n - m,
{
    if m < n {
        lemma_first_file_error_stays(files, n_bbs, cat_idxs, n_cats, m, n - 1);
    }
}

/// A conflict that was found among the first `m` categories is the
/// conflict of any longer table.
pub proof fn lemma_first_table_conflict_stays(
    labels: Seq<Seq<char>>,
    colors: Seq<Rgb>,
    cat_ids: Seq<u32>,
    m: int,
    n: int,
)
    requires
        m <= n,
        first_table_conflict(labels, colors, cat_ids, m) is Some,
    ensures
        first_table_conflict(labels, colors, cat_ids, n) == first_table_conflict(
            labels,
            colors,
            cat_ids,
            m,
        ),
    decreases n - m,
{
    if m < n {
        lemma_first_table_conflict_stays(labels, colors, cat_ids, m, n - 1);
    }
}

/// A table without a conflict has distinct labels.
pub proof fn lemma_no_conflict_distinct(
    labels: Seq<Seq<char>>,
    colors: Seq<Rgb>,
    cat_ids: Seq<u32>,
    n: int,
)
    requires
        0 <= n <= labels.len(),
        first_table_conflict(labels, colors, cat_ids, n) is None,
    ensures
        labels_distinct(labels.subrange(0, n)),
    decreases n,
{
    if n > 0 {
        lemma_no_conflict_distinct(labels, colors, cat_ids, n - 1);
        let shorter = labels.subrange(0, n - 1);
        let longer = labels.subrange(0, n);
        assert forall|i: int, j: int| 0 <= i < j < longer.len() implies longer[i] != longer[j] by {
            if j == n - 1 {
                assert(shorter[i] == longer[i]);
                assert(!shorter.contains(labels[n - 1]));
            } else {
                assert(shorter[i] == longer[i] && shorter[j] == longer[j]);
            }
        }
    }
}

/// `export` is what `data` exports: the label table, and for each file, in
/// the order of the files, its boxes and their categories.
pub open spec fn exports_as(data: BboxSpecificData, export: BboxExportData) -> bool {
    &&& label_views(export.labels@) == data.spec_label_info().spec_labels()
    &&& export.colors@ == data.spec_label_info().spec_colors()
    &&& export.cat_ids@ == data.spec_label_info().spec_cat_ids()
    &&& exported_files(export.annotations@) == data.spec_files()
    &&& export.annotations.len() == data.spec_annotations().len()
    &&& forall|i: int|
        0 <= i < export.annotations.len() ==> (#[trigger] export.annotations[i]).1.0@
            == data.spec_annotations()[i].spec_bbs() && export.annotations[i].1.1@
            == data.spec_annotations()[i].spec_cat_idxs()
}

/// What `remove_catidx` does to the data of the tool. Where the table has
/// one category at most, nothing. Else the category is gone from the
/// table; the current category and the category of every box is what
/// `reduced_cat_idx` makes of it; and nothing else has changed.
pub open spec fn catidx_removed(
    before: BboxSpecificData,
    cat_idx: usize,
    after: BboxSpecificData,
) -> bool {
    if before.spec_label_info().spec_len() <= 1 {
        after == before
    } else {
        &&& after.spec_label_info().spec_labels() == before.spec_label_info().spec_labels().remove(
            cat_idx as int,
        )
        &&& after.spec_label_info().spec_colors() == before.spec_label_info().spec_colors().remove(
            cat_idx as int,
        )
        &&& after.spec_label_info().spec_cat_ids() == before.spec_label_info().spec_cat_ids().remove(
            cat_idx as int,
        )
        &&& after.spec_cat_idx_current() == reduced_cat_idx(
            before.spec_cat_idx_current(),
            cat_idx,
        )
        &&& after.spec_settings() == before.spec_settings()
        &&& after.spec_files() == before.spec_files()
        &&& after.spec_annotations().len() == before.spec_annotations().len()
        &&& forall|i: int|
            0 <= i < before.spec_annotations().len() ==> {
                &&& (#[trigger] after.spec_annotations()[i]).spec_bbs()
                    == before.spec_annotations()[i].spec_bbs()
                &&& after.spec_annotations()[i].spec_selected()
                    == before.spec_annotations()[i].spec_selected()
                &&& after.spec_annotations()[i].spec_cat_idxs() == Seq::new(
                    before.spec_annotations()[i].spec_len(),
                    |k: int|
                        reduced_cat_idx(before.spec_annotations()[i].spec_cat_idxs()[k], cat_idx),
                )
            }
    }
}

/// No color occurs twice.
pub open spec fn colors_distinct(colors: Seq<Rgb>) -> bool {
    forall|i: int, j: int| 0 <= i < j < colors.len() ==> colors[i] != colors[j]
}

/// A table whose labels, colors and ids are distinct has no conflict.
pub proof fn lemma_distinct_no_conflict(
    labels: Seq<Seq<char>>,
    colors: Seq<Rgb>,
    cat_ids: Seq<u32>,
    n: int,
)
    requires
        0 <= n <= labels.len(),
        labels.len() == colors.len(),
        labels.len() == cat_ids.len(),
        labels_distinct(labels),
        colors_distinct(colors),
        super::label_info::ids_distinct(cat_ids),
    ensures
        first_table_conflict(labels, colors, cat_ids, n) is None,
    decreases n,
{
    if n > 0 {
        lemma_distinct_no_conflict(labels, colors, cat_ids, n - 1);
        let l = labels.subrange(0, n - 1);
        let c = colors.subrange(0, n - 1);
        let i = cat_ids.subrange(0, n - 1);
        if l.contains(labels[n - 1]) {
            let k = choose|k: int| 0 <= k < l.len() && l[k] == labels[n - 1];
            assert(labels[k] != labels[n - 1]);
        }
        if c.contains(colors[n - 1]) {
            let k = choose|k: int| 0 <= k < c.len() && c[k] == colors[n - 1];
            assert(colors[k] != colors[n - 1]);
        }
        if i.contains(cat_ids[n - 1]) {
            let k = choose|k: int| 0 <= k < i.len() && i[k] == cat_ids[n - 1];
            assert(cat_ids[k] != cat_ids[n - 1]);
        }
    }
}

/// Category indices that all lie below `n_cats` hold none that is out of
/// bounds.
pub proof fn lemma_cat_idxs_in_bounds(cat_idxs: Seq<usize>, n_cats: int, from: int)
    requires
        0 <= from,
        forall|i: int| 0 <= i < cat_idxs.len() ==> cat_idxs[i] < n_cats,
    ensures
        first_cat_idx_out_of_bounds(cat_idxs, n_cats, from) is None,
    decreases cat_idxs.len() - from,
{
    if from < cat_idxs.len() {
        lemma_cat_idxs_in_bounds(cat_idxs, n_cats, from + 1);
    }
}

/// What well formed data with distinct colors exports can be imported
/// again: `import_error` finds no fault in it.
pub proof fn lemma_export_is_importable(data: BboxSpecificData, export: BboxExportData)
    requires
        data.wf(),
        data.cats_in_table(),
        colors_distinct(data.spec_label_info().spec_colors()),
        exports_as(data, export),
    ensures
        import_error(export) is None,
{
    let labels = label_views(export.labels@);
    let n_cats = export.labels.len() as int;
    assert(labels.len() == export.labels.len());
    lemma_distinct_no_conflict(labels, export.colors@, export.cat_ids@, n_cats);
    lemma_files_without_error(data, export, export.annotations.len() as int);
}

proof fn lemma_files_without_error(data: BboxSpecificData, export: BboxExportData, n: int)
    requires
        data.wf(),
        data.cats_in_table(),
        exports_as(data, export),
        0 <= n <= export.annotations.len(),
    ensures
        first_file_error(
            exported_files(export.annotations@),
            exported_n_bbs(export.annotations@),
            exported_cat_idxs(export.annotations@),
            export.labels.len() as int,
            n,
        ) is None,
    decreases n,
{
    if n > 0 {
        lemma_files_without_error(data, export, n - 1);
        let files = exported_files(export.annotations@);
        let shorter = files.subrange(0, n - 1);
        let stored = data.spec_annotations()[n - 1];
        let n_cats = export.labels.len() as int;
        assert(label_views(export.labels@).len() == export.labels.len());
        if shorter.contains(files[n - 1]) {
            let k = choose|k: int| 0 <= k < shorter.len() && shorter[k] == files[n - 1];
            assert(files[k] != files[n - 1]);
        }
        assert(stored.wf());
        assert(export.annotations[n - 1].1.0@ == stored.spec_bbs());
        assert(stored.cats_below(n_cats));
        lemma_cat_idxs_in_bounds(stored.spec_cat_idxs(), n_cats, 0);
    }
}

/// Data that export the same have the same label table and the same
/// files, and each file has the same boxes with the same categories.
pub proof fn lemma_exports_as_determines(a: BboxSpecificData, b: BboxSpecificData, export: BboxExportData)
    requires
        exports_as(a, export),
        exports_as(b, export),
    ensures
        a.spec_label_info().spec_labels() == b.spec_label_info().spec_labels(),
        a.spec_label_info().spec_colors() == b.spec_label_info().spec_colors(),
        a.spec_label_info().spec_cat_ids() == b.spec_label_info().spec_cat_ids(),
        a.spec_files() == b.spec_files(),
        a.spec_annotations().len() == b.spec_annotations().len(),
        forall|i: int|
            0 <= i < a.spec_annotations().len() ==> (#[trigger] a.spec_annotations()[i]).spec_bbs()
                == b.spec_annotations()[i].spec_bbs() && a.spec_annotations()[i].spec_cat_idxs()
                == b.spec_annotations()[i].spec_cat_idxs(),
{
    assert forall|i: int| 0 <= i < a.spec_annotations().len() implies (
    #[trigger] a.spec_annotations()[i]).spec_bbs() == b.spec_annotations()[i].spec_bbs()
        && a.spec_annotations()[i].spec_cat_idxs() == b.spec_annotations()[i].spec_cat_idxs() by {
        assert(export.annotations[i].1.0@ == a.spec_annotations()[i].spec_bbs());
        assert(export.annotations[i].1.0@ == b.spec_annotations()[i].spec_bbs());
    }
}

/// The data of the bounding box tool: the label table, which all files
/// share, and for each annotated file its boxes.
#[derive(Clone, Debug, PartialEq, Eq)]
pub struct BboxSpecificData {
    pub new_label: String,
    label_info: LabelInfo,
    pub cat_idx_current: usize,
    files: Vec<String>,
    annotations: Vec<BboxAnnotations>,
    pub export_trigger: BboxExportTrigger,
    pub import_file: Option<String>,
    pub clipboard: Option<ClipboardData>,
}

impl BboxSpecificData {
    pub closed spec fn spec_label_info(&self) -> LabelInfo {
        self.label_info
    }

    /// The index of the category that new boxes get.
    pub closed spec fn spec_cat_idx_current(&self) -> usize {
        self.cat_idx_current
    }

    /// What the tool holds beside its categories and annotations: the
    /// label that the user is about to add, a pending export, the file of
    /// a pending import, and the clipboard.
    pub closed spec fn spec_settings(&self) -> (
        String,
        BboxExportTrigger,
        Option<String>,
        Option<ClipboardData>,
    ) {
        (self.new_label, self.export_trigger, self.import_file, self.clipboard)
    }

    /// The label that the user is about to add to the table.
    pub open spec fn spec_new_label(&self) -> Seq<char> {
        self.spec_settings().0@
    }

    /// The settings of a tool that has not been used: the new label is the
    /// default label, nothing is to be exported or imported, and the
    /// clipboard is empty.
    pub open spec fn has_initial_settings(&self) -> bool {
        &&& self.spec_settings().0@ == DEFAULT_LABEL@
        &&& self.spec_settings().1 == BboxExportTrigger {
            file_type: BboxExportFileType::Json,
            is_exported_triggered: false,
        }
        &&& self.spec_settings().2 is None
        &&& self.spec_settings().3 is None
    }

    /// The paths of the annotated files.
    pub closed spec fn spec_files(&self) -> Seq<Seq<char>> {
        label_views(self.files@)
    }

    /// The annotations, each at the index of its file.
    pub closed spec fn spec_annotations(&self) -> Seq<BboxAnnotations> {
        self.annotations@
    }

    /// The label table is well formed, every file is there once and has
    /// its annotations, and these are well formed.
    pub open spec fn wf(&self) -> bool {
        &&& self.spec_label_info().wf()
        &&& self.spec_files().len() == self.spec_annotations().len()
        &&& labels_distinct(self.spec_files())
        &&& forall|i: int|
            0 <= i < self.spec_annotations().len() ==> (#[trigger] self.spec_annotations()[i]).wf()
    }

    /// Every box of every file has a category of the label table.
    pub open spec fn cats_in_table(&self) -> bool {
        forall|i: int|
            0 <= i < self.spec_annotations().len() ==> (
            #[trigger] self.spec_annotations()[i]).cats_below(
                self.spec_label_info().spec_len() as int,
            )
    }

    /// The index of a file among the annotated files.
    pub open spec fn file_idx(&self, file_path: Seq<char>) -> Option<int> {
        if self.spec_files().contains(file_path) {
            Some(self.spec_files().index_of(file_path))
        } else {
            None
        }
    }

    fn with_table(label_info: LabelInfo) -> (d: Self)
        requires
            label_info.wf(),
        ensures
            d.wf(),
            d.spec_label_info() == label_info,
            d.spec_files().len() == 0,
            d.has_initial_settings(),
            d.spec_cat_idx_current() == 0,
    {
        BboxSpecificData {
            new_label: DEFAULT_LABEL.to_owned(),
            label_info,
            cat_idx_current: 0,
            files: Vec::new(),
            annotations: Vec::new(),
            export_trigger: BboxExportTrigger {
                file_type: BboxExportFileType::Json,
                is_exported_triggered: false,
            },
            import_file: None,
            clipboard: None,
        }
    }

    /// The data of a tool that has annotated nothing yet: the label table
    /// holds the default category, and no file has annotations.
    pub fn new() -> (d: Self)
        ensures
            d.wf(),
            d.cats_in_table(),
            d.spec_label_info().spec_labels() == seq![DEFAULT_LABEL@],
            d.spec_label_info().spec_colors() == seq![[255u8, 255u8, 255u8]],
            d.spec_label_info().spec_cat_ids() == seq![1u32],
            d.spec_files().len() == 0,
            d.has_initial_settings(),
            d.spec_cat_idx_current() == 0,
    {
        Self::with_table(LabelInfo::new())
    }

    /// The label that the user is about to add to the table.
    pub fn new_label(&self) -> (r: &String)
        ensures
            r@ == self.spec_new_label(),
    {
        &self.new_label
    }

    /// The index of the category that new boxes get.
    pub fn cat_idx_current(&self) -> (r: usize)
        ensures
            r == self.spec_cat_idx_current(),
    {
        self.cat_idx_current
    }

    /// Makes the category at `cat_idx` the one that new boxes get.
    pub fn set_cat_idx_current(&mut self, cat_idx: usize)
        ensures
            final(self).spec_cat_idx_current() == cat_idx,
            final(self).spec_label_info() == old(self).spec_label_info(),
            final(self).spec_files() == old(self).spec_files(),
            final(self).spec_annotations() == old(self).spec_annotations(),
            final(self).spec_settings() == old(self).spec_settings(),
    {
        self.cat_idx_current = cat_idx;
    }

    pub fn is_empty(&self) -> (b: bool)
        ensures
            b == (self.spec_label_info().spec_colors().len() == 0),
    {
        self.label_info.is_empty()
    }

    pub fn len(&self) -> (n: usize)
        ensures
            n == self.spec_label_info().spec_colors().len(),
    {
        self.label_info.len()
    }

    pub fn colors(&self) -> (r: &Vec<Rgb>)
        ensures
            r@ == self.spec_label_info().spec_colors(),
    {
        self.label_info.colors()
    }

    pub fn labels(&self) -> (r: &Vec<String>)
        ensures
            label_views(r@) == self.spec_label_info().spec_labels(),
    {
        self.label_info.labels()
    }

    pub fn cat_ids(&self) -> (r: &Vec<u32>)
        ensures
            r@ == self.spec_label_info().spec_cat_ids(),
    {
        self.label_info.cat_ids()
    }

    pub fn label_info(&self) -> (r: &LabelInfo)
        ensures
            *r == self.spec_label_info(),
    {
        &self.label_info
    }

    /// The paths of the annotated files, each at the index of its
    /// annotations.
    pub fn files(&self) -> (r: &Vec<String>)
        ensures
            label_views(r@) == self.spec_files(),
    {
        &self.files
    }

    /// The index of the default category, if the table still has it.
    pub fn find_default(&self) -> (r: Option<usize>)
        ensures
            super::label_info::is_first_place(
                self.spec_label_info().spec_labels(),
                DEFAULT_LABEL@,
                r,
            ),
    {
        self.label_info.find_default()
    }

    /// Adds a category to the label table, as `LabelInfo::push` says.
    /// Nothing else changes.
    pub fn push(&mut self, label: String, color: Option<Rgb>, cat_id: Option<u32>) -> (r: Result<
        (),
        RvError,
    >)
        requires
            old(self).wf(),
        ensures
            final(self).wf(),
            final(self).spec_files() == old(self).spec_files(),
            final(self).spec_annotations() == old(self).spec_annotations(),
            final(self).spec_cat_idx_current() == old(self).spec_cat_idx_current(),
            final(self).spec_settings() == old(self).spec_settings(),
            old(self).cats_in_table() ==> final(self).cats_in_table(),
            pushed(old(self).spec_label_info(), label@, color, cat_id, final(self).spec_label_info(), r),
    {
        let ghost before = self.label_info;
        let r = self.label_info.push(label, color, cat_id);
        proof {
            if r is Ok {
                assert(self.label_info.spec_labels().len() == before.spec_labels().len() + 1);
            }
        }
        r
    }

    /// Takes the category at `cat_idx` out of the label table, unless it
    /// is the only one. The boxes of all files keep their categories: the
    /// index of a box falls by one if its category stood behind the one
    /// taken out. The boxes of the category taken out go over to the
    /// category before it, or to the new first category if there is none
    /// before it. The current category follows in the same way.
    pub fn remove_catidx(&mut self, cat_idx: usize)
        requires
            old(self).wf(),
            old(self).spec_label_info().spec_len() > 1 ==> cat_idx < old(self).spec_label_info().spec_len(),
        ensures
            final(self).wf(),
            catidx_removed(*old(self), cat_idx, *final(self)),
            old(self).cats_in_table() ==> final(self).cats_in_table(),
    {
        if self.label_info.remove(cat_idx) {
            let one: usize = 1;
            let bound = if cat_idx > one {
                cat_idx
            } else {
                one
            };
            if self.cat_idx_current >= bound {
                self.cat_idx_current -= 1;
            }
            let ghost n_cats = old(self).spec_label_info().spec_len() as int;
            let mut i: usize = 0;
            while i < self.annotations.len()
                invariant
                    i <= self.annotations.len(),
                    self.annotations.len() == old(self).annotations.len(),
                    self.files == old(self).files,
                    self.label_info.wf(),
                    n_cats == old(self).spec_label_info().spec_len(),
                    n_cats >= 2,
                    cat_idx < n_cats,
                    self.label_info.spec_len() == n_cats - 1,
                    self.label_info.spec_labels() == old(self).label_info.spec_labels().remove(
                        cat_idx as int,
                    ),
                    self.label_info.spec_colors() == old(self).label_info.spec_colors().remove(
                        cat_idx as int,
                    ),
                    self.label_info.spec_cat_ids() == old(self).label_info.spec_cat_ids().remove(
                        cat_idx as int,
                    ),
                    self.cat_idx_current == reduced_cat_idx(old(self).cat_idx_current, cat_idx),
                    self.spec_settings() == old(self).spec_settings(),
                    old(self).wf(),
                    forall|k: int|
                        i <= k < self.annotations.len() ==> #[trigger] self.annotations[k]
                            == old(self).annotations[k],
                    forall|k: int|
                        0 <= k < i ==> {
                            &&& (#[trigger] self.annotations[k]).wf()
                            &&& self.annotations[k].spec_bbs() == old(self).annotations[k].spec_bbs()
                            &&& self.annotations[k].spec_selected() == old(self).annotations[k].spec_selected()
                            &&& self.annotations[k].spec_cat_idxs() == Seq::new(
                                old(self).annotations[k].spec_len(),
                                |j: int|
                                    reduced_cat_idx(
                                        old(self).annotations[k].spec_cat_idxs()[j],
                                        cat_idx,
                                    ),
                            )
                        },
                decreases self.annotations.len() - i,
            {
                let ghost before = self.annotations@;
                assert(before[i as int].wf()) by {
                    assert(old(self).spec_annotations()[i as int].wf());
                }
                let anno = &mut self.annotations[i];
                anno.reduce_cat_idxs(cat_idx);
                proof {
                    assert forall|k: int| 0 <= k < i implies {
                        &&& (#[trigger] self.annotations[k]).wf()
                        &&& self.annotations[k].spec_bbs() == old(self).annotations[k].spec_bbs()
                    } by {
                        assert(self.annotations[k] == before[k]);
                    }
                }
                i += 1;
            }
            proof {
                if old(self).cats_in_table() {
                    assert forall|a: int| 0 <= a < self.spec_annotations().len() implies (
                    #[trigger] self.spec_annotations()[a]).cats_below(
                        self.spec_label_info().spec_len() as int,
                    ) by {
                        let before = old(self).spec_annotations()[a];
                        let after = self.spec_annotations()[a];
                        assert(before.cats_below(n_cats));
                        assert forall|j: int|
                            0 <= j < after.spec_cat_idxs().len() implies after.spec_cat_idxs()[j]
                            < n_cats - 1 by {
                            assert(before.spec_cat_idxs()[j] < n_cats);
                        }
                    }
                }
            }
        }
    }

    /// The annotations of the file, if it has any.
    pub fn get_annos(&self, file_path: &str) -> (r: Option<&BboxAnnotations>)
        requires
            self.wf(),
        ensures
            match self.file_idx(file_path@) {
                Some(k) => r == Some(&self.spec_annotations()[k]),
                None => r is None,
            },
    {
        match position_of(&self.files, file_path) {
            Some(k) => {
                proof {
                    lemma_index_of_first(self.spec_files(), file_path@, k as int);
                }
                Some(&self.annotations[k])
            },
            None => None,
        }
    }

    /// The annotations of the file, to be changed. A file that has none
    /// gets an empty store first, at the end of the files.
    pub fn get_annos_mut(&mut self, file_path: &str) -> (r: &mut BboxAnnotations)
        requires
            old(self).wf(),
        ensures
            old(self).file_idx(file_path@) matches Some(k) ==> {
                &&& *r == old(self).spec_annotations()[k]
                &&& final(self).spec_files() == old(self).spec_files()
                &&& final(self).spec_annotations() == old(self).spec_annotations().update(
                    k,
                    *final(r),
                )
            },
            old(self).file_idx(file_path@) is None ==> {
                &&& r.wf() && r.spec_len() == 0
                &&& final(self).spec_files() == old(self).spec_files().push(file_path@)
                &&& final(self).spec_annotations().len() == old(self).spec_annotations().len() + 1
                &&& final(self).spec_annotations().drop_last() == old(self).spec_annotations()
                &&& final(self).spec_annotations().last() == *final(r)
            },
            final(self).spec_label_info() == old(self).spec_label_info(),
            final(self).spec_cat_idx_current() == old(self).spec_cat_idx_current(),
            final(self).spec_settings() == old(self).spec_settings(),
            final(r).wf() ==> final(self).wf(),
    {
        let k = match position_of(&self.files, file_path) {
            Some(k) => {
                proof {
                    lemma_index_of_first(self.spec_files(), file_path@, k as int);
                }
                k
            },
            None => {
                let ghost before = self.spec_files();
                self.files.push(file_path.to_owned());
                self.annotations.push(BboxAnnotations::default());
                proof {
                    assert(self.spec_files() =~= before.push(file_path@));
                    assert(self.annotations@.drop_last() =~= old(self).annotations@);
                    assert forall|i: int, j: int|
                        0 <= i < j < self.spec_files().len() implies self.spec_files()[i]
                        != self.spec_files()[j] by {
                        if j < before.len() {
                            assert(before[i] != before[j]);
                        } else {
                            assert(before[i] != file_path@);
                        }
                    }
                }
                self.annotations.len() - 1
            },
        };
        let ghost mid = self.annotations@;
        proof {
            assert forall|i: int| 0 <= i < mid.len() implies (#[trigger] mid[i]).wf() by {
                if i < old(self).annotations@.len() {
                    assert(old(self).spec_annotations()[i].wf());
                }
            }
        }
        &mut self.annotations[k]
    }

    /// Replaces the annotations of all files by the given ones. They are
    /// refused, and nothing changes, if a file occurs twice or a box has a
    /// category that the label table does not have.
    pub fn set_annotations_map(&mut self, map: Vec<(String, BboxAnnotations)>) -> (r: Result<
        (),
        RvError,
    >)
        requires
            old(self).wf(),
            forall|i: int| 0 <= i < map.len() ==> (#[trigger] map[i]).1.wf(),
        ensures
            final(self).wf(),
            final(self).spec_label_info() == old(self).spec_label_info(),
            final(self).spec_settings() == old(self).spec_settings(),
            final(self).spec_cat_idx_current() == old(self).spec_cat_idx_current(),
            match first_file_error(
                map_files(map@),
                stored_n_bbs(map_annotations(map@)),
                stored_cat_idxs(map_annotations(map@)),
                old(self).spec_label_info().spec_len() as int,
                map.len() as int,
            ) {
                Some(e) => r == Err::<(), RvError>(e) && *final(self) == *old(self),
                None => r is Ok && final(self).spec_files() == map_files(map@) && final(self).spec_annotations() == map_annotations(map@) && final(self).cats_in_table(),
            },
    {
        let n_cats = self.label_info.len();
        let ghost files = map_files(map@);
        let ghost annos = map_annotations(map@);
        let ghost n_bbs = stored_n_bbs(annos);
        let ghost cats = stored_cat_idxs(annos);
        let mut i: usize = 0;
        while i < map.len()
            invariant
                i <= map.len(),
                n_cats == self.spec_label_info().spec_len(),
                files == map_files(map@),
                annos == map_annotations(map@),
                n_bbs == stored_n_bbs(annos),
                cats == stored_cat_idxs(annos),
                *self == *old(self),
                self.wf(),
                forall|k: int| 0 <= k < map.len() ==> (#[trigger] map[k]).1.wf(),
                first_file_error(files, n_bbs, cats, n_cats as int, i as int) is None,
                labels_distinct(files.subrange(0, i as int)),
                forall|k: int| 0 <= k < i ==> (#[trigger] annos[k]).cats_below(n_cats as int),
            decreases map.len() - i,
        {
            let ghost shorter = files.subrange(0, i as int);
            let ghost longer = files.subrange(0, i + 1);
            let mut dup = false;
            let mut j: usize = 0;
            while j < i
                invariant
                    j <= i < map.len(),
                    files == map_files(map@),
                    dup == exists|k: int| 0 <= k < j && #[trigger] files[k] == files[i as int],
                decreases i - j,
            {
                if map[j].0 == map[i].0 {
                    dup = true;
                    assert(files[j as int] == files[i as int]);
                }
                j += 1;
            }
            proof {
                if dup {
                    let k = choose|k: int| 0 <= k < i && #[trigger] files[k] == files[i as int];
                    assert(shorter[k] == files[i as int]);
                } else if shorter.contains(files[i as int]) {
                    let k = choose|k: int| 0 <= k < shorter.len() && shorter[k] == files[i as int];
                    assert(files[k] == files[i as int]);
                }
                assert(dup == shorter.contains(files[i as int]));
                assert(map[i as int].1.wf());
                assert(n_bbs[i as int] == cats[i as int].len());
            }
            if dup {
                proof {
                    assert(first_file_error(files, n_bbs, cats, n_cats as int, i + 1) == Some(
                        RvError::DuplicateFile,
                    ));
                    lemma_first_file_error_stays(
                        files,
                        n_bbs,
                        cats,
                        n_cats as int,
                        i + 1,
                        map.len() as int,
                    );
                }
                return Err(RvError::DuplicateFile);
            }
            assert(cats[i as int] == map[i as int].1.spec_cat_idxs());
            if let Some(cat_idx) = find_cat_idx_out_of_bounds(map[i].1.cat_idxs(), n_cats) {
                proof {
                    assert(first_file_error(files, n_bbs, cats, n_cats as int, i + 1) == Some(
                        RvError::CatIdxOutOfBounds { cat_idx, len: n_cats },
                    ));
                    lemma_first_file_error_stays(
                        files,
                        n_bbs,
                        cats,
                        n_cats as int,
                        i + 1,
                        map.len() as int,
                    );
                }
                return Err(RvError::CatIdxOutOfBounds { cat_idx, len: n_cats });
            }
            proof {
                assert forall|a: int, b: int| 0 <= a < b < longer.len() implies longer[a]
                    != longer[b] by {
                    if b == i {
                        assert(shorter[a] == longer[a]);
                    } else {
                        assert(shorter[a] == longer[a] && shorter[b] == longer[b]);
                    }
                }
            }
            i += 1;
        }
        let (files_new, annos_new) = unzip_map(map);
        proof {
            assert(files.subrange(0, i as int) =~= files);
            assert(label_views(files_new@) =~= files);
            assert(annos_new@ =~= annos);
        }
        self.files = files_new;
        self.annotations = annos_new;
        Ok(())
    }

    /// Takes exported data in. The data is refused as `import_error` says;
    /// else the result holds the exported label table and, for each file,
    /// its boxes with their categories, none of them selected.
    pub fn from_bbox_export_data(input_data: BboxExportData) -> (r: Result<Self, RvError>)
        ensures
            match import_error(input_data) {
                Some(e) => r == Err::<Self, RvError>(e),
                None => r matches Ok(d) && d.wf() && d.cats_in_table() && exports_as(d, input_data)
                    && d.spec_cat_idx_current() == 0 && d.has_initial_settings()
                    && forall|i: int|
                    0 <= i < d.spec_annotations().len() ==> (
                    #[trigger] d.spec_annotations()[i]).spec_selected() == Seq::new(
                        d.spec_annotations()[i].spec_len(),
                        |k: int| false,
                    ),
            },
    {
        let labels = &input_data.labels;
        let colors = &input_data.colors;
        let cat_ids = &input_data.cat_ids;
        let annotations = &input_data.annotations;
        if labels.len() != colors.len() || labels.len() != cat_ids.len() {
            return Err(RvError::LengthMismatch);
        }
        let ghost label_seq = label_views(labels@);
        let mut table = LabelInfo::empty();
        let mut i: usize = 0;
        while i < labels.len()
            invariant
                i <= labels.len(),
                labels == &input_data.labels,
                colors == &input_data.colors,
                cat_ids == &input_data.cat_ids,
                labels.len() == colors.len(),
                labels.len() == cat_ids.len(),
                label_seq == label_views(labels@),
                table.wf(),
                table.spec_labels() == label_seq.subrange(0, i as int),
                table.spec_colors() == colors@.subrange(0, i as int),
                table.spec_cat_ids() == cat_ids@.subrange(0, i as int),
                first_table_conflict(label_seq, colors@, cat_ids@, i as int) is None,
            decreases labels.len() - i,
        {
            let ghost before = table;
            match table.push(labels[i].clone(), Some(colors[i]), Some(cat_ids[i])) {
                Ok(()) => {
                    proof {
                        assert(table.spec_labels() =~= label_seq.subrange(0, i + 1));
                        assert(table.spec_colors() =~= colors@.subrange(0, i + 1)) by {
                            assert(table.spec_colors().drop_last() == before.spec_colors());
                            assert(table.spec_colors().last() == colors[i as int]);
                        }
                        assert(table.spec_cat_ids() =~= cat_ids@.subrange(0, i + 1));
                    }
                },
                Err(e) => {
                    proof {
                        assert(label_seq[i as int] == labels[i as int]@);
                        assert(first_table_conflict(label_seq, colors@, cat_ids@, i + 1) == Some(
                            e,
                        ));
                        lemma_first_table_conflict_stays(
                            label_seq,
                            colors@,
                            cat_ids@,
                            i + 1,
                            labels.len() as int,
                        );
                    }
                    return Err(e);
                },
            }
            i += 1;
        }
        proof {
            assert(label_seq.subrange(0, i as int) =~= label_seq);
            assert(colors@.subrange(0, i as int) =~= colors@);
            assert(cat_ids@.subrange(0, i as int) =~= cat_ids@);
        }
        let n_cats = labels.len();
        let ghost files = exported_files(annotations@);
        let ghost n_bbs = exported_n_bbs(annotations@);
        let ghost cats = exported_cat_idxs(annotations@);
        let mut map: Vec<(String, BboxAnnotations)> = Vec::new();
        let mut k: usize = 0;
        while k < annotations.len()
            invariant
                k <= annotations.len(),
                labels == &input_data.labels,
                colors == &input_data.colors,
                cat_ids == &input_data.cat_ids,
                annotations == &input_data.annotations,
                n_cats == labels.len(),
                labels.len() == colors.len(),
                labels.len() == cat_ids.len(),
                first_table_conflict(
                    label_views(labels@),
                    colors@,
                    cat_ids@,
                    labels.len() as int,
                ) is None,
                files == exported_files(annotations@),
                n_bbs == exported_n_bbs(annotations@),
                cats == exported_cat_idxs(annotations@),
                map.len() == k,
                first_file_error(files, n_bbs, cats, n_cats as int, k as int) is None,
                forall|a: int|
                    0 <= a < k ==> {
                        &&& (#[trigger] map[a]).0@ == files[a]
                        &&& map[a].1.wf()
                        &&& map[a].1.spec_bbs() == annotations[a].1.0@
                        &&& map[a].1.spec_cat_idxs() == annotations[a].1.1@
                        &&& map[a].1.spec_selected() == Seq::new(
                            map[a].1.spec_len(),
                            |b: int| false,
                        )
                    },
            decreases annotations.len() - k,
        {
            let file = &annotations[k];
            proof {
                assert(files[k as int] == file.0@);
                assert(n_bbs[k as int] == file.1.0@.len());
                assert(cats[k as int] == file.1.1@);
            }
            let failure = if is_duplicate_file(annotations, k) {
                Some(RvError::DuplicateFile)
            } else if file.1.0.len() != file.1.1.len() {
                Some(RvError::LengthMismatch)
            } else {
                match find_cat_idx_out_of_bounds(&file.1.1, n_cats) {
                    Some(cat_idx) => Some(RvError::CatIdxOutOfBounds { cat_idx, len: n_cats }),
                    None => None,
                }
            };
            if let Some(e) = failure {
                proof {
                    assert(first_file_error(files, n_bbs, cats, n_cats as int, k + 1) == Some(e));
                    lemma_first_file_error_stays(
                        files,
                        n_bbs,
                        cats,
                        n_cats as int,
                        k + 1,
                        annotations.len() as int,
                    );
                }
                return Err(e);
            }
            let annos = BboxAnnotations::from_bbs_cats(copy_of(&file.1.0), copy_of(&file.1.1));
            map.push((file.0.clone(), annos));
            k += 1;
        }
        let mut out_data = Self::with_table(table);
        let ghost map_seq = map@;
        proof {
            assert(map_files(map_seq) =~= files);
            assert(stored_n_bbs(map_annotations(map_seq)) =~= n_bbs);
            assert(stored_cat_idxs(map_annotations(map_seq)) =~= cats);
            assert(out_data.spec_label_info().spec_len() == n_cats);
            assert(import_error(input_data) is None);
        }
        match out_data.set_annotations_map(map) {
            Ok(()) => {
                proof {
                    assert(out_data.spec_annotations() == map_annotations(map_seq));
                    assert forall|i: int| 0 <= i < input_data.annotations.len() implies (
                    #[trigger] input_data.annotations[i]).1.0@
                        == out_data.spec_annotations()[i].spec_bbs()
                        && input_data.annotations[i].1.1@
                        == out_data.spec_annotations()[i].spec_cat_idxs() by {
                        assert(map_seq[i].1.wf());
                    }
                    assert forall|i: int| 0 <= i < out_data.spec_annotations().len() implies (
                    #[trigger] out_data.spec_annotations()[i]).spec_selected() == Seq::new(
                        out_data.spec_annotations()[i].spec_len(),
                        |k: int| false,
                    ) by {
                        assert(map_seq[i].1.wf());
                    }
                    assert(exports_as(out_data, input_data));
                }
                Ok(out_data)
            },
            Err(e) => Err(e),
        }
    }
}

impl BboxExportData {
    /// What `bbox_specifics` exports: its label table and, for each file,
    /// its boxes and their categories.
    pub fn from_bbox_data(bbox_specifics: BboxSpecificData) -> (out: Self)
        requires
            bbox_specifics.wf(),
        ensures
            exports_as(bbox_specifics, out),
    {
        let BboxSpecificData { label_info, files, annotations, .. } = bbox_specifics;
        let (labels, colors, cat_ids) = label_info.into_parts();
        let mut out: Vec<FileAnnotations> = Vec::new();
        let mut i: usize = 0;
        while i < files.len()
            invariant
                i <= files.len(),
                files.len() == annotations.len(),
                out.len() == i,
                forall|k: int|
                    0 <= k < i ==> (#[trigger] out[k]).0@ == files[k]@ && out[k].1.0@
                        == annotations[k].spec_bbs() && out[k].1.1@
                        == annotations[k].spec_cat_idxs(),
            decreases files.len() - i,
        {
            let annos = &annotations[i];
            out.push((files[i].clone(), (copy_of(annos.bbs()), copy_of(annos.cat_idxs()))));
            i += 1;
        }
        let export = BboxExportData { labels, colors, cat_ids, annotations: out };
        assert(exported_files(export.annotations@) =~= bbox_specifics.spec_files());
        export
    }
}

impl Default for BboxSpecificData {
    fn default() -> (d: Self)
        ensures
            d.wf(),
            d.cats_in_table(),
            d.spec_files().len() == 0,
    {
        Self::new()
    }
}

fn position_of(haystack: &Vec<String>, needle: &str) -> (r: Option<usize>)
    ensures
        super::label_info::is_first_place(label_views(haystack@), needle@, r),
{
    let wanted = needle.to_owned();
    let mut i: usize = 0;
    while i < haystack.len()
        invariant
            i <= haystack.len(),
            wanted@ == needle@,
            forall|k: int| 0 <= k < i ==> label_views(haystack@)[k] != needle@,
        decreases haystack.len() - i,
    {
        if haystack[i] == wanted {
            return Some(i);
        }
        i += 1;
    }
    None
}

proof fn lemma_index_of_first(s: Seq<Seq<char>>, needle: Seq<char>, k: int)
    requires
        labels_distinct(s),
        0 <= k < s.len(),
        s[k] == needle,
    ensures
        s.contains(needle),
        s.index_of(needle) == k,
{
    let j = s.index_of(needle);
    assert(0 <= j < s.len() && s[j] == needle);
    if j < k {
        assert(s[j] != s[k]);
    } else if k < j {
        assert(s[k] != s[j]);
    }
}

fn is_duplicate_file(annotations: &Vec<FileAnnotations>, i: usize) -> (dup: bool)
    requires
        i < annotations.len(),
    ensures
        dup == exported_files(annotations@).subrange(0, i as int).contains(
            exported_files(annotations@)[i as int],
        ),
{
    let ghost files = exported_files(annotations@);
    let ghost shorter = files.subrange(0, i as int);
    let mut j: usize = 0;
    while j < i
        invariant
            j <= i < annotations.len(),
            files == exported_files(annotations@),
            shorter == files.subrange(0, i as int),
            forall|k: int| 0 <= k < j ==> shorter[k] != files[i as int],
        decreases i - j,
    {
        if annotations[j].0 == annotations[i].0 {
            assert(shorter[j as int] == files[i as int]);
            return true;
        }
        j += 1;
    }
    false
}

fn find_cat_idx_out_of_bounds(cat_idxs: &Vec<usize>, n_cats: usize) -> (r: Option<usize>)
    ensures
        r == first_cat_idx_out_of_bounds(cat_idxs@, n_cats as int, 0),
        r is None ==> forall|i: int| 0 <= i < cat_idxs.len() ==> cat_idxs[i] < n_cats,
{
    let mut i: usize = cat_idxs.len();
    let mut found: Option<usize> = None;
    while i > 0
        invariant
            i <= cat_idxs.len(),
            found == first_cat_idx_out_of_bounds(cat_idxs@, n_cats as int, i as int),
            found is None ==> forall|k: int| i <= k < cat_idxs.len() ==> cat_idxs[k] < n_cats,
        decreases i,
    {
        i -= 1;
        if cat_idxs[i] >= n_cats {
            found = Some(cat_idxs[i]);
        }
    }
    found
}

fn unzip_map(mut map: Vec<(String, BboxAnnotations)>) -> (r: (Vec<String>, Vec<BboxAnnotations>))
    ensures
        label_views(r.0@) == map_files(map@),
        r.1@ == map_annotations(map@),
{
    let ghost orig = map@;
    let mut files: Vec<String> = Vec::new();
    let mut annos: Vec<BboxAnnotations> = Vec::new();
    while map.len() > 0
        invariant
            map.len() <= orig.len(),
            map@ == orig.subrange(0, map.len() as int),
            files.len() == orig.len() - map.len(),
            annos.len() == files.len(),
            forall|k: int|
                0 <= k < files.len() ==> (#[trigger] files[k])@ == orig[orig.len() - 1 - k].0@,
            forall|k: int| 0 <= k < annos.len() ==> #[trigger] annos[k] == orig[orig.len() - 1 - k].1,
        decreases map.len(),
    {
        let (file, anno) = map.pop().unwrap();
        assert(map@ =~= orig.subrange(0, map.len() as int));
        files.push(file);
        annos.push(anno);
    }
    let ghost files_back = files@;
    let ghost annos_back = annos@;
    let files = reversed(files);
    let annos = reversed(annos);
    proof {
        let n = orig.len() as int;
        assert forall|k: int| 0 <= k < n implies label_views(files@)[k] == map_files(orig)[k] by {
            assert(files[k] == files_back[n - 1 - k]);
            assert(files_back[n - 1 - k]@ == orig[n - 1 - (n - 1 - k)].0@);
        }
        assert forall|k: int| 0 <= k < n implies annos@[k] == map_annotations(orig)[k] by {
            assert(annos[k] == annos_back[n - 1 - k]);
            assert(annos_back[n - 1 - k] == orig[n - 1 - (n - 1 - k)].1);
        }
        assert(label_views(files@) =~= map_files(orig));
        assert(annos@ =~= map_annotations(orig));
    }
    (files, annos)
}

fn reversed<T>(mut items: Vec<T>) -> (r: Vec<T>)
    ensures
        r.len() == items.len(),
        forall|k: int| 0 <= k < r.len() ==> #[trigger] r[k] == items[items.len() - 1 - k],
{
    let ghost orig = items@;
    let mut r: Vec<T> = Vec::new();
    while items.len() > 0
        invariant
            items.len() <= orig.len(),
            items@ == orig.subrange(0, items.len() as int),
            r.len() == orig.len() - items.len(),
            forall|k: int| 0 <= k < r.len() ==> #[trigger] r[k] == orig[orig.len() - 1 - k],
        decreases items.len(),
    {
        let item = items.pop().unwrap();
        assert(items@ =~= orig.subrange(0, items.len() as int));
        r.push(item);
    }
    r
}

} // verus!
