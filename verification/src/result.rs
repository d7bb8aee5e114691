//! The errors that the library reports.

use vstd::prelude::*;

verus! {

/// Why an operation of the library was refused.
#[derive(Clone, Copy, Debug, PartialEq, Eq, Structural)]
pub enum RvError {
    /// An enclosing box of no points was asked for.
    NoPoints,
    /// A text is not a bounding box written as `[x, y, w, h]`.
    ParseBb,
    /// The label is already in the label table.
    LabelExists,
    /// The color is already in the label table.
    ColorExists,
    /// The category id is already in the label table.
    CatIdExists,
    /// The label table cannot take another category id.
    CatIdsExhausted,
    /// An annotation refers to a category that the label table does not have.
    CatIdxOutOfBounds { cat_idx: usize, len: usize },
    /// The same file has two annotation stores.
    DuplicateFile,
    /// The parallel lists of an annotation store differ in length.
    LengthMismatch,
    /// An export was asked for and no folder for exports is known.
    NoExportFolder,
    /// An export was asked for and no folder is opened.
    NoFolderOpened,
    /// What was read for an import holds no bounding box data.
    NoBboxData,
}

pub type RvResult<T> = Result<T, RvError>;

} // verus!
