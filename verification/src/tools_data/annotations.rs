//! Functionality to create and modify annotations.

mod bbox_annotations;
mod bbox_splitmode;
mod brush_annotations;
mod kinds;
mod resize;

pub use self::bbox_annotations::{
    lemma_reduced_cat_idx_in_table, reduced_cat_idx, BboxAnnotations,
};
pub use self::bbox_splitmode::{
    lemma_shared_edge_stays_shared, lemma_shift_leaves_others, lemma_shift_resizes_selected,
    opposite, SplitMode,
};
pub use self::brush_annotations::BrushAnnotations;
pub use self::kinds::Annotations;
pub use self::resize::{
    moved_or_same, resize_bbs, resize_flagged, shifted_or_same, spec_resize, Edge,
};
