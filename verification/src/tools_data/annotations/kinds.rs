//! The annotations of either tool, as one type.

use super::bbox_annotations::BboxAnnotations;
use super::brush_annotations::BrushAnnotations;
use vstd::prelude::*;

verus! {

/// The annotations of one image, made by one of the tools.
#[derive(Clone, Debug, PartialEq, Eq)]
pub enum Annotations {
    Bbox(BboxAnnotations),
    Brush(BrushAnnotations),
}

impl Annotations {
    /// The parallel lists of the annotations have one length.
    pub open spec fn wf(&self) -> bool {
        match self {
            Annotations::Bbox(x) => x.wf(),
            Annotations::Brush(x) => x.wf(),
        }
    }

    /// The number of boxes or strokes.
    pub fn len(&self) -> (n: usize)
        ensures
            n == match self {
                Annotations::Bbox(x) => x.spec_len(),
                Annotations::Brush(x) => x.spec_len(),
            },
    {
        match self {
            Annotations::Bbox(x) => x.bbs().len(),
            Annotations::Brush(x) => x.points().len(),
        }
    }

    /// The bounding boxes, which these annotations have to be.
    pub fn bbox(&self) -> (r: &BboxAnnotations)
        requires
            self is Bbox,
        ensures
            *self == Annotations::Bbox(*r),
    {
        match self {
            Annotations::Bbox(x) => x,
            Annotations::Brush(_) => vstd::pervasive::unreached(),
        }
    }

    /// The bounding boxes, which these annotations have to be, to be
    /// changed.
    pub fn bbox_mut(&mut self) -> (r: &mut BboxAnnotations)
        requires
            *old(self) is Bbox,
        ensures
            *old(self) == Annotations::Bbox(*r),
            *final(self) == Annotations::Bbox(*final(r)),
    {
        match self {
            Annotations::Bbox(x) => x,
            Annotations::Brush(_) => vstd::pervasive::unreached(),
        }
    }

    /// The brush strokes, which these annotations have to be.
    pub fn brush(&self) -> (r: &BrushAnnotations)
        requires
            self is Brush,
        ensures
            *self == Annotations::Brush(*r),
    {
        match self {
            Annotations::Brush(x) => x,
            Annotations::Bbox(_) => vstd::pervasive::unreached(),
        }
    }

    /// The brush strokes, which these annotations have to be, to be
    /// changed.
    pub fn brush_mut(&mut self) -> (r: &mut BrushAnnotations)
        requires
            *old(self) is Brush,
        ensures
            *old(self) == Annotations::Brush(*r),
            *final(self) == Annotations::Brush(*final(r)),
    {
        match self {
            Annotations::Brush(x) => x,
            Annotations::Bbox(_) => vstd::pervasive::unreached(),
        }
    }
}

} // verus!
