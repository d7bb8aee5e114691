//! The world: the image that is edited, as far as its shape goes, what is
//! annotated on it, and the part of it that the view shows.

use crate::domain::{
    mouse_pos_to_orig_pos, shape_scaled, shape_unscaled, spec_mouse_pos_to_orig_pos,
    spec_view_shape, transform_defined, Point, Shape, BB,
};
use crate::file_util::MetaData;
use crate::tools_data::annotations::BrushAnnotations;
use crate::tools_data::bbox_data::BboxSpecificData;
use vstd::prelude::*;

verus! {

/// The edited data: the shape of the image, what is known of its file, and
/// the annotations of the tools.
#[derive(Clone, Debug, PartialEq, Eq)]
pub struct DataRaw {
    shape: Shape,
    meta_data: MetaData,
    bbox_data: BboxSpecificData,
    brush_annos: BrushAnnotations,
}

impl DataRaw {
    pub closed spec fn spec_shape(&self) -> Shape {
        self.shape
    }

    pub closed spec fn spec_bbox_data(&self) -> BboxSpecificData {
        self.bbox_data
    }

    pub closed spec fn spec_brush_annos(&self) -> BrushAnnotations {
        self.brush_annos
    }

    pub closed spec fn spec_meta_data(&self) -> MetaData {
        self.meta_data
    }

    /// The annotations of both tools are well formed.
    pub open spec fn wf(&self) -> bool {
        self.spec_bbox_data().wf() && self.spec_brush_annos().wf()
    }

    pub fn new(
        shape: Shape,
        meta_data: MetaData,
        bbox_data: BboxSpecificData,
        brush_annos: BrushAnnotations,
    ) -> (d: Self)
        ensures
            d.spec_shape() == shape,
            d.spec_meta_data() == meta_data,
            d.spec_bbox_data() == bbox_data,
            d.spec_brush_annos() == brush_annos,
    {
        DataRaw { shape, meta_data, bbox_data, brush_annos }
    }

    pub fn current_file_path(&self) -> (r: &Option<String>)
        ensures
            *r == self.spec_meta_data().file_path,
    {
        &self.meta_data.file_path
    }

    pub fn shape(&self) -> (s: Shape)
        ensures
            s == self.spec_shape(),
    {
        self.shape
    }

    pub fn meta_data(&self) -> (r: &MetaData)
        ensures
            *r == self.spec_meta_data(),
    {
        &self.meta_data
    }

    pub fn meta_data_mut(&mut self) -> (r: &mut MetaData)
        ensures
            *r == old(self).spec_meta_data(),
            final(self).spec_meta_data() == *final(r),
            final(self).spec_shape() == old(self).spec_shape(),
            final(self).spec_bbox_data() == old(self).spec_bbox_data(),
            final(self).spec_brush_annos() == old(self).spec_brush_annos(),
    {
        &mut self.meta_data
    }

    pub fn bbox_data(&self) -> (r: &BboxSpecificData)
        ensures
            *r == self.spec_bbox_data(),
    {
        &self.bbox_data
    }

    pub fn bbox_data_mut(&mut self) -> (r: &mut BboxSpecificData)
        ensures
            *r == old(self).spec_bbox_data(),
            final(self).spec_bbox_data() == *final(r),
            final(self).spec_shape() == old(self).spec_shape(),
            final(self).spec_meta_data() == old(self).spec_meta_data(),
            final(self).spec_brush_annos() == old(self).spec_brush_annos(),
    {
        &mut self.bbox_data
    }

    pub fn brush_annos(&self) -> (r: &BrushAnnotations)
        ensures
            *r == self.spec_brush_annos(),
    {
        &self.brush_annos
    }

    pub fn brush_annos_mut(&mut self) -> (r: &mut BrushAnnotations)
        ensures
            *r == old(self).spec_brush_annos(),
            final(self).spec_brush_annos() == *final(r),
            final(self).spec_shape() == old(self).spec_shape(),
            final(self).spec_meta_data() == old(self).spec_meta_data(),
            final(self).spec_bbox_data() == old(self).spec_bbox_data(),
    {
        &mut self.brush_annos
    }
}

/// Everything that is needed to show and to edit an image.
#[derive(Clone, Debug, PartialEq, Eq)]
pub struct World {
    data: DataRaw,
    zoom_box: Option<BB>,
}

impl World {
    pub closed spec fn spec_data(&self) -> DataRaw {
        self.data
    }

    pub closed spec fn spec_zoom_box(&self) -> Option<BB> {
        self.zoom_box
    }

    /// A zoom box that `set_zoom_box` takes: more than one pixel wide and
    /// high.
    pub open spec fn is_zoomable(zoom_box: BB) -> bool {
        zoom_box.h > 1 && zoom_box.w > 1
    }

    pub fn new(data: DataRaw, zoom_box: Option<BB>) -> (w: Self)
        ensures
            w.spec_data() == data,
            w.spec_zoom_box() == zoom_box,
    {
        Self { data, zoom_box }
    }

    /// The world of an image that was just loaded: nothing is zoomed, and
    /// of its file the path is known.
    pub fn from_real_im(
        shape: Shape,
        bbox_data: BboxSpecificData,
        brush_annos: BrushAnnotations,
        file_path: String,
    ) -> (w: Self)
        ensures
            w.spec_zoom_box() is None,
            w.spec_data().spec_shape() == shape,
            w.spec_data().spec_bbox_data() == bbox_data,
            w.spec_data().spec_brush_annos() == brush_annos,
            w.spec_data().spec_meta_data().file_path == Some(file_path),
    {
        let meta_data = MetaData::from_filepath(file_path);
        Self::new(DataRaw::new(shape, meta_data, bbox_data, brush_annos), None)
    }

    pub fn data(&self) -> (r: &DataRaw)
        ensures
            *r == self.spec_data(),
    {
        &self.data
    }

    pub fn data_mut(&mut self) -> (r: &mut DataRaw)
        ensures
            *r == old(self).spec_data(),
            final(self).spec_data() == *final(r),
            final(self).spec_zoom_box() == old(self).spec_zoom_box(),
    {
        &mut self.data
    }

    pub fn shape_orig(&self) -> (s: Shape)
        ensures
            s == self.spec_data().spec_shape(),
    {
        self.data.shape()
    }

    /// Zooms to the given box, or to the whole image if there is none. A
    /// box that is not more than one pixel wide and high is not taken, and
    /// the zoom stays as it is.
    pub fn set_zoom_box(&mut self, zoom_box: Option<BB>)
        ensures
            final(self).spec_data() == old(self).spec_data(),
            final(self).spec_zoom_box() == match zoom_box {
                Some(zb) => if Self::is_zoomable(zb) {
                    zoom_box
                } else {
                    old(self).spec_zoom_box()
                },
                None => zoom_box,
            },
    {
        if let Some(zb) = zoom_box {
            if zb.h > 1 && zb.w > 1 {
                self.zoom_box = zoom_box;
            }
        } else {
            self.zoom_box = zoom_box;
        }
    }

    pub fn zoom_box(&self) -> (r: &Option<BB>)
        ensures
            *r == self.spec_zoom_box(),
    {
        &self.zoom_box
    }

    /// What the transforms between view and image ask of the world and the
    /// window: see `transform_defined`.
    pub open spec fn is_viewable(&self, shape_win: Shape) -> bool {
        transform_defined(self.spec_data().spec_shape(), shape_win, self.spec_zoom_box())
    }

    /// The shape of the view in a window of the given shape.
    pub fn view_shape(&self, shape_win: Shape) -> (s: Shape)
        requires
            self.is_viewable(shape_win),
        ensures
            s == spec_view_shape(self.spec_data().spec_shape(), shape_win, self.spec_zoom_box()),
            s.w <= shape_win.w,
            s.h <= shape_win.h,
    {
        shape_scaled(shape_unscaled(&self.zoom_box, self.data.shape()), shape_win)
    }

    /// The pixel of the image under the mouse, if the mouse is on the
    /// image.
    pub fn orig_pos(&self, mouse_pos: Option<(usize, usize)>, shape_win: Shape) -> (r: Option<Point>)
        requires
            self.is_viewable(shape_win),
        ensures
            r == spec_mouse_pos_to_orig_pos(
                mouse_pos,
                self.spec_data().spec_shape(),
                shape_win,
                self.spec_zoom_box(),
            ),
    {
        mouse_pos_to_orig_pos(mouse_pos, self.data.shape(), shape_win, &self.zoom_box)
    }
}

} // verus!
