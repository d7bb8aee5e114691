//! The zoom tool.

use crate::domain::{spec_zoom_box_mouse_wheel, zoom_box_mouse_wheel};
use crate::world::World;
use vstd::prelude::*;

verus! {

/// The tool that zooms with the mouse wheel.
#[derive(Clone, Copy, Debug)]
pub struct Zoom {}

impl Zoom {
    pub fn new() -> Self {
        Zoom {  }
    }

    /// Turns the mouse wheel by `y_delta_milli` thousandths of a notch:
    /// the zoom box becomes what `zoom_box_mouse_wheel` makes of it, unless
    /// that is not more than one pixel wide and high; then the zoom stays
    /// as it is. The data is not touched.
    pub fn mouse_wheel(&self, mut world: World, y_delta_milli: i32) -> (r: World)
        ensures
            r.spec_data() == world.spec_data(),
            r.spec_zoom_box() == ({
                let zb = spec_zoom_box_mouse_wheel(
                    world.spec_zoom_box(),
                    world.spec_data().spec_shape(),
                    y_delta_milli as int,
                );
                if World::is_zoomable(zb) {
                    Some(zb)
                } else {
                    world.spec_zoom_box()
                }
            }),
            r.spec_zoom_box() != world.spec_zoom_box() ==> r.spec_zoom_box() is Some
                && r.spec_zoom_box().unwrap().spec_is_contained_in_image(
                world.spec_data().spec_shape(),
            ),
    {
        let zb = zoom_box_mouse_wheel(*world.zoom_box(), world.shape_orig(), y_delta_milli);
        world.set_zoom_box(zb);
        world
    }

    /// Shows the whole image again.
    pub fn reset(&self, mut world: World) -> (r: World)
        ensures
            r.spec_data() == world.spec_data(),
            r.spec_zoom_box() is None,
    {
        world.set_zoom_box(None);
        world
    }
}

} // verus!
