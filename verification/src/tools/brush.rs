//! The brush tool: strokes that follow the mouse.

use crate::domain::{spec_mouse_pos_to_orig_pos, Point, Shape};
use crate::history::{History, Record};
use crate::tools_data::annotations::BrushAnnotations;
use crate::world::World;
use vstd::prelude::*;

verus! {

/// The name under which the brush tool records its edits.
pub const ACTOR_NAME: &'static str = "Brush";

/// The tool that draws strokes.
#[derive(Clone, Copy, Debug)]
pub struct Brush {}

/// The strokes after the point `p` was drawn: `p` stands at the end of the
/// stroke that was drawn last, which is a new one if there was none.
/// Nothing else has changed.
pub open spec fn drawn(before: BrushAnnotations, after: BrushAnnotations, p: Point) -> bool {
    &&& after.wf()
    &&& if before.spec_len() == 0 {
        &&& after.spec_len() == 1
        &&& after.spec_points()[0]@ == seq![p]
        &&& after.spec_cat_idxs() == seq![0usize]
        &&& after.spec_selected() == seq![false]
    } else {
        &&& after.spec_len() == before.spec_len()
        &&& after.spec_points().last()@ == before.spec_points().last()@.push(p)
        &&& after.spec_points().drop_last() == before.spec_points().drop_last()
        &&& after.spec_cat_idxs() == before.spec_cat_idxs()
        &&& after.spec_selected() == before.spec_selected()
    }
}

impl Brush {
    pub fn new() -> Self {
        Brush {  }
    }

    /// The mouse is held down: if it is on the image, the pixel under it
    /// is drawn. The history is not touched.
    pub fn mouse_held(
        &mut self,
        shape_win: Shape,
        mouse_pos: Option<(usize, usize)>,
        mut world: World,
        history: History<Record>,
    ) -> (r: (World, History<Record>))
        requires
            world.is_viewable(shape_win),
            world.spec_data().wf(),
        ensures
            r.1 == history,
            r.0.spec_zoom_box() == world.spec_zoom_box(),
            r.0.spec_data().spec_shape() == world.spec_data().spec_shape(),
            r.0.spec_data().spec_bbox_data() == world.spec_data().spec_bbox_data(),
            r.0.spec_data().spec_meta_data() == world.spec_data().spec_meta_data(),
            r.0.spec_data().wf(),
            match spec_mouse_pos_to_orig_pos(
                mouse_pos,
                world.spec_data().spec_shape(),
                shape_win,
                world.spec_zoom_box(),
            ) {
                Some(p) => drawn(
                    world.spec_data().spec_brush_annos(),
                    r.0.spec_data().spec_brush_annos(),
                    p,
                ),
                None => r.0 == world,
            },
    {
        let mp_orig = world.orig_pos(mouse_pos, shape_win);
        if let Some(mp) = mp_orig {
            let ghost before = world.spec_data().spec_brush_annos();
            let annos = world.data_mut().brush_annos_mut();
            if annos.points().len() == 0 {
                annos.add(Vec::new(), 0);
                assert(annos.spec_points().drop_last() =~= before.spec_points());
            }
            annos.push_point(mp);
            proof {
                if before.spec_len() == 0 {
                    assert(annos.spec_points()[0]@ =~= seq![mp]);
                    assert(annos.spec_cat_idxs() =~= seq![0usize]);
                    assert(annos.spec_selected() =~= seq![false]);
                }
            }
        }
        (world, history)
    }

    /// The mouse is released: the stroke is done, and the state of the
    /// data is recorded in the history as an edit of the brush. The world
    /// is not touched.
    pub fn mouse_released(&mut self, world: World, mut history: History<Record>) -> (r: (
        World,
        History<Record>,
    ))
        requires
            history.wf(),
        ensures
            r.0 == world,
            r.1.wf(),
            exists|snapshot: Record|
                cloned(world.spec_data(), snapshot.data) && snapshot.actor@ == ACTOR_NAME@ && r.1@
                    == #[trigger] history@.pushed(snapshot),
    {
        let snapshot = Record::new(world.data().clone(), ACTOR_NAME);
        let ghost before = history@;
        history.push(snapshot);
        assert(history@ == before.pushed(snapshot));
        (world, history)
    }

    /// The key to clear is pressed: all strokes go, and the state of the
    /// data without them is recorded in the history as an edit of the
    /// brush.
    pub fn key_pressed(&mut self, mut world: World, mut history: History<Record>) -> (r: (
        World,
        History<Record>,
    ))
        requires
            history.wf(),
        ensures
            r.0.spec_zoom_box() == world.spec_zoom_box(),
            r.0.spec_data().spec_shape() == world.spec_data().spec_shape(),
            r.0.spec_data().spec_bbox_data() == world.spec_data().spec_bbox_data(),
            r.0.spec_data().spec_meta_data() == world.spec_data().spec_meta_data(),
            r.0.spec_data().spec_brush_annos().wf(),
            r.0.spec_data().spec_brush_annos().spec_len() == 0,
            r.1.wf(),
            exists|snapshot: Record|
                cloned(r.0.spec_data(), snapshot.data) && snapshot.actor@ == ACTOR_NAME@ && r.1@
                    == #[trigger] history@.pushed(snapshot),
    {
        world.data_mut().brush_annos_mut().clear();
        let snapshot = Record::new(world.data().clone(), ACTOR_NAME);
        let ghost before = history@;
        history.push(snapshot);
        assert(history@ == before.pushed(snapshot));
        (world, history)
    }
}

} // verus!
