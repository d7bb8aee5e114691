use rvimage::domain::{Shape, BB};
use rvimage::file_util::MetaData;
use rvimage::history::{History, Record};
use rvimage::menu::{are_tools_active, bbox_menu, BboxMenuInput, ToolSelectMenu};
use rvimage::tools::{Brush, Zoom};
use rvimage::tools_data::annotations::BrushAnnotations;
use rvimage::tools_data::bbox_data::BboxSpecificData;
use rvimage::view::{project_on_bb, scale_coord, PtI};
use rvimage::world::{DataRaw, World};

#[test]
fn test_project() {
    let bb = BB::from_arr(&[5, 5, 10, 10]);
    assert_eq!(PtI { x: 5, y: 5 }, project_on_bb((0, 0).into(), &bb));
    assert_eq!(PtI { x: 14, y: 14 }, project_on_bb((15, 20).into(), &bb));
    assert_eq!(PtI { x: 10, y: 14 }, project_on_bb((10, 15).into(), &bb));
    assert_eq!(PtI { x: 14, y: 14 }, project_on_bb((20, 15).into(), &bb));
}

#[test]
fn scale_coord_rounds_down() {
    assert_eq!(scale_coord(5, 10, 20), 10);
    assert_eq!(scale_coord(5, 10, 3), 1);
    assert_eq!(scale_coord(10, 10, 3), 3);
    assert_eq!(scale_coord(0, 7, 3), 0);
    assert_eq!(scale_coord(u32::MAX, u32::MAX, u32::MAX), u32::MAX);
    assert_eq!(
        project_on_bb(PtI { x: 7, y: 8 }, &BB::from_arr(&[5, 5, 10, 10])),
        PtI { x: 7, y: 8 }
    );
}

#[test]
fn push_undo_redo() {
    let mut history = History::new(10);
    assert!(history.is_empty());
    history.push("A".to_string());
    history.push("B".to_string());
    assert_eq!(history.len(), 2);
    assert!(history.can_undo() && !history.can_redo());
    // undo restores A, redo restores B
    assert_eq!(history.undo("B".to_string()), "A");
    assert!(!history.can_undo() && history.can_redo());
    assert_eq!(history.redo("A".to_string()), "B");
    assert!(history.can_undo() && !history.can_redo());
    // at the ends both hand back what they were given
    assert_eq!(history.redo("live".to_string()), "live");
    assert_eq!(history.undo("B".to_string()), "A");
    assert_eq!(history.undo("live".to_string()), "live");
    assert_eq!(history.undo("other".to_string()), "other");
    assert_eq!(history.len(), 2);
    assert_eq!(history.redo("A".to_string()), "B");
}

#[test]
fn undo_on_an_empty_history_is_a_no_op() {
    let mut history: History<u32> = History::new(1);
    assert_eq!(history.undo(7), 7);
    assert_eq!(history.redo(8), 8);
    assert!(history.is_empty());
    assert!(!history.can_undo() && !history.can_redo());
    history.push(1);
    assert_eq!(history.undo(7), 7);
    assert_eq!(history.redo(8), 8);
    assert_eq!(history.len(), 1);
}

#[test]
fn undo_keeps_the_live_state_for_redo() {
    let mut history = History::new(10);
    history.push(1);
    history.push(2);
    history.push(3);
    // the caller has edited 3 into 33 without recording it
    assert_eq!(history.undo(33), 2);
    assert_eq!(history.undo(2), 1);
    assert_eq!(history.redo(1), 2);
    assert_eq!(history.redo(2), 33);
    assert_eq!(history.redo(33), 33);
}

#[test]
fn push_discards_what_could_be_redone() {
    let mut history = History::new(10);
    for state in 1..=4 {
        history.push(state);
    }
    assert_eq!(history.undo(4), 3);
    assert_eq!(history.undo(3), 2);
    history.push(20);
    assert_eq!(history.len(), 3);
    assert!(!history.can_redo());
    assert_eq!(history.redo(20), 20);
    assert_eq!(history.undo(20), 2);
    assert_eq!(history.undo(2), 1);
    assert_eq!(history.undo(1), 1);
}

#[test]
fn a_full_history_drops_the_oldest() {
    let mut history = History::new(3);
    for state in 1..=5 {
        history.push(state);
    }
    assert_eq!(history.len(), 3);
    assert_eq!(history.undo(5), 4);
    assert_eq!(history.undo(4), 3);
    assert_eq!(history.undo(3), 3);
    let mut single = History::new(1);
    single.push('a');
    single.push('b');
    assert_eq!(single.len(), 1);
    assert_eq!(single.undo('b'), 'b');
}

fn make_world(shape: Shape) -> World {
    World::from_real_im(
        shape,
        BboxSpecificData::new(),
        BrushAnnotations::new(),
        "image.png".to_string(),
    )
}

#[test]
fn world_takes_zoom_boxes_of_more_than_one_pixel() {
    let shape = Shape::new(200, 100);
    let mut world = make_world(shape);
    assert_eq!(world.shape_orig(), shape);
    assert_eq!(world.zoom_box(), &None);
    assert_eq!(
        world.data().current_file_path(),
        &Some("image.png".to_string())
    );
    let zb = BB::from_arr(&[10, 10, 20, 20]);
    world.set_zoom_box(Some(zb));
    assert_eq!(world.zoom_box(), &Some(zb));
    world.set_zoom_box(Some(BB::from_arr(&[10, 10, 1, 20])));
    assert_eq!(world.zoom_box(), &Some(zb));
    world.set_zoom_box(Some(BB::from_arr(&[10, 10, 20, 1])));
    assert_eq!(world.zoom_box(), &Some(zb));
    assert_eq!(world.view_shape(Shape::new(40, 80)), Shape::new(40, 40));
    assert_eq!(
        world.orig_pos(Some((20, 20)), Shape::new(40, 80)),
        Some((20, 20))
    );
    assert_eq!(world.orig_pos(None, Shape::new(40, 80)), None);
    world.set_zoom_box(None);
    assert_eq!(world.zoom_box(), &None);
    assert_eq!(world.view_shape(Shape::new(50, 50)), Shape::new(50, 25));
    let data = DataRaw::new(
        shape,
        MetaData::default(),
        BboxSpecificData::new(),
        BrushAnnotations::new(),
    );
    assert_eq!(data.shape(), shape);
    assert_eq!(data.current_file_path(), &None);
    let mut world = World::new(data, Some(zb));
    assert_eq!(world.zoom_box(), &Some(zb));
    world.data_mut().meta_data_mut().opened_folder = Some("folder".to_string());
    world.data_mut().brush_annos_mut().add(vec![(1, 1)], 0);
    world
        .data_mut()
        .bbox_data_mut()
        .get_annos_mut("f")
        .add_bb(zb, 0);
    assert_eq!(
        world.data().meta_data().opened_folder,
        Some("folder".to_string())
    );
    assert_eq!(world.data().brush_annos().points().len(), 1);
    assert_eq!(world.data().bbox_data().files(), &vec!["f".to_string()]);
    assert_eq!(world.zoom_box(), &Some(zb));
}

#[test]
fn zoom_tool() {
    let shape = Shape::new(200, 100);
    let zoom = Zoom::new();
    let world = zoom.mouse_wheel(make_world(shape), 1000);
    assert_eq!(world.zoom_box(), &Some(BB::from_arr(&[10, 5, 180, 90])));
    let world = zoom.mouse_wheel(world, -1000);
    assert_eq!(world.zoom_box(), &Some(BB::from_arr(&[1, 1, 198, 99])));
    let world = zoom.reset(world);
    assert_eq!(world.zoom_box(), &None);
    // a zoom box that would shrink to one pixel is not taken
    let mut world = make_world(Shape::new(2, 2));
    for _ in 0..30 {
        world = zoom.mouse_wheel(world, 1000);
        assert!(world.zoom_box().map_or(true, |zb| zb.w > 1 && zb.h > 1));
    }
}

#[test]
fn brush_tool() {
    let shape = Shape::new(100, 100);
    let win = Shape::new(200, 200);
    let mut brush = Brush::new();
    let world = make_world(shape);
    let history = History::new(5);
    let (world, history) = brush.mouse_held(win, Some((10, 20)), world, history);
    let (world, history) = brush.mouse_held(win, Some((12, 20)), world, history);
    let (world, history) = brush.mouse_held(win, None, world, history);
    let (world, history) = brush.mouse_held(win, Some((1000, 20)), world, history);
    assert_eq!(world.data().brush_annos().points(), &vec![vec![(5, 10), (6, 10)]]);
    assert!(history.is_empty());
    let (world, history) = brush.mouse_released(world, history);
    assert_eq!(history.len(), 1);
    let (world, mut history) = brush.key_pressed(world, history);
    assert!(world.data().brush_annos().points().is_empty());
    assert_eq!(history.len(), 2);
    let live = Record::new(world.data().clone(), "Brush");
    let restored = history.undo(live);
    assert_eq!(restored.actor, "Brush");
    assert_eq!(
        restored.data.brush_annos().points(),
        &vec![vec![(5, 10), (6, 10)]]
    );
}

#[test]
fn tool_select_menu() {
    let mut menu = ToolSelectMenu::new();
    assert!(menu.is_window_open());
    assert!(menu.are_tools_active());
    assert_eq!(menu.recently_activated_tool(), None);
    menu.set_typing(true);
    assert!(!menu.are_tools_active());
    assert!(!are_tools_active(true, &menu));
    // closing the menu gives the input back to the tools
    menu.toggle();
    assert!(!menu.is_window_open());
    assert!(menu.are_tools_active());
    assert!(are_tools_active(true, &menu));
    assert!(!are_tools_active(false, &menu));
    menu.set_typing(true);
    menu.toggle();
    assert!(menu.is_window_open());
    assert!(!menu.are_tools_active());
    menu.set_recently_activated_tool(Some(2));
    assert_eq!(menu.recently_activated_tool(), Some(2));
    assert_eq!(ToolSelectMenu::default(), ToolSelectMenu::new());
}

#[test]
fn bbox_menu_applies_what_the_user_did() {
    let nothing = BboxMenuInput {
        label_entered: false,
        selected: None,
        to_be_removed: None,
        close_clicked: false,
    };
    let mut data = BboxSpecificData::new();
    data.new_label = "car".to_string();
    let (open, data) = bbox_menu(nothing, true, data);
    assert!(open);
    assert_eq!(data.labels(), &vec!["foreground".to_string()]);
    let (open, mut data) = bbox_menu(
        BboxMenuInput {
            label_entered: true,
            selected: Some(1),
            ..nothing
        },
        true,
        data,
    );
    assert!(open);
    assert_eq!(
        data.labels(),
        &vec!["foreground".to_string(), "car".to_string()]
    );
    assert_eq!(data.cat_idx_current(), 1);
    data.get_annos_mut("f").add_bb(BB::from_arr(&[0, 0, 1, 1]), 1);
    // the label is in the table: it is refused, and the rest is done
    let (open, data) = bbox_menu(
        BboxMenuInput {
            label_entered: true,
            selected: None,
            to_be_removed: Some(0),
            close_clicked: true,
        },
        true,
        data,
    );
    assert!(!open);
    assert_eq!(data.labels(), &vec!["car".to_string()]);
    assert_eq!(data.cat_idx_current(), 0);
    assert_eq!(data.get_annos("f").unwrap().cat_idxs(), &vec![0]);
    // what is no category cannot be removed, and a closed menu stays closed
    let before = data.clone();
    let (open, data) = bbox_menu(
        BboxMenuInput {
            to_be_removed: Some(5),
            ..nothing
        },
        false,
        data,
    );
    assert!(!open);
    assert_eq!(data, before);
    let mut menu = ToolSelectMenu::new();
    menu.activate_clicked(&[true, false, false], &[true, false, true]);
    assert_eq!(menu.recently_activated_tool(), Some(2));
    menu.activate_clicked(&[true, false, false], &[true, false, false]);
    assert_eq!(menu.recently_activated_tool(), None);
}
