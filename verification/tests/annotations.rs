use rvimage::domain::{GeoFig, Polygon, Shape, BB};
use rvimage::result::RvError;
use rvimage::tools_data::annotations::{
    resize_bbs, resize_flagged, BboxAnnotations, BrushAnnotations, Edge, SplitMode,
};
use rvimage::tools_data::color::{argmax_clr_dist, new_color, random_clr};
use rvimage::tools_data::label_info::LabelInfo;
use rvimage::util::{remove_selected_items, true_indices};

fn make_test_bbs() -> Vec<BB> {
    vec![
        BB {
            x: 0,
            y: 0,
            w: 10,
            h: 10,
        },
        BB {
            x: 5,
            y: 5,
            w: 10,
            h: 10,
        },
        BB {
            x: 9,
            y: 9,
            w: 10,
            h: 10,
        },
    ]
}

#[test]
fn bbox_annotations_test_argmax() {
    let picklist = [
        [200, 200, 200u8],
        [1, 7, 3],
        [0, 0, 1],
        [45, 43, 52],
        [1, 10, 15],
    ];
    let legacylist = [
        [17, 16, 15],
        [199, 199, 201u8],
        [50, 50, 50u8],
        [255, 255, 255u8],
    ];
    assert_eq!(argmax_clr_dist(&picklist, &legacylist), [0, 0, 1]);
}

#[test]
fn test_bbs() {
    let bbs = make_test_bbs();
    let shape_orig = Shape { w: 100, h: 100 };
    let resized = resize_bbs(bbs.clone(), &[false, true, true], -1, 1, shape_orig);
    assert_eq!(resized[0], bbs[0]);
    assert_eq!(BB::from_points((5, 5), (14, 16)), resized[1]);
    assert_eq!(BB::from_points((9, 9), (18, 20)), resized[2]);
}

#[test]
fn test_annos() {
    let mut annos = BboxAnnotations::new(make_test_bbs());
    let mut label_info = LabelInfo::empty();
    label_info
        .push("".to_string(), Some([255, 255, 255]), None)
        .unwrap();
    let idx = 1;
    annos.set_label(idx, "myclass", &mut label_info).unwrap();
    let label_of = |i: usize| label_info.labels()[annos.cat_idxs()[i]].clone();
    let color_of = |i: usize| label_info.colors()[annos.cat_idxs()[i]];
    for i in 0..(annos.bbs().len()) {
        if i == idx {
            assert_eq!(label_of(i), "myclass");
            assert_eq!(color_of(i), color_of(idx));
        } else {
            assert_eq!(label_of(i), "");
            assert_ne!(color_of(i), color_of(idx));
        }
    }
}

#[test]
fn set_label_reuses_a_label_of_the_table() {
    let mut annos = BboxAnnotations::new(make_test_bbs());
    let mut label_info = LabelInfo::new();
    annos.set_label(0, "car", &mut label_info).unwrap();
    annos.set_label(2, "car", &mut label_info).unwrap();
    annos.set_label(1, "foreground", &mut label_info).unwrap();
    assert_eq!(label_info.labels(), &vec!["foreground".to_string(), "car".to_string()]);
    assert_eq!(label_info.cat_ids(), &vec![1, 2]);
    assert_eq!(label_info.colors().len(), 2);
    assert_eq!(annos.cat_idxs(), &vec![1, 0, 1]);
}

#[test]
fn unselected_boxes_are_never_resized() {
    let bbs = make_test_bbs();
    let shape = Shape::new(100, 100);
    for (dx, dy) in [(3, 4), (-3, -4), (200, 0), (0, -200), (-9, -9)] {
        let resized = resize_bbs(bbs.clone(), &[true, false, true], dx, dy, shape);
        assert_eq!(resized.len(), 3);
        assert_eq!(resized[1], bbs[1]);
        let resized = SplitMode::NoSplit.shift_min_bbs(dx, dy, &[false, true, false], bbs.clone(), shape);
        assert_eq!(resized[0], bbs[0]);
        assert_eq!(resized[2], bbs[2]);
    }
    // a refused resize leaves the box as it is, not resized in part
    let resized = resize_bbs(bbs.clone(), &[true, true, true], 85, 1, shape);
    assert_eq!(resized[0], BB::from_arr(&[0, 0, 95, 11]));
    assert_eq!(resized[1], BB::from_arr(&[5, 5, 95, 11]));
    assert_eq!(resized[2], bbs[2]);
    // flags without a box and boxes without a flag
    let resized = resize_bbs(bbs.clone(), &[true], 1, 1, shape);
    assert_eq!(resized[0], BB::from_arr(&[0, 0, 11, 11]));
    assert_eq!(resized[1..], bbs[1..]);
    let resized = resize_flagged(bbs.clone(), &[false, false, true, true], Edge::Min, 1, 1, shape);
    assert_eq!(resized[..2], bbs[..2]);
    assert_eq!(resized[2], BB::from_arr(&[10, 10, 9, 9]));
}

#[test]
fn split_mode_moves_the_shared_edge() {
    let shape = Shape::new(10, 40);
    let box1 = BB::from_arr(&[0, 0, 10, 10]);
    let box2 = BB::from_arr(&[0, 10, 10, 10]);
    let box3 = BB::from_arr(&[0, 20, 10, 10]);
    let resized = SplitMode::Horizontal.shift_max_bbs(
        3,
        5,
        &[true, false, false],
        vec![box1, box2, box3],
        shape,
    );
    assert_eq!(resized[0], BB::from_arr(&[0, 0, 10, 15]));
    assert_eq!(resized[1], BB::from_arr(&[0, 15, 10, 5]));
    assert_eq!(resized[2], box3);
    assert_eq!(resized[0].y + resized[0].h, resized[1].y);
    // the other way round: the upper edge of the second box is dragged up
    let resized = SplitMode::Horizontal.shift_min_bbs(
        0,
        -4,
        &[false, true, false],
        vec![box1, box2, box3],
        shape,
    );
    assert_eq!(resized[0], BB::from_arr(&[0, 0, 10, 6]));
    assert_eq!(resized[1], BB::from_arr(&[0, 6, 10, 14]));
    assert_eq!(resized[2], box3);
    // without a split mode the neighbour stays
    let resized = SplitMode::NoSplit.shift_max_bbs(
        3,
        5,
        &[true, false, false],
        vec![box1, box2],
        Shape::new(40, 40),
    );
    assert_eq!(resized[0], BB::from_arr(&[0, 0, 13, 15]));
    assert_eq!(resized[1], box2);
    // columns
    let shape = Shape::new(40, 10);
    let col1 = BB::from_arr(&[0, 0, 10, 10]);
    let col2 = BB::from_arr(&[10, 0, 10, 10]);
    let resized =
        SplitMode::Vertical.shift_max_bbs(5, 3, &[true, false], vec![col1, col2], shape);
    assert_eq!(resized[0], BB::from_arr(&[0, 0, 15, 10]));
    assert_eq!(resized[1], BB::from_arr(&[15, 0, 5, 10]));
    assert_eq!(SplitMode::default(), SplitMode::NoSplit);
}

#[test]
fn geo_follow_movement_pins_boxes_at_the_border() {
    let shape = Shape::new(100, 100);
    let top = BB::from_arr(&[0, 0, 100, 30]);
    let bottom = BB::from_arr(&[0, 70, 100, 30]);
    let middle = BB::from_arr(&[0, 30, 100, 40]);
    let moved = |mode: SplitMode, bb: BB, from, to| mode.geo_follow_movement(GeoFig::BB(bb), from, to, shape);
    // dragged away from the border it touches: the box grows
    assert_eq!(
        moved(SplitMode::Horizontal, top, (50, 10), (70, 15)),
        (true, GeoFig::BB(BB::from_arr(&[0, 0, 100, 35])))
    );
    assert_eq!(
        moved(SplitMode::Horizontal, bottom, (50, 80), (50, 75)),
        (true, GeoFig::BB(BB::from_arr(&[0, 65, 100, 35])))
    );
    // any other box moves along the split axis only
    assert_eq!(
        moved(SplitMode::Horizontal, middle, (50, 40), (70, 45)),
        (true, GeoFig::BB(BB::from_arr(&[0, 35, 100, 40])))
    );
    assert_eq!(
        moved(SplitMode::Horizontal, middle, (50, 40), (50, 80)),
        (false, GeoFig::BB(middle))
    );
    let left = BB::from_arr(&[0, 0, 30, 100]);
    let right = BB::from_arr(&[70, 0, 30, 100]);
    assert_eq!(
        moved(SplitMode::Vertical, left, (10, 10), (15, 70)),
        (true, GeoFig::BB(BB::from_arr(&[0, 0, 35, 100])))
    );
    assert_eq!(
        moved(SplitMode::Vertical, right, (80, 10), (75, 70)),
        (true, GeoFig::BB(BB::from_arr(&[65, 0, 35, 100])))
    );
    let free = BB::from_arr(&[10, 10, 10, 10]);
    assert_eq!(
        moved(SplitMode::NoSplit, free, (0, 0), (3, 4)),
        (true, GeoFig::BB(BB::from_arr(&[13, 14, 10, 10])))
    );
    assert_eq!(
        moved(SplitMode::NoSplit, free, (20, 0), (0, 0)),
        (false, GeoFig::BB(free))
    );
    let poly = GeoFig::Poly(Polygon::from_bb(free));
    assert_eq!(
        SplitMode::Horizontal.geo_follow_movement(poly.clone(), (0, 0), (3, 4), shape),
        (false, poly)
    );
}

#[test]
fn remove_selected_keeps_the_order() {
    let mut annos = BboxAnnotations::from_bbs_cats(
        vec![
            BB::from_arr(&[0, 0, 1, 1]),
            BB::from_arr(&[1, 0, 1, 1]),
            BB::from_arr(&[2, 0, 1, 1]),
            BB::from_arr(&[3, 0, 1, 1]),
            BB::from_arr(&[4, 0, 1, 1]),
        ],
        vec![4, 3, 2, 1, 0],
    );
    annos.select(1);
    annos.select(3);
    annos.toggle_selection(4);
    annos.toggle_selection(4);
    annos.select(0);
    annos.deselect(0);
    assert_eq!(annos.selected_bbs(), &vec![false, true, false, true, false]);
    assert_eq!(annos.selected_indices(), vec![1, 3]);
    annos.remove_selected();
    assert_eq!(
        annos.bbs(),
        &vec![
            BB::from_arr(&[0, 0, 1, 1]),
            BB::from_arr(&[2, 0, 1, 1]),
            BB::from_arr(&[4, 0, 1, 1])
        ]
    );
    assert_eq!(annos.cat_idxs(), &vec![4, 2, 0]);
    assert_eq!(annos.selected_bbs(), &vec![false, false, false]);
    assert_eq!(annos.remove(1), BB::from_arr(&[2, 0, 1, 1]));
    assert_eq!(annos.cat_idxs(), &vec![4, 0]);
    annos.add_bb(BB::from_arr(&[9, 9, 1, 1]), 7);
    assert_eq!(annos.cat_idxs(), &vec![4, 0, 7]);
    annos.reduce_cat_idxs(4);
    assert_eq!(annos.cat_idxs(), &vec![3, 0, 6]);
    annos.reduce_cat_idxs(0);
    assert_eq!(annos.cat_idxs(), &vec![2, 0, 5]);
    let (bbs, cats) = annos.clone().to_data();
    assert_eq!(bbs.len(), 3);
    assert_eq!(cats, vec![2, 0, 5]);
    annos.clear();
    assert!(annos.bbs().is_empty() && annos.cat_idxs().is_empty());
    assert_eq!(annos, BboxAnnotations::default());

    let mut items = vec!["a", "b", "c", "d"];
    remove_selected_items(&mut items, &vec![true, false, true]);
    assert_eq!(items, vec!["b", "d"]);
    assert_eq!(true_indices(&[false, true, true, false, true]), vec![1, 2, 4]);
    assert_eq!(true_indices(&[]), Vec::<usize>::new());
}

#[test]
fn selected_boxes_follow_the_mouse_one_by_one() {
    let mut annos = BboxAnnotations::new(make_test_bbs());
    annos.select(0);
    annos.select(2);
    let shape = Shape::new(20, 20);
    annos.selected_follow_movement((5, 5), (7, 6), shape);
    // the last box would leave the image and stays
    assert_eq!(
        annos.bbs(),
        &vec![
            BB::from_arr(&[2, 1, 10, 10]),
            BB::from_arr(&[5, 5, 10, 10]),
            BB::from_arr(&[9, 9, 10, 10])
        ]
    );
    annos.resize_bbs(1, -1, shape);
    assert_eq!(annos.bbs()[0], BB::from_arr(&[2, 1, 11, 9]));
    assert_eq!(annos.bbs()[1], BB::from_arr(&[5, 5, 10, 10]));
    annos.shift_min_bbs(1, 1, shape, SplitMode::NoSplit);
    assert_eq!(annos.bbs()[0], BB::from_arr(&[3, 2, 10, 8]));
    annos.shift_max_bbs(0, 1, shape, SplitMode::Horizontal);
    assert_eq!(annos.bbs()[0], BB::from_arr(&[3, 2, 10, 9]));
    assert_eq!(annos.bbs()[1], BB::from_arr(&[5, 5, 10, 10]));
    assert_eq!(annos.bbs()[2], BB::from_arr(&[10, 11, 10, 8]));
}

#[test]
fn brush_strokes() {
    let mut brush = BrushAnnotations::new();
    brush.add(vec![(1, 1)], 0);
    brush.add(vec![], 2);
    brush.push_point((3, 4));
    brush.push_point((3, 5));
    brush.add(vec![(9, 9)], 1);
    assert_eq!(
        brush.points(),
        &vec![vec![(1, 1)], vec![(3, 4), (3, 5)], vec![(9, 9)]]
    );
    brush.select(0);
    brush.toggle_selection(2);
    brush.toggle_selection(1);
    brush.deselect(1);
    assert_eq!(brush.selected_indices(), vec![0, 2]);
    brush.remove_selected();
    assert_eq!(brush.points(), &vec![vec![(3, 4), (3, 5)]]);
    assert_eq!(brush.cat_idxs(), &vec![2]);
    assert_eq!(brush.selected(), &vec![false]);
    assert_eq!(brush.remove(0), vec![(3, 4), (3, 5)]);
    brush.add(vec![], 0);
    brush.clear();
    assert_eq!(brush, BrushAnnotations::default());
}

fn sq_dist(a: [u8; 3], b: [u8; 3]) -> i32 {
    (0..3).map(|i| (a[i] as i32 - b[i] as i32).pow(2)).sum()
}

fn min_sq_dist(c: [u8; 3], others: &[[u8; 3]]) -> i32 {
    others.iter().map(|o| sq_dist(c, *o)).min().unwrap_or(0)
}

#[test]
fn argmax_picks_the_last_of_the_farthest() {
    let legacy = [[10, 10, 10], [250, 250, 250]];
    let picks = [[9, 10, 10], [130, 130, 130], [11, 10, 10], [130, 130, 130], [0, 0, 0]];
    assert_eq!(argmax_clr_dist(&picks, &legacy), [130, 130, 130]);
    // ties go to the last, and without colors in use all are tied
    assert_eq!(argmax_clr_dist(&[[9, 10, 10], [11, 10, 10]], &legacy), [11, 10, 10]);
    assert_eq!(argmax_clr_dist(&[[11, 10, 10], [9, 10, 10]], &legacy), [9, 10, 10]);
    assert_eq!(argmax_clr_dist(&[[1, 2, 3], [4, 5, 6]], &[]), [4, 5, 6]);
    let picks = [[0, 0, 0], [255, 255, 255], [0, 255, 0], [255, 0, 255]];
    let legacy = [[0, 0, 10], [250, 250, 250], [255, 0, 0]];
    let best = argmax_clr_dist(&picks, &legacy);
    for p in picks {
        assert!(min_sq_dist(best, &legacy) >= min_sq_dist(p, &legacy));
    }
    assert_eq!(best, [0, 255, 0]);
}

#[test]
fn new_color_is_a_color() {
    let _ = new_color(&[]);
    let _ = random_clr();
    let in_use = [[255u8, 255, 255]];
    // a white proposal is picked only if all ten proposals are white
    let mut n_white = 0;
    for _ in 0..20 {
        if new_color(&in_use) == [255, 255, 255] {
            n_white += 1;
        }
    }
    assert!(n_white < 20);
    // the random colors are not all the same
    let first = random_clr();
    assert!((0..200).any(|_| random_clr() != first));
}

#[test]
fn label_table_refuses_what_it_has() {
    let mut table = LabelInfo::new();
    assert_eq!(table.labels(), &vec!["foreground".to_string()]);
    assert_eq!(table.colors(), &vec![[255, 255, 255]]);
    assert_eq!(table.cat_ids(), &vec![1]);
    assert_eq!(table.find_default(), Some(0));
    assert_eq!(
        table.push("foreground".to_string(), None, None),
        Err(RvError::LabelExists)
    );
    assert_eq!(
        table.push("foreground".to_string(), Some([255, 255, 255]), Some(1)),
        Err(RvError::LabelExists)
    );
    assert_eq!(
        table.push("a".to_string(), Some([255, 255, 255]), Some(1)),
        Err(RvError::ColorExists)
    );
    assert_eq!(
        table.push("a".to_string(), Some([0, 0, 0]), Some(1)),
        Err(RvError::CatIdExists)
    );
    assert_eq!(table.len(), 1);
    assert_eq!(table.push("a".to_string(), Some([0, 0, 0]), Some(7)), Ok(()));
    assert_eq!(table.push("b".to_string(), None, None), Ok(()));
    assert_eq!(table.cat_ids(), &vec![1, 7, 8]);
    assert_eq!(table.find("b"), Some(2));
    assert_eq!(table.find("c"), None);
    assert_eq!(
        table.push("c".to_string(), None, Some(u32::MAX)),
        Ok(())
    );
    assert_eq!(
        table.push("d".to_string(), None, None),
        Err(RvError::CatIdsExhausted)
    );
    assert_eq!(table.len(), 4);
    assert!(table.remove(0));
    assert_eq!(table.find_default(), None);
    assert_eq!(table.cat_ids(), &vec![7, 8, u32::MAX]);
    assert!(table.remove(2));
    assert!(table.remove(0));
    assert!(!table.remove(0));
    assert_eq!(table.labels(), &vec!["b".to_string()]);
    assert!(!table.is_empty());
    assert!(LabelInfo::empty().is_empty());
    let mut annos = BboxAnnotations::new(make_test_bbs());
    let mut full = LabelInfo::empty();
    full.push("x".to_string(), None, Some(u32::MAX)).unwrap();
    assert_eq!(
        annos.set_label(0, "y", &mut full),
        Err(RvError::CatIdsExhausted)
    );
    assert_eq!(annos.cat_idxs(), &vec![0, 0, 0]);
    assert_eq!(full.len(), 1);
}

#[test]
fn annotations_of_either_tool() {
    let mut annos = rvimage::tools_data::annotations::Annotations::Bbox(BboxAnnotations::new(
        make_test_bbs(),
    ));
    assert_eq!(annos.len(), 3);
    annos.bbox_mut().select(1);
    assert_eq!(annos.bbox().selected_bbs(), &vec![false, true, false]);
    let mut annos =
        rvimage::tools_data::annotations::Annotations::Brush(BrushAnnotations::new());
    annos.brush_mut().add(vec![(1, 2)], 0);
    assert_eq!(annos.brush().points(), &vec![vec![(1, 2)]]);
    assert_eq!(annos.len(), 1);
}
