use rvimage::domain::{
    coord_orig_2_view, coord_view_2_orig, find_enclosing_bb, pos_transform, mouse_pos_to_orig_pos, orig_coord_to_view_coord, orig_pos_to_view_pos,
    shape_scaled, shape_unscaled, view_pos_to_orig_pos, zoom_box_mouse_wheel,
    BbViewPointIterator, MakeDrawable, Polygon, Shape, ViewCorners, BB,
};
use rvimage::result::RvError;

fn make_test_bbs() -> Vec<BB> {
    vec![
        BB {
            x: 0,
            y: 0,
            w: 10,
            h: 10,
        },
        BB {
            x: 5,
            y: 5,
            w: 10,
            h: 10,
        },
        BB {
            x: 9,
            y: 9,
            w: 10,
            h: 10,
        },
    ]
}

#[test]
fn test_polygon() {
    let bbs = make_test_bbs();
    let poly = Polygon::from_bb(bbs[2]);
    assert_eq!(poly.enclosing_bb(), bbs[2]);
    let corners = bbs[0].corners().to_vec();
    let ebb = find_enclosing_bb(&corners).unwrap();
    let poly = Polygon::from_bb(ebb);
    assert_eq!(poly.enclosing_bb(), ebb);
}

#[test]
fn test_zb() {
    fn test(zb: Option<BB>, y_delta_milli: i32, reference_coords: &[u32; 4]) {
        println!("y_delta {}", y_delta_milli);
        let shape = Shape::new(200, 100);
        let zb_new = zoom_box_mouse_wheel(zb, shape, y_delta_milli);
        assert_eq!(zb_new, Some(BB::from_arr(reference_coords)));
    }
    test(None, 1000, &[10, 5, 180, 90]);
    test(None, -1000, &[0, 0, 200, 100]);
}

#[test]
fn test_bb() {
    let bb = BB {
        x: 10,
        y: 10,
        w: 10,
        h: 10,
    };
    assert!(!bb.contains((20, 20)));
    assert!(bb.contains((10, 10)));
    assert_eq!(bb.corner(0), (10, 10));
    assert_eq!(bb.corner(1), (10, 20));
    assert_eq!(bb.corner(2), (20, 20));
    assert_eq!(bb.corner(3), (20, 10));
    assert_eq!(bb.opposite_corner(0), (20, 20));
    assert_eq!(bb.opposite_corner(1), (20, 10));
    assert_eq!(bb.opposite_corner(2), (10, 10));
    assert_eq!(bb.opposite_corner(3), (10, 20));
    for (c, i) in bb.corners().into_iter().zip(0..4) {
        assert_eq!(c, bb.corner(i));
    }
    let shape = Shape::new(100, 100);
    let bb1 = bb.translate(1, 1, shape);
    assert_eq!(
        bb1,
        Some(BB {
            x: 11,
            y: 11,
            w: 10,
            h: 10
        })
    );
    let shape = Shape::new(100, 100);
    let bb1 = bb.shift_max(1, 1, shape);
    assert_eq!(
        bb1,
        Some(BB {
            x: 10,
            y: 10,
            w: 11,
            h: 11
        })
    );
    let bb1 = bb.shift_max(100, 1, shape);
    assert_eq!(bb1, None);
    let bb1 = bb.shift_max(-1, -2, shape);
    assert_eq!(
        bb1,
        Some(BB {
            x: 10,
            y: 10,
            w: 9,
            h: 8
        })
    );
    let bb1 = bb.shift_max(-100, -200, shape);
    assert_eq!(bb1, None);
}

#[test]
fn test_to_orig_pos() {
    let orig_pos = mouse_pos_to_orig_pos(
        Some((0, 0)),
        Shape { w: 120, h: 120 },
        Shape { w: 120, h: 120 },
        &None,
    );
    assert_eq!(Some((0, 0)), orig_pos);
    let orig_pos = mouse_pos_to_orig_pos(
        Some((0, 0)),
        Shape { w: 120, h: 120 },
        Shape { w: 20, h: 20 },
        &Some(BB {
            x: 10,
            y: 10,
            w: 20,
            h: 20,
        }),
    );
    assert_eq!(Some((10, 10)), orig_pos);
    let orig_pos = mouse_pos_to_orig_pos(
        Some((19, 19)),
        Shape { w: 120, h: 120 },
        Shape { w: 20, h: 20 },
        &Some(BB {
            x: 10,
            y: 10,
            w: 20,
            h: 20,
        }),
    );
    assert_eq!(Some((29, 29)), orig_pos);
    let orig_pos = mouse_pos_to_orig_pos(
        Some((10, 10)),
        Shape { w: 120, h: 120 },
        Shape { w: 20, h: 20 },
        &Some(BB {
            x: 10,
            y: 10,
            w: 20,
            h: 20,
        }),
    );
    assert_eq!(Some((20, 20)), orig_pos);
}

#[test]
fn test_view_pos_tf() {
    let shape_orig = Shape { w: 20, h: 10 };
    let shape_win = Shape { w: 40, h: 20 };
    assert_eq!(
        orig_pos_to_view_pos((4, 4), shape_orig, shape_win, &None),
        Some((8, 8))
    );
    fn test_inverse(shape_orig: Shape, shape_win: Shape, zoom_box: &Option<BB>, tol: i32) {
        let view_pos = (10, 10);
        let orig_pos = view_pos_to_orig_pos((10, 10), shape_orig, shape_win, zoom_box);
        let view_pos_ = orig_pos_to_view_pos(orig_pos, shape_orig, shape_win, zoom_box);
        println!("view pos_ {:?}", view_pos_);
        assert!((view_pos.0 as i32 - view_pos_.unwrap().0 as i32).abs() <= tol);
        assert!((view_pos.1 as i32 - view_pos_.unwrap().1 as i32).abs() <= tol);
    }
    let shape_orig = Shape { w: 90, h: 120 };
    let shape_win = Shape { w: 320, h: 440 };
    test_inverse(shape_orig, shape_win, &None, 0);
    let shape_orig = Shape { w: 190, h: 620 };
    let shape_win = Shape { w: 120, h: 240 };
    test_inverse(shape_orig, shape_win, &None, 0);
    let shape_orig = Shape { w: 293, h: 321 };
    let shape_win = Shape { w: 520, h: 241 };
    test_inverse(shape_orig, shape_win, &None, 0);
    let shape_orig = Shape { w: 40, h: 40 };
    let shape_win = Shape { w: 40, h: 40 };
    test_inverse(
        shape_orig,
        shape_win,
        &Some(BB {
            x: 10,
            y: 10,
            w: 20,
            h: 10,
        }),
        0,
    );
    let shape_orig = Shape { w: 1040, h: 2113 };
    let shape_win = Shape { w: 401, h: 139 };
    test_inverse(
        shape_orig,
        shape_win,
        &Some(BB {
            x: 17,
            y: 10,
            w: 22,
            h: 11,
        }),
        2,
    );
}

#[test]
fn test_has_overlap() {
    let bb1 = BB::from_arr(&[5, 5, 10, 10]);
    let bb2 = BB::from_arr(&[5, 5, 10, 10]);
    assert!(bb1.has_overlap(&bb2) && bb2.has_overlap(&bb1));
    let bb2 = BB::from_arr(&[0, 0, 10, 10]);
    assert!(bb1.has_overlap(&bb2) && bb2.has_overlap(&bb1));
    let bb2 = BB::from_arr(&[0, 0, 11, 11]);
    assert!(bb1.has_overlap(&bb2) && bb2.has_overlap(&bb1));
    let bb2 = BB::from_arr(&[2, 2, 5, 5]);
    assert!(bb1.has_overlap(&bb2) && bb2.has_overlap(&bb1));
    let bb2 = BB::from_arr(&[5, 5, 9, 9]);
    assert!(bb1.has_overlap(&bb2) && bb2.has_overlap(&bb1));
    let bb2 = BB::from_arr(&[7, 7, 12, 12]);
    assert!(bb1.has_overlap(&bb2) && bb2.has_overlap(&bb1));
    let bb2 = BB::from_arr(&[17, 17, 112, 112]);
    assert!(!bb1.has_overlap(&bb2) && !bb2.has_overlap(&bb1));
    let bb2 = BB::from_arr(&[17, 17, 112, 112]);
    assert!(!bb1.has_overlap(&bb2) && !bb2.has_overlap(&bb1));
    let bb2 = BB::from_arr(&[17, 3, 112, 112]);
    assert!(!bb1.has_overlap(&bb2) && !bb2.has_overlap(&bb1));
    let bb2 = BB::from_arr(&[3, 17, 112, 112]);
    assert!(!bb1.has_overlap(&bb2) && !bb2.has_overlap(&bb1));
}

#[test]
fn test_max_corner_dist() {
    let bb1 = BB::from_arr(&[5, 5, 10, 10]);
    let bb2 = BB::from_arr(&[5, 5, 10, 10]);
    assert_eq!(bb1.max_corner_squaredist(&bb2), (3, 1, 200));
    let bb2 = BB::from_arr(&[6, 5, 10, 10]);
    assert_eq!(bb1.max_corner_squaredist(&bb2), (1, 3, 221));
    let bb2 = BB::from_arr(&[6, 6, 10, 10]);
    assert_eq!(bb1.max_corner_squaredist(&bb2), (0, 2, 242));
    let bb2 = BB::from_arr(&[15, 15, 10, 10]);
    assert_eq!(bb1.max_corner_squaredist(&bb2), (0, 2, 800));
    let bb2 = BB::from_arr(&[15, 5, 10, 10]);
    assert_eq!(bb1.max_corner_squaredist(&bb2), (1, 3, 500));
}

#[test]
fn test_view_corners() {
    let bb = BB::from_arr(&[5, 5, 10, 10]);
    let shape = Shape::new(40, 80);
    let view_corners = bb.to_viewcorners(shape, shape, &None);
    let bb_vc = view_corners.to_bb();
    assert_eq!(Some(bb), bb_vc);
}

fn all_points(mut it: BbViewPointIterator) -> Vec<(u32, u32)> {
    let mut points = vec![];
    while let Some(p) = it.next() {
        points.push(p);
    }
    points
}

#[test]
fn test_point_iterators() {
    fn test(zb: Option<BB>, bb: BB, ref_bb: BB) {
        let shape = Shape::new(2100, 100);
        let (boundary, inners) = bb.points_on_view(shape, shape, shape, &zb);
        assert_eq!(ref_bb.corners().to_vec(), boundary.collect());
        let ips = inners.collect();

        for y in ref_bb.y_range() {
            for x in ref_bb.x_range() {
                assert!(ips.contains(&(x, y)));
            }
        }

        for ip in ips {
            assert!(ip.0 >= ref_bb.min().0);
            assert!(ip.0 < ref_bb.max().0);
            assert!(ip.1 >= ref_bb.min().1);
            assert!(ip.1 < ref_bb.max().1);
        }
    }
    let bb = BB::from_arr(&[5, 5, 10, 10]);
    test(None, bb, bb);
    test(Some(BB::from_arr(&[0, 0, 100, 100])), bb, bb);
    test(
        Some(BB::from_arr(&[5, 5, 80, 80])),
        bb,
        BB::from_arr(&[0, 0, 12, 12]),
    );
}

#[test]
fn from_points_of_one_point_is_one_pixel() {
    let bb = BB::from_points((0, 0), (0, 0));
    assert_eq!(bb, BB::from_arr(&[0, 0, 1, 1]));
    assert!(bb.contains((0, 0)));
    let bb = BB::from_points((7, 3), (7, 9));
    assert_eq!(bb, BB::from_arr(&[7, 3, 1, 6]));
    assert_eq!(BB::from_points((14, 16), (5, 5)), BB::from_arr(&[5, 5, 9, 11]));
}

#[test]
fn translate_is_some_iff_the_box_stays_inside() {
    let shape = Shape::new(30, 20);
    let bb = BB::from_arr(&[5, 5, 10, 10]);
    for dx in -8..20 {
        for dy in -8..10 {
            let inside = 5 + dx >= 0 && 5 + dy >= 0 && 15 + dx <= 30 && 15 + dy <= 20;
            let moved = bb.translate(dx, dy, shape);
            assert_eq!(moved.is_some(), inside);
            if let Some(m) = moved {
                assert_eq!(
                    m,
                    BB::from_arr(&[(5 + dx) as u32, (5 + dy) as u32, 10, 10])
                );
                assert!(m.is_contained_in_image(shape));
            }
        }
    }
    // touching the border is inside, one pixel more is not
    assert_eq!(
        bb.translate(15, 5, shape),
        Some(BB::from_arr(&[20, 10, 10, 10]))
    );
    assert_eq!(bb.translate(16, 5, shape), None);
    assert_eq!(bb.translate(-6, 0, shape), None);
    assert_eq!(bb.translate(i32::MAX, i32::MIN, shape), None);
}

#[test]
fn shift_min_keeps_the_maximal_corner() {
    let shape = Shape::new(100, 100);
    let bb = BB::from_arr(&[10, 10, 10, 10]);
    assert_eq!(bb.shift_min(2, 3, shape), Some(BB::from_arr(&[12, 13, 8, 7])));
    assert_eq!(
        bb.shift_min(-10, -10, shape),
        Some(BB::from_arr(&[0, 0, 20, 20]))
    );
    assert_eq!(bb.shift_min(-11, 0, shape), None);
    assert_eq!(bb.shift_min(10, 0, shape), None);
    assert_eq!(bb.shift_min(9, 9, shape), Some(BB::from_arr(&[19, 19, 1, 1])));
}

#[test]
fn new_shape_checked_rejects_what_is_not_a_box_in_the_image() {
    let shape = Shape::new(10, 10);
    assert_eq!(
        BB::new_shape_checked(0, 0, 10, 10, shape),
        Some(BB::from_arr(&[0, 0, 10, 10]))
    );
    assert_eq!(BB::new_shape_checked(0, 0, 11, 10, shape), None);
    assert_eq!(BB::new_shape_checked(-1, 0, 5, 5, shape), None);
    assert_eq!(BB::new_shape_checked(0, 0, 0, 5, shape), None);
    assert_eq!(BB::new_shape_checked(0, 0, 5, -5, shape), None);
}

#[test]
fn new_fit_to_image_clips() {
    let shape = Shape::new(200, 100);
    assert_eq!(
        BB::new_fit_to_image(-10, -5, 220, 110, shape),
        BB::from_arr(&[0, 0, 200, 100])
    );
    assert_eq!(
        BB::new_fit_to_image(190, 95, 20, 20, shape),
        BB::from_arr(&[190, 95, 10, 5])
    );
    assert_eq!(
        BB::new_fit_to_image(10, 5, 180, 90, shape),
        BB::from_arr(&[10, 5, 180, 90])
    );
    // nothing of the box is inside: an empty box, never a wrapped one
    assert_eq!(
        BB::new_fit_to_image(300, 5, 10, 10, shape),
        BB::from_arr(&[200, 5, 0, 10])
    );
    assert_eq!(
        BB::new_fit_to_image(-30, 5, 10, 10, shape),
        BB::from_arr(&[0, 5, 0, 10])
    );
}

#[test]
fn center_scale_rounds_from_the_exact_value() {
    let shape = Shape::new(1000, 1000);
    let bb = BB::from_arr(&[100, 100, 5, 7]);
    // 5 * 0.9 = 4.5 -> 5, 7 * 0.9 = 6.3 -> 6; the corner moves by 0.25 and 0.35
    assert_eq!(
        bb.center_scale(9, 10, shape),
        BB::from_arr(&[100, 100, 5, 6])
    );
    let bb = BB::from_arr(&[100, 100, 20, 40]);
    assert_eq!(
        bb.center_scale(1, 2, shape),
        BB::from_arr(&[105, 110, 10, 20])
    );
    assert_eq!(
        bb.center_scale(2, 1, shape),
        BB::from_arr(&[90, 80, 40, 80])
    );
    assert_eq!(bb.center_scale(1, 1, shape), bb);
}

#[test]
fn zoom_always_gives_a_box_in_the_image() {
    let shape = Shape::new(200, 100);
    let mut zb = None;
    for _ in 0..60 {
        zb = zoom_box_mouse_wheel(zb, shape, 5000);
        let bb = zb.unwrap();
        assert!(bb.is_contained_in_image(shape));
    }
    // a turn counts for one notch at most
    assert_eq!(
        zoom_box_mouse_wheel(None, shape, 5000),
        zoom_box_mouse_wheel(None, shape, 1000)
    );
    assert_eq!(
        zoom_box_mouse_wheel(None, shape, -77777),
        zoom_box_mouse_wheel(None, shape, -1000)
    );
    assert_eq!(
        zoom_box_mouse_wheel(None, shape, 500),
        Some(BB::from_arr(&[5, 3, 190, 95]))
    );
    assert_eq!(
        zoom_box_mouse_wheel(Some(BB::from_arr(&[100, 50, 100, 50])), shape, -1000),
        Some(BB::from_arr(&[95, 48, 105, 52]))
    );
}

#[test]
fn shape_scaled_keeps_the_aspect_ratio() {
    assert_eq!(
        shape_scaled(Shape::new(90, 120), Shape::new(320, 440)),
        Shape::new(320, 426)
    );
    assert_eq!(
        shape_scaled(Shape::new(190, 620), Shape::new(120, 240)),
        Shape::new(73, 240)
    );
    assert_eq!(
        shape_scaled(Shape::new(20, 10), Shape::new(40, 20)),
        Shape::new(40, 20)
    );
    // where the ratio is exact, the window is filled exactly
    assert_eq!(
        shape_scaled(Shape::new(691, 3911), Shape::new(2441, 858)),
        Shape::new(151, 858)
    );
    assert_eq!(
        shape_unscaled(&Some(BB::from_arr(&[3, 4, 5, 6])), Shape::new(90, 120)),
        Shape::new(5, 6)
    );
    assert_eq!(shape_unscaled(&None, Shape::new(90, 120)), Shape::new(90, 120));
}

fn back_and_forth(p: (u32, u32), orig: Shape, win: Shape, zb: &Option<BB>) -> (u32, u32) {
    let view = orig_pos_to_view_pos(p, orig, win, zb).unwrap();
    view_pos_to_orig_pos(view, orig, win, zb)
}

#[test]
fn round_trip_from_the_image_to_the_view_and_back() {
    // the view is larger: exact
    let orig = Shape::new(90, 120);
    let win = Shape::new(320, 440);
    for x in 0..90 {
        for y in 0..120 {
            assert_eq!(back_and_forth((x, y), orig, win, &None), (x, y));
        }
    }
    // the same shape: the view is the image
    let shape = Shape::new(64, 48);
    for x in 0..64 {
        for y in 0..48 {
            assert_eq!(orig_pos_to_view_pos((x, y), shape, shape, &None), Some((x, y)));
            assert_eq!(view_pos_to_orig_pos((x, y), shape, shape, &None), (x, y));
        }
    }
    // the image is at most three times as large as the view: at most 2 off
    let orig = Shape::new(300, 210);
    let win = Shape::new(100, 100);
    for x in 0..300 {
        for y in 0..210 {
            let back = back_and_forth((x, y), orig, win, &None);
            assert!(back.0 >= x && back.0 - x <= 2);
            assert!(back.1 >= y && back.1 - y <= 2);
        }
    }
    // with a zoom box
    let orig = Shape::new(1040, 2113);
    let win = Shape::new(401, 139);
    let zb = Some(BB::from_arr(&[17, 10, 22, 11]));
    for x in 17..39 {
        for y in 10..21 {
            assert_eq!(back_and_forth((x, y), orig, win, &zb), (x, y));
        }
    }
    // a view that is ten times smaller loses more than two pixels
    let orig = Shape::new(1000, 1000);
    let win = Shape::new(100, 100);
    assert_eq!(back_and_forth((1, 1), orig, win, &None), (10, 10));
}

#[test]
fn positions_outside_the_zoom_box_are_not_in_view() {
    let orig = Shape::new(120, 120);
    let win = Shape::new(20, 20);
    let zb = Some(BB::from_arr(&[10, 10, 20, 20]));
    assert_eq!(orig_pos_to_view_pos((9, 10), orig, win, &zb), None);
    assert_eq!(orig_pos_to_view_pos((10, 30), orig, win, &zb), None);
    assert_eq!(orig_pos_to_view_pos((10, 10), orig, win, &zb), Some((0, 0)));
    assert_eq!(orig_pos_to_view_pos((29, 29), orig, win, &zb), Some((19, 19)));
    assert_eq!(mouse_pos_to_orig_pos(None, orig, win, &zb), None);
    assert_eq!(mouse_pos_to_orig_pos(Some((21, 0)), orig, win, &zb), None);
    assert_eq!(
        mouse_pos_to_orig_pos(Some((usize::MAX, 0)), orig, win, &zb),
        None
    );
    assert_eq!(orig_coord_to_view_coord(9, 120, 20, &Some((10, 30))), None);
    assert_eq!(orig_coord_to_view_coord(30, 120, 20, &Some((10, 30))), None);
    assert_eq!(
        orig_coord_to_view_coord(15, 120, 20, &Some((10, 30))),
        Some(5)
    );
    assert_eq!(orig_coord_to_view_coord(60, 120, 20, &None), Some(10));
}

#[test]
fn find_enclosing_bb_needs_points() {
    assert_eq!(find_enclosing_bb(&vec![]), Err(RvError::NoPoints));
    assert_eq!(
        find_enclosing_bb(&vec![(4, 9), (2, 11), (7, 3)]),
        Ok(BB::from_arr(&[2, 3, 5, 8]))
    );
    assert_eq!(
        find_enclosing_bb(&vec![(4, 9)]),
        Ok(BB::from_arr(&[4, 9, 1, 1]))
    );
}

#[test]
fn view_corners_out_of_view() {
    let vc = ViewCorners::new(Some(1), None, Some(3), Some(4));
    assert_eq!(vc.to_tuple(), (Some(1), None, Some(3), Some(4)));
    assert_eq!(vc.to_bb(), None);
    assert_eq!(vc.to_arr(), [None, Some((1, 4)), Some((3, 4)), None]);
    let mut it = rvimage::domain::BbViewCornerIterator::new(vc);
    assert_eq!(it.next(), Some((1, 4)));
    assert_eq!(it.next(), Some((3, 4)));
    assert_eq!(it.next(), None);
    assert_eq!(it.next(), None);
    let points = all_points(BbViewPointIterator::new(vc, Shape::new(10, 10)));
    assert_eq!(points.len(), 8);
    assert_eq!(points[0], (1, 0));
    assert_eq!(points[1], (2, 0));
    assert_eq!(points[2], (1, 1));
    assert_eq!(points[7], (2, 3));
    assert!(all_points(BbViewPointIterator::from_bb(BB::from_arr(&[3, 3, 0, 5]))).is_empty());
}

#[test]
fn bb_text_round_trip() {
    let bb = BB::from_arr(&[0, 17, 4294967295, 1000]);
    assert_eq!(bb.to_string(), "[0, 17, 4294967295, 1000]");
    assert_eq!(BB::from_text(&bb.to_string()), Ok(bb));
    assert_eq!("[1, 2, 3, 4]".parse::<BB>(), Ok(BB::from_arr(&[1, 2, 3, 4])));
    assert_eq!(
        BB::from_text("[ 1,2 ,  3 ,4]"),
        Ok(BB::from_arr(&[1, 2, 3, 4]))
    );
    assert_eq!(BB::from_text("[007, 2, 3, 4]"), Ok(BB::from_arr(&[7, 2, 3, 4])));
}

#[test]
fn bb_text_malformed() {
    for text in [
        "",
        "[",
        "[]",
        "1, 2, 3, 4",
        "[1, 2, 3]",
        "[1, 2, 3, 4, 5]",
        "[1, 2, 3, 4",
        "(1, 2, 3, 4)",
        "[1, 2, 3, -4]",
        "[1, 2, 3, +4]",
        "[1, 2, 3, 4294967296]",
        "[1, 2, , 4]",
        "[1, 2, 3 3, 4]",
        "[1, 2, x, 4]",
        "[1, 2, 3, 4] ",
        "[1,\t2, 3, 4]",
        "[１, 2, 3, 4]",
    ] {
        assert_eq!(BB::from_text(text), Err(RvError::ParseBb), "{}", text);
    }
}

#[test]
fn small_getters() {
    let bb = BB::from_arr(&[3, 4, 10, 21]);
    assert_eq!(bb.min_max(0), (3, 13));
    assert_eq!(bb.min_max(1), (4, 25));
    assert_eq!(bb.min_max(7), (4, 25));
    assert_eq!(bb.shape(), Shape::new(10, 21));
    assert_eq!(bb.center(), (8, 14));
    assert_eq!(bb.min(), (3, 4));
    assert_eq!(bb.max(), (13, 25));
    assert_eq!(bb.min_usize(), (3, 4));
    assert_eq!(bb.max_usize(), (13, 25));
    assert_eq!(bb.x_range(), 3..13);
    assert_eq!(bb.y_range(), 4..25);
    assert!(bb.contains_bb(BB::from_arr(&[3, 4, 9, 20])));
    assert!(!bb.contains_bb(BB::from_arr(&[3, 4, 10, 21])));
    assert_eq!(
        bb.follow_movement((10, 10), (7, 12), Shape::new(100, 100)),
        Some(BB::from_arr(&[0, 6, 10, 21]))
    );
    assert_eq!(bb.follow_movement((10, 10), (6, 12), Shape::new(100, 100)), None);
    assert_eq!(BB::default(), BB::from_arr(&[0, 0, 0, 0]));
    assert_eq!(bb.enclosing_bb(), bb);
}

#[test]
fn pixels_are_walked_row_by_row() {
    let it = BbViewPointIterator::from_bb(BB::from_arr(&[1, 2, 2, 3]));
    assert_eq!(
        it.collect(),
        vec![(1, 2), (2, 2), (1, 3), (2, 3), (1, 4), (2, 4)]
    );
    let mut it = BbViewPointIterator::from_bb(BB::from_arr(&[7, 7, 3, 1]));
    assert_eq!(it.next(), Some((7, 7)));
    assert_eq!(it.collect(), vec![(8, 7), (9, 7)]);
    assert!(BbViewPointIterator::from_bb(BB::from_arr(&[7, 7, 3, 0]))
        .collect()
        .is_empty());
}

#[test]
fn every_transform_goes_through_pos_transform() {
    let orig = Shape::new(120, 60);
    let win = Shape::new(40, 40);
    let zb = Some(BB::from_arr(&[10, 20, 60, 30]));
    // the scaled shape is 40 x 20, the unscaled one 60 x 30, the offset (10, 20)
    let args = pos_transform((1, 2), orig, win, &zb, |x, scaled, unscaled, off| {
        x + 10 * scaled + 1000 * unscaled + 100000 * off
    });
    assert_eq!(args, (1060401, 2030202));
    assert_eq!(
        pos_transform((12, 5), orig, win, &zb, coord_view_2_orig),
        view_pos_to_orig_pos((12, 5), orig, win, &zb)
    );
    assert_eq!(view_pos_to_orig_pos((12, 5), orig, win, &zb), (28, 27));
    assert_eq!(
        Some(pos_transform((28, 27), orig, win, &zb, coord_orig_2_view)),
        orig_pos_to_view_pos((28, 27), orig, win, &zb)
    );
    assert_eq!(orig_pos_to_view_pos((28, 27), orig, win, &zb), Some((12, 5)));
    // rounding: up on the way to the larger side, down on the way back
    assert_eq!(coord_view_2_orig(1, 3, 2, 7), 8);
    assert_eq!(coord_orig_2_view(8, 3, 2, 7), 1);
    assert_eq!(coord_view_2_orig(1, 2, 3, 7), 8);
    assert_eq!(coord_orig_2_view(8, 2, 3, 7), 1);
    assert_eq!(coord_view_2_orig(2, 2, 3, 7), 10);
    assert_eq!(coord_orig_2_view(9, 2, 3, 7), 2);
    assert_eq!(coord_view_2_orig(0, 0, 5, 7), 7);
    assert_eq!(coord_orig_2_view(7, 5, 0, 7), 0);
}
