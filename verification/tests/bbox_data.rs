use rvimage::domain::BB;
use rvimage::file_util::{convert_read, prepare_export, ConnectionData, ExportData, MetaData};
use rvimage::result::RvError;
use rvimage::tools_data::annotations::BboxAnnotations;
use rvimage::tools_data::bbox_data::{
    BboxExportData, BboxExportFileType, BboxExportTrigger, BboxSpecificData, ClipboardData,
};
use rvimage::tools_data::color::argmax_clr_dist;
use rvimage::tools_data::export_path::{export_file_stem, get_last_part_of_path};

fn make_test_bbs() -> Vec<BB> {
    vec![
        BB::from_arr(&[0, 0, 10, 10]),
        BB::from_arr(&[5, 5, 10, 10]),
        BB::from_arr(&[9, 9, 10, 10]),
    ]
}

fn make_data(image_file: &str) -> BboxSpecificData {
    let mut bbox_data = BboxSpecificData::new();
    bbox_data.push("x".to_string(), None, None).unwrap();
    bbox_data.remove_catidx(0);
    let mut bbs = make_test_bbs();
    for _ in 0..7 {
        bbs.extend(bbs.clone());
    }
    let annos = bbox_data.get_annos_mut(image_file);
    for bb in bbs {
        annos.add_bb(bb, 0);
    }
    bbox_data
}

#[test]
fn last_folder_part() {
    assert_eq!(get_last_part_of_path("a/b/c", '/'), Some("c".to_string()));
    assert_eq!(get_last_part_of_path("a/b/c", '\\'), None);
    assert_eq!(get_last_part_of_path("a\\b\\c", '/'), None);
    assert_eq!(
        get_last_part_of_path("a\\b\\c", '\\'),
        Some("c".to_string())
    );
    assert_eq!(get_last_part_of_path("", '/'), None);
    assert_eq!(get_last_part_of_path("a/b/c/", '/'), Some("c".to_string()));
    assert_eq!(
        get_last_part_of_path("aadfh//bdafl////aksjc/////", '/'),
        Some("aksjc".to_string())
    );
    assert_eq!(
        get_last_part_of_path("\"aa dfh//bdafl////aks jc/////\"", '/'),
        Some("\"aks jc\"".to_string())
    );
    assert_eq!(
        get_last_part_of_path("'aa dfh//bdafl////aks jc/////'", '/'),
        Some("'aks jc'".to_string())
    );
}

#[test]
fn bbox_data_test_argmax() {
    let picklist = [
        [200, 200, 200u8],
        [1, 7, 3],
        [0, 0, 1],
        [45, 43, 52],
        [1, 10, 15],
    ];
    let legacylist = [
        [17, 16, 15],
        [199, 199, 201u8],
        [50, 50, 50u8],
        [255, 255, 255u8],
    ];
    assert_eq!(argmax_clr_dist(&picklist, &legacylist), [0, 0, 1]);
}

#[test]
fn last_part_of_odd_paths() {
    assert_eq!(get_last_part_of_path("/", '/'), Some("".to_string()));
    assert_eq!(get_last_part_of_path("////", '/'), Some("".to_string()));
    assert_eq!(get_last_part_of_path("'", '\''), Some("''".to_string()));
    assert_eq!(get_last_part_of_path("''/", '/'), Some("''".to_string()));
    assert_eq!(get_last_part_of_path("'a/b", '/'), Some("b".to_string()));
    assert_eq!(get_last_part_of_path("ä/ö/ü/", '/'), Some("ü".to_string()));
    assert_eq!(get_last_part_of_path("aöböc", 'ö'), Some("c".to_string()));
    assert_eq!(export_file_stem("xi"), "xi");
    assert_eq!(export_file_stem("/home/user/images/"), "images");
    assert_eq!(export_file_stem("C:\\data\\scans"), "scans");
    assert_eq!(export_file_stem("/mnt/share\\scans"), "scans");
}

#[test]
fn export_and_import_reproduce_the_data() {
    let bbox_data = make_data("dummyfile");
    assert_eq!(bbox_data.labels(), &vec!["x".to_string()]);
    assert_eq!(bbox_data.cat_ids(), &vec![2]);
    assert_eq!(bbox_data.len(), 1);
    assert_eq!(bbox_data.get_annos("dummyfile").unwrap().bbs().len(), 384);
    assert!(bbox_data.get_annos("otherfile").is_none());
    let exported = BboxExportData::from_bbox_data(bbox_data.clone());
    assert_eq!(&exported.labels, bbox_data.labels());
    assert_eq!(&exported.colors, bbox_data.colors());
    assert_eq!(&exported.cat_ids, bbox_data.cat_ids());
    assert_eq!(exported.annotations.len(), 1);
    assert_eq!(exported.annotations[0].0, "dummyfile");
    assert_eq!(exported.annotations[0].1 .0.len(), 384);
    assert_eq!(exported.annotations[0].1 .1, vec![0; 384]);
    let read = BboxSpecificData::from_bbox_export_data(exported.clone()).unwrap();
    assert_eq!(bbox_data, read);
    assert_eq!(BboxExportData::from_bbox_data(read), exported);
}

fn export_of(
    labels: &[&str],
    colors: &[[u8; 3]],
    cat_ids: &[u32],
    annotations: Vec<(&str, Vec<BB>, Vec<usize>)>,
) -> BboxExportData {
    BboxExportData {
        labels: labels.iter().map(|l| l.to_string()).collect(),
        colors: colors.to_vec(),
        cat_ids: cat_ids.to_vec(),
        annotations: annotations
            .into_iter()
            .map(|(f, bbs, cats)| (f.to_string(), (bbs, cats)))
            .collect(),
    }
}

#[test]
fn import_refuses_malformed_data() {
    let import = |e| BboxSpecificData::from_bbox_export_data(e).map(|_| ());
    let bbs = make_test_bbs();
    let c = [[1, 1, 1], [2, 2, 2]];
    let ok = export_of(
        &["a", "b"],
        &c,
        &[5, 3],
        vec![("f", bbs.clone(), vec![0, 1, 1]), ("g", vec![], vec![])],
    );
    let data = BboxSpecificData::from_bbox_export_data(ok).unwrap();
    assert_eq!(data.files(), &vec!["f".to_string(), "g".to_string()]);
    assert_eq!(data.get_annos("f").unwrap().cat_idxs(), &vec![0, 1, 1]);
    assert_eq!(data.get_annos("f").unwrap().selected_bbs(), &vec![false; 3]);
    assert_eq!(data.get_annos("g").unwrap().bbs().len(), 0);
    assert_eq!(data.cat_idx_current, 0);
    assert_eq!(data.new_label, "foreground");

    assert_eq!(
        import(export_of(&["a", "b"], &c, &[5], vec![])),
        Err(RvError::LengthMismatch)
    );
    assert_eq!(
        import(export_of(&["a"], &c, &[5, 3], vec![])),
        Err(RvError::LengthMismatch)
    );
    assert_eq!(
        import(export_of(&["a", "a"], &c, &[5, 3], vec![])),
        Err(RvError::LabelExists)
    );
    assert_eq!(
        import(export_of(&["a", "b"], &[[1, 1, 1], [1, 1, 1]], &[5, 3], vec![])),
        Err(RvError::ColorExists)
    );
    assert_eq!(
        import(export_of(&["a", "b"], &c, &[5, 5], vec![])),
        Err(RvError::CatIdExists)
    );
    assert_eq!(
        import(export_of(
            &["a", "b"],
            &c,
            &[5, 3],
            vec![("f", bbs.clone(), vec![0, 2, 7])]
        )),
        Err(RvError::CatIdxOutOfBounds { cat_idx: 2, len: 2 })
    );
    assert_eq!(
        import(export_of(
            &["a", "b"],
            &c,
            &[5, 3],
            vec![("f", bbs.clone(), vec![0, 1])]
        )),
        Err(RvError::LengthMismatch)
    );
    assert_eq!(
        import(export_of(
            &["a", "b"],
            &c,
            &[5, 3],
            vec![("f", vec![], vec![]), ("f", vec![], vec![])]
        )),
        Err(RvError::DuplicateFile)
    );
    // the first fault decides
    assert_eq!(
        import(export_of(
            &["a", "a"],
            &[[1, 1, 1], [1, 1, 1]],
            &[5, 5],
            vec![("f", bbs.clone(), vec![9])]
        )),
        Err(RvError::LabelExists)
    );
    // no category at all: every box is out of bounds
    assert_eq!(
        import(export_of(&[], &[], &[], vec![("f", bbs, vec![0, 0, 0])])),
        Err(RvError::CatIdxOutOfBounds { cat_idx: 0, len: 0 })
    );
}

#[test]
fn set_annotations_map_leaves_the_data_on_error() {
    let mut data = make_data("dummyfile");
    let before = data.clone();
    let good = BboxAnnotations::from_bbs_cats(make_test_bbs(), vec![0, 0, 0]);
    let bad = BboxAnnotations::from_bbs_cats(make_test_bbs(), vec![0, 1, 0]);
    assert_eq!(
        data.set_annotations_map(vec![("a".to_string(), good.clone()), ("b".to_string(), bad)]),
        Err(RvError::CatIdxOutOfBounds { cat_idx: 1, len: 1 })
    );
    assert_eq!(data, before);
    assert_eq!(
        data.set_annotations_map(vec![
            ("a".to_string(), good.clone()),
            ("a".to_string(), good.clone())
        ]),
        Err(RvError::DuplicateFile)
    );
    assert_eq!(data, before);
    assert_eq!(
        data.set_annotations_map(vec![
            ("a".to_string(), good.clone()),
            ("b".to_string(), BboxAnnotations::default())
        ]),
        Ok(())
    );
    assert_eq!(data.files(), &vec!["a".to_string(), "b".to_string()]);
    assert_eq!(data.get_annos("a"), Some(&good));
    assert!(data.get_annos("dummyfile").is_none());
}

#[test]
fn remove_catidx_keeps_the_boxes_in_the_table() {
    let mut data = BboxSpecificData::new();
    data.push("a".to_string(), Some([1, 1, 1]), None).unwrap();
    data.push("b".to_string(), Some([2, 2, 2]), None).unwrap();
    data.push("c".to_string(), Some([3, 3, 3]), Some(9)).unwrap();
    assert_eq!(
        data.push("c".to_string(), None, None),
        Err(RvError::LabelExists)
    );
    assert_eq!(data.cat_ids(), &vec![1, 2, 3, 9]);
    assert_eq!(data.find_default(), Some(0));
    for (file, cats) in [("f", vec![0, 1, 2, 3]), ("g", vec![3, 3, 0])] {
        let annos = data.get_annos_mut(file);
        for cat in cats {
            annos.add_bb(BB::from_arr(&[0, 0, 1, 1]), cat);
        }
    }
    data.cat_idx_current = 3;
    data.remove_catidx(1);
    assert_eq!(
        data.labels(),
        &vec!["foreground".to_string(), "b".to_string(), "c".to_string()]
    );
    assert_eq!(data.colors(), &vec![[255, 255, 255], [2, 2, 2], [3, 3, 3]]);
    assert_eq!(data.cat_ids(), &vec![1, 3, 9]);
    assert_eq!(data.cat_idx_current, 2);
    assert_eq!(data.get_annos("f").unwrap().cat_idxs(), &vec![0, 0, 1, 2]);
    assert_eq!(data.get_annos("g").unwrap().cat_idxs(), &vec![2, 2, 0]);
    data.remove_catidx(2);
    assert_eq!(data.cat_idx_current, 1);
    assert_eq!(data.get_annos("f").unwrap().cat_idxs(), &vec![0, 0, 1, 1]);
    data.remove_catidx(0);
    assert_eq!(data.labels(), &vec!["b".to_string()]);
    assert_eq!(data.cat_idx_current, 0);
    assert_eq!(data.get_annos("f").unwrap().cat_idxs(), &vec![0, 0, 0, 0]);
    assert_eq!(data.get_annos("g").unwrap().cat_idxs(), &vec![0, 0, 0]);
    // the last category stays
    let before = data.clone();
    data.remove_catidx(0);
    assert_eq!(data, before);
    assert!(!data.is_empty());
    assert_eq!(BboxSpecificData::default(), BboxSpecificData::new());
}

#[test]
fn clipboard_holds_the_selected_boxes() {
    let mut annos = BboxAnnotations::from_bbs_cats(make_test_bbs(), vec![2, 1, 0]);
    annos.select(0);
    annos.select(2);
    let clip = ClipboardData::from_annotations(&annos);
    assert_eq!(
        clip.bbs(),
        &vec![BB::from_arr(&[0, 0, 10, 10]), BB::from_arr(&[9, 9, 10, 10])]
    );
    assert_eq!(clip.cat_idxs(), &vec![2, 0]);
    assert_eq!(
        BboxExportTrigger::default(),
        BboxExportTrigger {
            file_type: BboxExportFileType::Json,
            is_exported_triggered: false
        }
    );
}

#[test]
fn export_needs_its_folders() {
    let data = make_data("dummyfile");
    let mut meta = MetaData::from_filepath("egal".to_string());
    assert_eq!(meta.connection_data, ConnectionData::Local);
    assert_eq!(
        prepare_export(&meta, data.clone()).map(|_| ()),
        Err(RvError::NoExportFolder)
    );
    meta.opened_folder = Some("/data/xi/".to_string());
    assert_eq!(
        prepare_export(&meta, data.clone()).map(|_| ()),
        Err(RvError::NoExportFolder)
    );
    meta.opened_folder = None;
    meta.export_folder = Some("/tmp/rvimage".to_string());
    assert_eq!(
        prepare_export(&meta, data.clone()).map(|_| ()),
        Err(RvError::NoFolderOpened)
    );
    meta.opened_folder = Some("/data/xi/".to_string());
    let job = prepare_export(&meta, data.clone()).unwrap();
    assert_eq!(job.export_folder, "/tmp/rvimage");
    assert_eq!(job.file_stem, "xi");
    assert_eq!(job.data.opened_folder, "/data/xi/");
    assert_eq!(job.data.connection_data, ConnectionData::Local);
    assert_eq!(convert_read(job.data), Ok(data));
    assert_eq!(
        convert_read(ExportData {
            opened_folder: "xi".to_string(),
            connection_data: ConnectionData::default(),
            bbox_data: None
        }),
        Err(RvError::NoBboxData)
    );
}
